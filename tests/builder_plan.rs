use shape_macros::builder::{Builder, Built, ConstructionError, Content};
use shape_macros::classify::{
    annotation_each, classify, find_each, Annotation, AnnotationBody, AnnotationError, ConstructionMode,
    FieldDescriptor,
};
use shape_macros::plan::{plan_builder, FieldError, FinalizeStep, Setter, SlotInit};
use shape_macros::types::{option_type, strip_option, vec_type, GenericArg, PathArgs, PathSegment, TypeExpr};

fn named(name: &str) -> TypeExpr {
    TypeExpr::Path(vec![PathSegment { name: name.to_string(), args: PathArgs::Plain }])
}

fn generic(name: &str, args: Vec<TypeExpr>) -> TypeExpr {
    TypeExpr::Path(vec![PathSegment {
        name: name.to_string(),
        args: PathArgs::Angle(args.into_iter().map(GenericArg::Type).collect()),
    }])
}

fn annot(path: &str, body: AnnotationBody) -> Annotation {
    Annotation { path: path.to_string(), body }
}

fn name_value(path: &str, key: &str, text: Option<&str>) -> Annotation {
    annot(path, AnnotationBody::NameValue { key: key.to_string(), text: text.map(|t| t.to_string()) })
}

fn each(name: &str) -> Annotation {
    name_value("builder", "each", Some(name))
}

fn other(path: &str) -> Annotation {
    annot(path, AnnotationBody::Other)
}

fn field(name: &str, ty: TypeExpr, annotations: Vec<Annotation>) -> FieldDescriptor {
    FieldDescriptor { name: name.to_string(), ty, annotations }
}

fn command_fields() -> Vec<FieldDescriptor> {
    vec![
        field("executable", named("String"), vec![]),
        field("args", generic("Vec", vec![named("String")]), vec![each("arg")]),
        field("env", generic("Vec", vec![named("String")]), vec![each("env")]),
        field("current_dir", generic("Option", vec![named("String")]), vec![]),
    ]
}

#[test]
fn option_type_unwraps_option() {
    let ty = generic("Option", vec![named("u32")]);
    assert_eq!(option_type(&ty), Some(&named("u32")));
}

#[test]
fn option_type_rejects_other_shapes() {
    assert_eq!(option_type(&named("u32")), None);
    assert_eq!(option_type(&generic("Vec", vec![named("u32")])), None);
    assert_eq!(option_type(&generic("Option", vec![named("u32"), named("u8")])), None);
    assert_eq!(option_type(&TypeExpr::Other), None);
    let two_segments = TypeExpr::Path(vec![
        PathSegment { name: "std".to_string(), args: PathArgs::Plain },
        PathSegment {
            name: "Option".to_string(),
            args: PathArgs::Angle(vec![GenericArg::Type(named("u32"))]),
        },
    ]);
    assert_eq!(option_type(&two_segments), None);
    let lifetime = TypeExpr::Path(vec![PathSegment {
        name: "Option".to_string(),
        args: PathArgs::Angle(vec![GenericArg::Other]),
    }]);
    assert_eq!(option_type(&lifetime), None);
}

#[test]
fn vec_type_ignores_the_wrapper_name() {
    assert_eq!(vec_type(&generic("Vec", vec![named("u8")])), Some(&named("u8")));
    assert_eq!(vec_type(&generic("List", vec![named("u8")])), Some(&named("u8")));
    assert_eq!(vec_type(&generic("Map", vec![named("u8"), named("u8")])), None);
    assert_eq!(vec_type(&named("u8")), None);
}

#[test]
fn strip_option_removes_one_layer() {
    let nested = generic("Option", vec![generic("Option", vec![named("u8")])]);
    assert_eq!(strip_option(nested), generic("Option", vec![named("u8")]));
    assert_eq!(strip_option(named("u8")), named("u8"));
}

#[test]
fn annotation_each_reads_the_name() {
    assert_eq!(annotation_each(&each("arg")), Ok(Some("arg".to_string())));
    assert_eq!(annotation_each(&other("allow")), Ok(None));
    assert_eq!(annotation_each(&annot("doc", AnnotationBody::NotList)), Ok(None));
    // A bare `#[builder]` or `#[builder = "x"]` has nothing inside the group.
    assert_eq!(annotation_each(&annot("builder", AnnotationBody::NotList)), Ok(None));
    assert_eq!(annotation_each(&name_value("serde", "rename", Some("x"))), Ok(None));
    assert_eq!(annotation_each(&name_value("serde", "each", Some("x"))), Ok(None));
    let misnamed = name_value("builder", "eac", Some("arg"));
    assert_eq!(annotation_each(&misnamed), Err(()));
}

#[test]
fn annotation_each_rejects_other_shapes_in_builder_group() {
    // `builder(each = 1)`: not a string literal.
    assert_eq!(annotation_each(&name_value("builder", "each", None)), Err(()));
    // `builder(each)`, `builder()`, `builder(each = "a", x)`.
    assert_eq!(annotation_each(&other("builder")), Err(()));
}

#[test]
fn find_each_reports_the_malformed_annotation() {
    let misnamed = name_value("builder", "eac", Some("arg"));
    let annots = vec![other("allow"), misnamed, each("arg")];
    assert_eq!(find_each(&annots), Err(AnnotationError { annotation: 1 }));
    let annots = vec![other("allow"), each("arg")];
    assert_eq!(find_each(&annots), Ok(Some("arg".to_string())));
    assert_eq!(find_each(&vec![]), Ok(None));
}

#[test]
fn classify_assigns_modes() {
    let required = classify(field("name", named("String"), vec![])).unwrap();
    assert_eq!(required.mode(), ConstructionMode::Required);
    assert_eq!(required.storage, named("String"));
    assert!(!required.suppress_whole_setter);

    let optional = classify(field("dir", generic("Option", vec![named("String")]), vec![])).unwrap();
    assert_eq!(optional.mode(), ConstructionMode::Optional);
    assert!(optional.optional);
    assert_eq!(optional.storage, named("String"));

    let acc = classify(field("args", generic("Vec", vec![named("String")]), vec![each("arg")])).unwrap();
    assert_eq!(acc.mode(), ConstructionMode::Accumulating);
    assert_eq!(acc.item_setter, Some("arg".to_string()));
    assert!(!acc.suppress_whole_setter);
    assert_eq!(acc.item_type(), Some(&named("String")));
}

#[test]
fn classify_suppresses_whole_setter_on_name_clash() {
    let plan = classify(field("env", generic("Vec", vec![named("String")]), vec![each("env")])).unwrap();
    assert!(plan.suppress_whole_setter);
    assert_eq!(plan.item_setter, Some("env".to_string()));
}

#[test]
fn classify_fails_on_misnamed_key() {
    let misnamed = name_value("builder", "eac", Some("arg"));
    let r = classify(field("args", generic("Vec", vec![named("String")]), vec![misnamed]));
    assert_eq!(r, Err(AnnotationError { annotation: 0 }));
}

#[test]
fn plan_builder_lays_out_the_builder() {
    let plan = plan_builder("Command".to_string(), command_fields()).unwrap();
    assert_eq!(plan.target, "Command");
    assert_eq!(plan.builder, "CommandBuilder");
    assert_eq!(plan.fields.len(), 4);
    assert_eq!(
        plan.slot_inits(),
        vec![SlotInit::Unset, SlotInit::EmptySeq, SlotInit::EmptySeq, SlotInit::Unset]
    );
    assert_eq!(
        plan.finalize_steps(),
        vec![FinalizeStep::Require, FinalizeStep::Require, FinalizeStep::Require, FinalizeStep::Take]
    );
    // `env` names its item setter after itself: no whole-value setter for it.
    assert_eq!(
        plan.setters(),
        vec![Setter::Whole(0), Setter::Whole(1), Setter::Whole(3), Setter::Item(1), Setter::Item(2)]
    );
}

#[test]
fn plan_builder_reports_first_bad_field() {
    let mut fields = command_fields();
    fields[2].annotations = vec![other("allow"), name_value("builder", "x", None)];
    let err = plan_builder("Command".to_string(), fields).unwrap_err();
    assert_eq!(err, FieldError { field: 2, annotation: 1 });
    assert_eq!(err.message(), "expected `builder(each = \"...\")`");
}

fn all_required_plan() -> shape_macros::plan::BuilderPlan {
    let fields = vec![
        field("a", named("u32"), vec![]),
        field("b", named("u32"), vec![]),
        field("c", named("u32"), vec![]),
    ];
    plan_builder("Triple".to_string(), fields).unwrap()
}

#[test]
fn round_trip_keeps_values() {
    let plan = all_required_plan();
    let mut b: Builder<u32> = Builder::new(&plan);
    b.set(2, Content::Single(30));
    b.set(0, Content::Single(10));
    b.set(1, Content::Single(20));
    let built = b.build().unwrap();
    assert_eq!(
        built,
        vec![
            Built::Value(Content::Single(10)),
            Built::Value(Content::Single(20)),
            Built::Value(Content::Single(30)),
        ]
    );
}

#[test]
fn missing_required_field_fails() {
    let plan = all_required_plan();
    let mut b: Builder<u32> = Builder::new(&plan);
    b.set(0, Content::Single(10));
    b.set(2, Content::Single(30));
    let err = b.build().unwrap_err();
    assert_eq!(err, ConstructionError);
    assert_eq!(err.message(), "Error");
}

#[test]
fn failed_build_stops_at_first_missing_field() {
    let plan = all_required_plan();
    let mut b: Builder<u32> = Builder::new(&plan);
    b.set(0, Content::Single(10));
    b.set(2, Content::Single(30));
    assert_eq!(b.build(), Err(ConstructionError));
    // `a` was taken before `b` was found missing; `c` was left in place.
    b.set(1, Content::Single(20));
    assert_eq!(b.build(), Err(ConstructionError));
    b.set(0, Content::Single(11));
    b.set(1, Content::Single(21));
    let built = b.build().unwrap();
    assert_eq!(
        built,
        vec![
            Built::Value(Content::Single(11)),
            Built::Value(Content::Single(21)),
            Built::Value(Content::Single(30)),
        ]
    );
}

#[test]
fn unset_optional_field_is_absent() {
    let plan = plan_builder("Command".to_string(), command_fields()).unwrap();
    let mut b: Builder<String> = Builder::new(&plan);
    b.set(0, Content::Single("cargo".to_string()));
    let built = b.build().unwrap();
    assert_eq!(built[0], Built::Value(Content::Single("cargo".to_string())));
    assert_eq!(built[3], Built::Maybe(None));
}

#[test]
fn set_optional_field_is_present() {
    let plan = plan_builder("Command".to_string(), command_fields()).unwrap();
    let mut b: Builder<String> = Builder::new(&plan);
    b.set(0, Content::Single("cargo".to_string()));
    b.set(3, Content::Single("..".to_string()));
    let built = b.build().unwrap();
    assert_eq!(built[3], Built::Maybe(Some(Content::Single("..".to_string()))));
}

#[test]
fn accumulating_field_defaults_to_empty() {
    let plan = plan_builder("Command".to_string(), command_fields()).unwrap();
    let mut b: Builder<String> = Builder::new(&plan);
    b.set(0, Content::Single("cargo".to_string()));
    let built = b.build().unwrap();
    assert_eq!(built[1], Built::Value(Content::Items(vec![])));
    assert_eq!(built[2], Built::Value(Content::Items(vec![])));
}

#[test]
fn accumulating_field_keeps_call_order() {
    let plan = plan_builder("Command".to_string(), command_fields()).unwrap();
    let mut b: Builder<String> = Builder::new(&plan);
    b.set(0, Content::Single("cargo".to_string()));
    b.push(1, "build".to_string());
    b.push(1, "--release".to_string());
    b.push(2, "A=1".to_string());
    b.push(1, "-q".to_string());
    let built = b.build().unwrap();
    assert_eq!(
        built[1],
        Built::Value(Content::Items(vec!["build".to_string(), "--release".to_string(), "-q".to_string()]))
    );
    assert_eq!(built[2], Built::Value(Content::Items(vec!["A=1".to_string()])));
}

#[test]
fn whole_setter_replaces_accumulated_items() {
    let plan = plan_builder("Command".to_string(), command_fields()).unwrap();
    let mut b: Builder<String> = Builder::new(&plan);
    b.set(0, Content::Single("cargo".to_string()));
    b.push(1, "build".to_string());
    b.set(1, Content::Items(vec!["test".to_string()]));
    b.push(1, "-q".to_string());
    let built = b.build().unwrap();
    assert_eq!(built[1], Built::Value(Content::Items(vec!["test".to_string(), "-q".to_string()])));
}

#[test]
fn optional_accumulating_field_is_present_and_empty() {
    let fields = vec![field(
        "tags",
        generic("Option", vec![generic("Vec", vec![named("String")])]),
        vec![each("tag")],
    )];
    let plan = plan_builder("Tagged".to_string(), fields).unwrap();
    assert_eq!(plan.fields[0].storage, generic("Vec", vec![named("String")]));
    assert_eq!(plan.fields[0].item_type(), Some(&named("String")));
    let mut b: Builder<String> = Builder::new(&plan);
    let built = b.build().unwrap();
    assert_eq!(built[0], Built::Maybe(Some(Content::Items(vec![]))));
}
