//! Field classification: from a field's declared type and annotations to
//! the plan that decides its builder slot and setters.
use vstd::prelude::*;
use crate::types::{TypeExpr, strip_option, option_type, vec_type, option_inner, unwrap_option, sequence_inner};

verus! {

/// What an attribute holds after its path.
#[derive(Debug, PartialEq)]
pub enum AnnotationBody {
    /// A parenthesized list holding exactly one item, `key = literal`;
    /// `text` holds the literal's value when it is a string literal.
    NameValue { key: String, text: Option<String> },
    /// Not a parenthesized list: a bare path, or `path = literal`.
    NotList,
    /// Any other list: an empty one, one of several items, or one whose
    /// item is not `key = literal`.
    Other,
}

/// One attribute on a field: its path, and the shape of what follows.
#[derive(Debug, PartialEq)]
pub struct Annotation {
    /// The attribute's path, as written: `builder` for the builder group.
    pub path: String,
    pub body: AnnotationBody,
}

/// A field of the target struct as declared.
#[derive(Debug, PartialEq)]
pub struct FieldDescriptor {
    pub name: String,
    pub ty: TypeExpr,
    pub annotations: Vec<Annotation>,
}

/// A malformed `each` annotation: the index of the offending annotation.
#[derive(Debug, PartialEq, Eq, Structural)]
pub struct AnnotationError {
    pub annotation: usize,
}

/// How a field is filled by the builder.
#[derive(Debug, PartialEq, Eq, Structural, Clone, Copy)]
pub enum ConstructionMode {
    Required,
    Optional,
    Accumulating,
}

/// The classifier's decision for one field.
#[derive(Debug, PartialEq)]
pub struct FieldPlan {
    pub name: String,
    /// The item setter's name, for an accumulating field.
    pub item_setter: Option<String>,
    /// Whether the field is declared as `Option<T>`.
    pub optional: bool,
    /// The type held by the builder's slot.
    pub storage: TypeExpr,
    /// Whether the whole-value setter is left out, its name being taken by
    /// the item setter.
    pub suppress_whole_setter: bool,
}

/// The characters of the only accepted annotation key.
pub open spec fn each_key() -> Seq<char> {
    seq!['e', 'a', 'c', 'h']
}

/// The characters of the builder annotation group's path.
pub open spec fn builder_path() -> Seq<char> {
    seq!['b', 'u', 'i', 'l', 'd', 'e', 'r']
}

/// What one annotation says. An attribute of another group, or one that is
/// not a list, says nothing. Inside the builder group's list exactly
/// `each = "<name>"` names the item setter, and every other shape is an
/// error.
pub open spec fn annotation_meaning(a: Annotation) -> Result<Option<Seq<char>>, ()> {
    if a.path@ != builder_path() {
        Ok(None)
    } else {
        match a.body {
            AnnotationBody::NameValue { key, text: Some(t) } => {
                if key@ == each_key() {
                    Ok(Some(t@))
                } else {
                    Err(())
                }
            },
            AnnotationBody::NotList => Ok(None),
            _ => Err(()),
        }
    }
}

/// Scanning annotations in order from index `i`: the first that errs or
/// names an item setter decides.
pub open spec fn scan_each(annots: Seq<Annotation>, i: int) -> Result<Option<Seq<char>>, int>
    decreases annots.len() - i,
{
    if i < 0 || i >= annots.len() {
        Ok(None)
    } else {
        match annotation_meaning(annots[i]) {
            Err(()) => Err(i),
            Ok(Some(n)) => Ok(Some(n)),
            Ok(None) => scan_each(annots, i + 1),
        }
    }
}

/// The item setter's name over a field's annotations, or the index of the
/// first malformed one.
pub open spec fn each_of(annots: Seq<Annotation>) -> Result<Option<Seq<char>>, int> {
    scan_each(annots, 0)
}

/// Reads one annotation.
pub fn annotation_each(a: &Annotation) -> (r: Result<Option<String>, ()>)
    ensures
        r matches Ok(Some(n)) ==> annotation_meaning(*a) == Ok::<Option<Seq<char>>, ()>(Some(n@)),
        r matches Ok(None) ==> annotation_meaning(*a) == Ok::<Option<Seq<char>>, ()>(None),
        r is Err ==> annotation_meaning(*a) is Err,
{
    let builder = String::from_str("builder");
    let each = String::from_str("each");
    proof {
        reveal_strlit("builder");
        reveal_strlit("each");
        assert(builder@ =~= builder_path());
        assert(each@ =~= each_key());
    }
    if a.path != builder {
        return Ok(None);
    }
    match &a.body {
        AnnotationBody::NameValue { key, text: Some(t) } => {
            if *key == each {
                Ok(Some(t.clone()))
            } else {
                Err(())
            }
        },
        AnnotationBody::NotList => Ok(None),
        _ => Err(()),
    }
}

/// Finds the item setter's name among a field's annotations; a malformed
/// `each` annotation met first is an error at its index.
pub fn find_each(annots: &Vec<Annotation>) -> (r: Result<Option<String>, AnnotationError>)
    ensures
        r matches Ok(Some(n)) ==> each_of(annots@) == Ok::<Option<Seq<char>>, int>(Some(n@)),
        r matches Ok(None) ==> each_of(annots@) == Ok::<Option<Seq<char>>, int>(None),
        r matches Err(e) ==> each_of(annots@) == Err::<Option<Seq<char>>, int>(e.annotation as int),
{
    let mut i: usize = 0;
    while i < annots.len()
        invariant
            i <= annots@.len(),
            each_of(annots@) == scan_each(annots@, i as int),
        decreases annots@.len() - i,
    {
        match annotation_each(&annots[i]) {
            Err(()) => {
                return Err(AnnotationError { annotation: i });
            },
            Ok(Some(n)) => {
                return Ok(Some(n));
            },
            Ok(None) => {},
        }
        i = i + 1;
    }
    Ok(None)
}

impl FieldPlan {
    /// The field's construction mode.
    pub open spec fn mode_spec(&self) -> ConstructionMode {
        if self.item_setter is Some {
            ConstructionMode::Accumulating
        } else if self.optional {
            ConstructionMode::Optional
        } else {
            ConstructionMode::Required
        }
    }

    /// The field's construction mode.
    pub fn mode(&self) -> (r: ConstructionMode)
        ensures
            r == self.mode_spec(),
    {
        if self.item_setter.is_some() {
            ConstructionMode::Accumulating
        } else if self.optional {
            ConstructionMode::Optional
        } else {
            ConstructionMode::Required
        }
    }

    /// The element type taken by the item setter: the single argument of the
    /// slot's type.
    pub fn item_type(&self) -> (r: Option<&TypeExpr>)
        ensures
            r matches Some(t) ==> sequence_inner(self.storage) == Some(*t),
            r is None ==> sequence_inner(self.storage) is None,
    {
        vec_type(&self.storage)
    }
}

/// The plan that a field descriptor yields, once its annotations are read
/// without error.
pub open spec fn plans_field(f: FieldDescriptor, p: FieldPlan) -> bool {
    &&& each_of(f.annotations@) is Ok
    &&& p.name@ == f.name@
    &&& (match each_of(f.annotations@) {
        Ok(Some(n)) => p.item_setter matches Some(s) && s@ == n,
        _ => p.item_setter is None,
    })
    &&& p.optional == (option_inner(f.ty) is Some)
    &&& p.storage == unwrap_option(f.ty)
    &&& p.suppress_whole_setter == (p.item_setter matches Some(s) && s@ == f.name@)
}

/// Classifies one field: reads its `each` annotation, detects an optional
/// wrapper, and picks the slot type.
pub fn classify(field: FieldDescriptor) -> (r: Result<FieldPlan, AnnotationError>)
    ensures
        r matches Ok(p) ==> plans_field(field, p),
        r matches Err(e) ==> each_of(field.annotations@) == Err::<Option<Seq<char>>, int>(e.annotation as int),
{
    let ghost f = field;
    let FieldDescriptor { name, ty, annotations } = field;
    let item_setter = match find_each(&annotations) {
        Ok(s) => s,
        Err(e) => {
            return Err(e);
        },
    };
    let suppress_whole_setter = match &item_setter {
        Some(s) => *s == name,
        None => false,
    };
    let optional = option_type(&ty).is_some();
    let storage = strip_option(ty);
    Ok(FieldPlan { name, item_setter, optional, storage, suppress_whole_setter })
}

} // verus!
