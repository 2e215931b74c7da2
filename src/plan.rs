//! The companion builder's layout: its name, slots, setters and the steps of
//! its finalize routine, computed from the target struct's fields.
use vstd::prelude::*;
use crate::classify::{FieldDescriptor, FieldPlan, classify, plans_field, each_of};

verus! {

/// What a builder slot holds when the builder is created.
#[derive(Debug, PartialEq, Eq, Structural, Clone, Copy)]
pub enum SlotInit {
    /// Absent until a setter runs.
    Unset,
    /// Present and holding an empty sequence.
    EmptySeq,
}

/// A method of the builder, by the index of the field it sets.
#[derive(Debug, PartialEq, Eq, Structural, Clone, Copy)]
pub enum Setter {
    /// Replaces the field's whole value.
    Whole(usize),
    /// Appends one element to the field's sequence.
    Item(usize),
}

/// How finalize reads one slot.
#[derive(Debug, PartialEq, Eq, Structural, Clone, Copy)]
pub enum FinalizeStep {
    /// Take the slot as it is, present or absent.
    Take,
    /// The slot must be present, or finalize fails.
    Require,
}

/// The companion builder of one target struct.
#[derive(Debug, PartialEq)]
pub struct BuilderPlan {
    /// The target struct's name.
    pub target: String,
    /// The builder type's name: the target's followed by `Builder`.
    pub builder: String,
    /// One plan per field, in declaration order.
    pub fields: Vec<FieldPlan>,
}

/// The suffix of every builder type's name.
pub open spec fn builder_suffix() -> Seq<char> {
    seq!['B', 'u', 'i', 'l', 'd', 'e', 'r']
}

/// The slot's initial state.
pub open spec fn init_of(p: FieldPlan) -> SlotInit {
    if p.item_setter is Some {
        SlotInit::EmptySeq
    } else {
        SlotInit::Unset
    }
}

/// How finalize treats the field.
pub open spec fn step_of(p: FieldPlan) -> FinalizeStep {
    if p.optional {
        FinalizeStep::Take
    } else {
        FinalizeStep::Require
    }
}

/// Whether the field's whole-value setter is emitted.
pub open spec fn has_whole_setter(p: FieldPlan) -> bool {
    !p.suppress_whole_setter
}

/// The whole-value setters of fields `0..n`, in field order.
pub open spec fn whole_setters(fields: Seq<FieldPlan>, n: int) -> Seq<Setter>
    decreases n,
{
    if n <= 0 {
        Seq::empty()
    } else if has_whole_setter(fields[n - 1]) {
        whole_setters(fields, n - 1).push(Setter::Whole((n - 1) as usize))
    } else {
        whole_setters(fields, n - 1)
    }
}

/// The item setters of fields `0..n`, in field order.
pub open spec fn item_setters(fields: Seq<FieldPlan>, n: int) -> Seq<Setter>
    decreases n,
{
    if n <= 0 {
        Seq::empty()
    } else if fields[n - 1].item_setter is Some {
        item_setters(fields, n - 1).push(Setter::Item((n - 1) as usize))
    } else {
        item_setters(fields, n - 1)
    }
}

/// All builder methods but finalize: the whole-value setters, then the item
/// setters.
pub open spec fn setters_of(fields: Seq<FieldPlan>) -> Seq<Setter> {
    whole_setters(fields, fields.len() as int) + item_setters(fields, fields.len() as int)
}

/// The index of the first field, from `i` on, whose annotations are
/// malformed, with the index of the annotation.
pub open spec fn first_bad_field(fields: Seq<FieldDescriptor>, i: int) -> Option<(int, int)>
    decreases fields.len() - i,
{
    if i < 0 || i >= fields.len() {
        None
    } else {
        match each_of(fields[i].annotations@) {
            Err(a) => Some((i, a)),
            Ok(_) => first_bad_field(fields, i + 1),
        }
    }
}

/// A malformed `each` annotation, located by field and by annotation.
#[derive(Debug, PartialEq, Eq, Structural, Clone, Copy)]
pub struct FieldError {
    /// Index of the field in declaration order.
    pub field: usize,
    /// Index of the annotation among the field's annotations.
    pub annotation: usize,
}

impl FieldError {
    /// The diagnostic text for a malformed annotation.
    pub fn message(&self) -> (r: String)
        ensures
            r@ == "expected `builder(each = \"...\")`"@,
    {
        String::from_str("expected `builder(each = \"...\")`")
    }
}

/// Plans the builder of the struct `target` with the given fields. Fails on
/// the first field, in declaration order, with a malformed annotation.
pub fn plan_builder(target: String, fields: Vec<FieldDescriptor>) -> (r: Result<BuilderPlan, FieldError>)
    ensures
        r matches Ok(b) ==> {
            &&& first_bad_field(fields@, 0) is None
            &&& b.target@ == target@
            &&& b.builder@ == target@ + builder_suffix()
            &&& b.fields@.len() == fields@.len()
            &&& forall|i: int| 0 <= i < fields@.len() ==> plans_field(#[trigger] fields@[i], b.fields@[i])
        },
        r matches Err(e) ==> first_bad_field(fields@, 0) == Some((e.field as int, e.annotation as int)),
{
    let ghost input = fields@;
    let mut builder = target.clone();
    builder.append("Builder");
    proof {
        reveal_strlit("Builder");
        assert(builder@ =~= target@ + builder_suffix());
    }
    let mut plans: Vec<FieldPlan> = Vec::new();
    let mut rest = fields;
    while rest.len() > 0
        invariant
            input == fields@,
            plans@.len() <= input.len(),
            rest@ == input.subrange(plans@.len() as int, input.len() as int),
            first_bad_field(input, 0) == first_bad_field(input, plans@.len() as int),
            forall|i: int| 0 <= i < plans@.len() ==> plans_field(#[trigger] input[i], plans@[i]),
        decreases rest@.len(),
    {
        let ghost i = plans@.len() as int;
        let f = rest.remove(0);
        assert(f == input[i]);
        match classify(f) {
            Ok(p) => {
                plans.push(p);
            },
            Err(e) => {
                assert(first_bad_field(input, i) == Some((i, e.annotation as int)));
                return Err(FieldError { field: plans.len(), annotation: e.annotation });
            },
        }
    }
    Ok(BuilderPlan { target, builder, fields: plans })
}

impl BuilderPlan {
    /// Initial state of each slot, in field order.
    pub fn slot_inits(&self) -> (r: Vec<SlotInit>)
        ensures
            r@.len() == self.fields@.len(),
            forall|i: int| 0 <= i < r@.len() ==> r@[i] == init_of(#[trigger] self.fields@[i]),
    {
        let mut r: Vec<SlotInit> = Vec::new();
        let mut i: usize = 0;
        while i < self.fields.len()
            invariant
                i <= self.fields@.len(),
                r@.len() == i,
                forall|k: int| 0 <= k < i ==> r@[k] == init_of(#[trigger] self.fields@[k]),
            decreases self.fields@.len() - i,
        {
            if self.fields[i].item_setter.is_some() {
                r.push(SlotInit::EmptySeq);
            } else {
                r.push(SlotInit::Unset);
            }
            i = i + 1;
        }
        r
    }

    /// How finalize reads each slot, in field order.
    pub fn finalize_steps(&self) -> (r: Vec<FinalizeStep>)
        ensures
            r@.len() == self.fields@.len(),
            forall|i: int| 0 <= i < r@.len() ==> r@[i] == step_of(#[trigger] self.fields@[i]),
    {
        let mut r: Vec<FinalizeStep> = Vec::new();
        let mut i: usize = 0;
        while i < self.fields.len()
            invariant
                i <= self.fields@.len(),
                r@.len() == i,
                forall|k: int| 0 <= k < i ==> r@[k] == step_of(#[trigger] self.fields@[k]),
            decreases self.fields@.len() - i,
        {
            if self.fields[i].optional {
                r.push(FinalizeStep::Take);
            } else {
                r.push(FinalizeStep::Require);
            }
            i = i + 1;
        }
        r
    }

    /// The builder's setters in the order they are emitted: every whole-value
    /// setter in field order, then every item setter in field order.
    pub fn setters(&self) -> (r: Vec<Setter>)
        ensures
            r@ == setters_of(self.fields@),
    {
        let mut whole: Vec<Setter> = Vec::new();
        let mut items: Vec<Setter> = Vec::new();
        let mut i: usize = 0;
        while i < self.fields.len()
            invariant
                i <= self.fields@.len(),
                whole@ == whole_setters(self.fields@, i as int),
                items@ == item_setters(self.fields@, i as int),
            decreases self.fields@.len() - i,
        {
            if !self.fields[i].suppress_whole_setter {
                whole.push(Setter::Whole(i));
            }
            if self.fields[i].item_setter.is_some() {
                items.push(Setter::Item(i));
            }
            i = i + 1;
        }
        whole.append(&mut items);
        whole
    }
}

} // verus!

verus! {

proof fn lemma_push_contains(prev: Seq<Setter>, last: Setter)
    ensures
        forall|s: Setter| #[trigger] prev.push(last).contains(s) <==> (prev.contains(s) || s == last),
{
    assert(prev.push(last)[prev.len() as int] == last);
    assert forall|s: Setter| #[trigger] prev.push(last).contains(s) <==> (prev.contains(s) || s == last) by {
        if prev.contains(s) {
            let k = choose|k: int| 0 <= k < prev.len() && prev[k] == s;
            assert(prev.push(last)[k] == s);
        }
        if prev.push(last).contains(s) && s != last {
            let k = choose|k: int| 0 <= k < prev.len() + 1 && prev.push(last)[k] == s;
            assert(prev[k] == s);
        }
    }
}

proof fn lemma_whole_setters(fields: Seq<FieldPlan>, n: int)
    requires
        0 <= n <= fields.len() <= usize::MAX,
    ensures
        forall|k: usize| #[trigger] whole_setters(fields, n).contains(Setter::Whole(k)) <==> (k < n
            && has_whole_setter(fields[k as int])),
        forall|k: usize| !(#[trigger] whole_setters(fields, n).contains(Setter::Item(k))),
    decreases n,
{
    if n > 0 {
        lemma_whole_setters(fields, n - 1);
        let prev = whole_setters(fields, n - 1);
        let last = Setter::Whole((n - 1) as usize);
        if has_whole_setter(fields[n - 1]) {
            lemma_push_contains(prev, last);
        }
    }
}

proof fn lemma_item_setters(fields: Seq<FieldPlan>, n: int)
    requires
        0 <= n <= fields.len() <= usize::MAX,
    ensures
        forall|k: usize| #[trigger] item_setters(fields, n).contains(Setter::Item(k)) <==> (k < n
            && fields[k as int].item_setter is Some),
        forall|k: usize| !(#[trigger] item_setters(fields, n).contains(Setter::Whole(k))),
    decreases n,
{
    if n > 0 {
        lemma_item_setters(fields, n - 1);
        let prev = item_setters(fields, n - 1);
        let last = Setter::Item((n - 1) as usize);
        if fields[n - 1].item_setter is Some {
            lemma_push_contains(prev, last);
        }
    }
}

/// When a field's `each` annotation names the field itself, the planned
/// builder has no whole-value setter for it, but keeps its item setter.
pub proof fn lemma_setter_suppression(fields: Seq<FieldDescriptor>, plans: Seq<FieldPlan>, i: usize)
    requires
        fields.len() == plans.len() <= usize::MAX,
        forall|k: int| 0 <= k < fields.len() ==> plans_field(#[trigger] fields[k], plans[k]),
        i < fields.len(),
        each_of(fields[i as int].annotations@) == Ok::<Option<Seq<char>>, int>(Some(fields[i as int].name@)),
    ensures
        !setters_of(plans).contains(Setter::Whole(i)),
        setters_of(plans).contains(Setter::Item(i)),
{
    assert(plans_field(fields[i as int], plans[i as int]));
    let n = plans.len() as int;
    lemma_whole_setters(plans, n);
    lemma_item_setters(plans, n);
    let w = whole_setters(plans, n);
    let t = item_setters(plans, n);
    assert(!w.contains(Setter::Whole(i)));
    assert(!t.contains(Setter::Whole(i)));
    assert(t.contains(Setter::Item(i)));
    let k = choose|k: int| 0 <= k < t.len() && t[k] == Setter::Item(i);
    assert((w + t)[w.len() + k] == Setter::Item(i));
    if (w + t).contains(Setter::Whole(i)) {
        let m = choose|m: int| 0 <= m < (w + t).len() && (w + t)[m] == Setter::Whole(i);
        if m < w.len() {
            assert(w[m] == Setter::Whole(i));
        } else {
            assert(t[m - w.len()] == Setter::Whole(i));
        }
    }
}

} // verus!
