//! The behaviour of a generated builder at run time: one optional slot per
//! field, setters that fill slots, and a finalize step that either yields
//! every field's value or fails on an absent required field.
use vstd::prelude::*;
use crate::plan::BuilderPlan;
use crate::classify::FieldPlan;

verus! {

/// A value held by a slot: a single value, or the sequence of an
/// accumulating field.
#[derive(Debug, PartialEq)]
pub enum Content<V> {
    Single(V),
    Items(Vec<V>),
}

/// The mathematical content of a slot.
pub enum Held<V> {
    One(V),
    Many(Seq<V>),
}

impl<V> Content<V> {
    pub open spec fn view(&self) -> Held<V> {
        match self {
            Content::Single(v) => Held::One(*v),
            Content::Items(v) => Held::Many(v@),
        }
    }
}

/// One field of the finished value.
#[derive(Debug, PartialEq)]
pub enum Built<V> {
    /// A required or accumulating field's value.
    Value(Content<V>),
    /// An optional field's value, present or absent.
    Maybe(Option<Content<V>>),
}

/// The mathematical content of a finished field.
pub enum Out<V> {
    Value(Held<V>),
    Maybe(Option<Held<V>>),
}

impl<V> Built<V> {
    pub open spec fn view(&self) -> Out<V> {
        match self {
            Built::Value(c) => Out::Value(c@),
            Built::Maybe(None) => Out::Maybe(None),
            Built::Maybe(Some(c)) => Out::Maybe(Some(c@)),
        }
    }
}

/// What the builder knows of one field.
#[derive(Debug, PartialEq, Eq, Structural, Clone, Copy)]
pub struct SlotKind {
    /// The field is declared as `Option<T>`: finalize takes it as it is.
    pub optional: bool,
    /// The field has an item setter and starts as an empty sequence.
    pub accumulating: bool,
    /// The field has a whole-value setter.
    pub whole_setter: bool,
}

/// Finalize found a required field that was never set.
#[derive(Debug, PartialEq, Eq, Structural)]
pub struct ConstructionError;

impl ConstructionError {
    /// The error's fixed message; it does not name the field.
    pub fn message(&self) -> (r: String)
        ensures
            r@ == "Error"@,
    {
        String::from_str("Error")
    }
}

/// The slot kind that a field plan gives.
pub open spec fn kind_of(p: FieldPlan) -> SlotKind {
    SlotKind {
        optional: p.optional,
        accumulating: p.item_setter is Some,
        whole_setter: !p.suppress_whole_setter,
    }
}

/// The slots of a new builder: an empty sequence for each accumulating
/// field, absent for every other.
pub open spec fn fresh<V>(kinds: Seq<SlotKind>) -> Seq<Option<Held<V>>> {
    Seq::new(kinds.len(), |i: int| if kinds[i].accumulating { Some(Held::Many(Seq::empty())) } else { None })
}

/// Whether some field that finalize requires is absent.
pub open spec fn missing<V>(kinds: Seq<SlotKind>, slots: Seq<Option<Held<V>>>) -> bool {
    exists|i: int| 0 <= i < kinds.len() && !kinds[i].optional && #[trigger] slots[i] is None
}

/// The first field, from `i` on, that finalize requires and finds absent.
pub open spec fn first_missing_from<V>(kinds: Seq<SlotKind>, slots: Seq<Option<Held<V>>>, i: int) -> Option<int>
    decreases kinds.len() - i,
{
    if i < 0 || i >= kinds.len() {
        None
    } else if !kinds[i].optional && slots[i] is None {
        Some(i)
    } else {
        first_missing_from(kinds, slots, i + 1)
    }
}

/// The first field, in declaration order, that finalize requires and finds
/// absent.
pub open spec fn first_missing<V>(kinds: Seq<SlotKind>, slots: Seq<Option<Held<V>>>) -> Option<int> {
    first_missing_from(kinds, slots, 0)
}

/// Slots once finalize has taken the values of fields `0..n`.
pub open spec fn taken<V>(slots: Seq<Option<Held<V>>>, n: int) -> Seq<Option<Held<V>>> {
    Seq::new(slots.len(), |k: int| if k < n { None } else { slots[k] })
}

/// What finalize yields: nothing when a required field is absent, else each
/// field's value in declaration order.
pub open spec fn finalized<V>(kinds: Seq<SlotKind>, slots: Seq<Option<Held<V>>>) -> Option<Seq<Out<V>>> {
    if missing(kinds, slots) {
        None
    } else {
        Some(Seq::new(kinds.len(), |i: int| if kinds[i].optional { Out::Maybe(slots[i]) } else { Out::Value(slots[i]->Some_0) }))
    }
}

/// Slots after the whole-value setter of field `i` stored `v`.
pub open spec fn stored<V>(slots: Seq<Option<Held<V>>>, i: int, v: Held<V>) -> Seq<Option<Held<V>>> {
    slots.update(i, Some(v))
}

/// The sequence held by a slot, empty when there is none.
pub open spec fn items_of<V>(slot: Option<Held<V>>) -> Seq<V> {
    match slot {
        Some(Held::Many(s)) => s,
        _ => Seq::empty(),
    }
}

/// Slots after the item setter of field `i` appended `item`.
pub open spec fn appended<V>(slots: Seq<Option<Held<V>>>, i: int, item: V) -> Seq<Option<Held<V>>> {
    slots.update(i, Some(Held::Many(items_of(slots[i]).push(item))))
}

/// Slots after the item setter of field `i` ran once for each of `items`,
/// in order.
pub open spec fn after_pushes<V>(slots: Seq<Option<Held<V>>>, i: int, items: Seq<V>) -> Seq<Option<Held<V>>>
    decreases items.len(),
{
    if items.len() == 0 {
        slots
    } else {
        appended(after_pushes(slots, i, items.drop_last()), i, items.last())
    }
}

/// One setter call on a builder: a whole-value setter storing a value, or
/// an item setter appending one.
pub enum Call<V> {
    Store(int, Held<V>),
    Append(int, V),
}

/// The field a call targets.
pub open spec fn call_field<V>(c: Call<V>) -> int {
    match c {
        Call::Store(i, _) => i,
        Call::Append(i, _) => i,
    }
}

/// Some call targets field `k`.
pub open spec fn targeted<V>(calls: Seq<Call<V>>, k: int) -> bool {
    exists|c: int| 0 <= c < calls.len() && #[trigger] call_field(calls[c]) == k
}

/// Slots after one call.
pub open spec fn apply<V>(slots: Seq<Option<Held<V>>>, c: Call<V>) -> Seq<Option<Held<V>>> {
    match c {
        Call::Store(i, v) => stored(slots, i, v),
        Call::Append(i, x) => appended(slots, i, x),
    }
}

/// Slots after the calls, in order.
pub open spec fn after_calls<V>(slots: Seq<Option<Held<V>>>, calls: Seq<Call<V>>) -> Seq<Option<Held<V>>>
    decreases calls.len(),
{
    if calls.len() == 0 {
        slots
    } else {
        apply(after_calls(slots, calls.drop_last()), calls.last())
    }
}

proof fn lemma_after_calls<V>(slots: Seq<Option<Held<V>>>, calls: Seq<Call<V>>)
    requires
        forall|c: int| 0 <= c < calls.len() ==> 0 <= call_field(#[trigger] calls[c]) < slots.len(),
    ensures
        after_calls(slots, calls).len() == slots.len(),
        forall|k: int| 0 <= k < slots.len() && (forall|c: int| 0 <= c < calls.len() ==> call_field(#[trigger] calls[c]) != k)
            ==> #[trigger] after_calls(slots, calls)[k] == slots[k],
        forall|c: int| 0 <= c < calls.len() && (#[trigger] calls[c]) is Store
            && (forall|d: int| 0 <= d < calls.len() && d != c ==> call_field(#[trigger] calls[d]) != call_field(calls[c]))
            ==> after_calls(slots, calls)[call_field(calls[c])] == Some(calls[c]->Store_1),
        forall|k: int| 0 <= k < slots.len() && #[trigger] targeted(calls, k) ==> after_calls(slots, calls)[k] is Some,
    decreases calls.len(),
{
    if calls.len() > 0 {
        let init = calls.drop_last();
        lemma_after_calls(slots, init);
        let last = calls.last();
        assert forall|c: int| 0 <= c < calls.len() && (#[trigger] calls[c]) is Store
            && (forall|d: int| 0 <= d < calls.len() && d != c ==> call_field(#[trigger] calls[d]) != call_field(calls[c]))
            implies after_calls(slots, calls)[call_field(calls[c])] == Some(calls[c]->Store_1) by {
            let k = call_field(calls[c]);
            if c < calls.len() - 1 {
                assert(call_field(calls[calls.len() - 1]) != k);
                assert(init[c] == calls[c]);
                assert forall|d: int| 0 <= d < init.len() && d != c implies call_field(#[trigger] init[d]) != k by {
                    assert(init[d] == calls[d]);
                }
            }
        }
        assert forall|k: int| 0 <= k < slots.len() && #[trigger] targeted(calls, k) implies after_calls(slots, calls)[k] is Some by {
            if call_field(last) != k {
                let c = choose|c: int| 0 <= c < calls.len() && #[trigger] call_field(calls[c]) == k;
                assert(init[c] == calls[c]);
                assert(targeted(init, k));
            }
        }
        assert forall|k: int| 0 <= k < slots.len() && (forall|c: int| 0 <= c < calls.len() ==> call_field(#[trigger] calls[c]) != k)
            implies #[trigger] after_calls(slots, calls)[k] == slots[k] by {
            assert(call_field(calls[calls.len() - 1]) != k);
            assert forall|d: int| 0 <= d < init.len() implies call_field(#[trigger] init[d]) != k by {
                assert(init[d] == calls[d]);
            }
        }
    }
}

/// Calling the whole-value setter of every field of an all-required builder
/// exactly once, in any order, then finalizing, succeeds and hands back each
/// value unchanged in its field.
pub proof fn lemma_round_trip<V>(kinds: Seq<SlotKind>, calls: Seq<Call<V>>)
    requires
        forall|i: int| 0 <= i < kinds.len() ==> !(#[trigger] kinds[i]).optional && !kinds[i].accumulating && kinds[i].whole_setter,
        forall|c: int| 0 <= c < calls.len() ==> ((#[trigger] calls[c]) matches Call::Store(i, Held::One(_)) && 0 <= i < kinds.len()),
        forall|c: int, d: int| 0 <= c < calls.len() && 0 <= d < calls.len() && c != d
            ==> call_field(#[trigger] calls[c]) != call_field(#[trigger] calls[d]),
        forall|k: int| 0 <= k < kinds.len() ==> #[trigger] targeted(calls, k),
    ensures
        finalized(kinds, after_calls(fresh::<V>(kinds), calls)) matches Some(outs)
            && outs.len() == kinds.len()
            && forall|c: int| 0 <= c < calls.len() ==> outs[call_field(#[trigger] calls[c])] == Out::Value(calls[c]->Store_1),
{
    let s = after_calls(fresh::<V>(kinds), calls);
    lemma_after_calls(fresh::<V>(kinds), calls);
    assert forall|c: int| 0 <= c < calls.len() implies s[call_field(#[trigger] calls[c])] == Some(calls[c]->Store_1) by {
        let k = call_field(calls[c]);
        assert forall|d: int| 0 <= d < calls.len() && d != c implies call_field(#[trigger] calls[d]) != k by {}
    }
    assert forall|k: int| 0 <= k < kinds.len() implies #[trigger] s[k] is Some by {
        assert(targeted(calls, k));
        let c = choose|c: int| 0 <= c < calls.len() && #[trigger] call_field(calls[c]) == k;
        assert(s[call_field(calls[c])] == Some(calls[c]->Store_1));
    }
    assert(!missing(kinds, s));
}

/// Finalize fails after any sequence of setter calls that never targets a
/// required field.
pub proof fn lemma_missing_required<V>(kinds: Seq<SlotKind>, calls: Seq<Call<V>>, j: int)
    requires
        0 <= j < kinds.len(),
        !kinds[j].optional,
        !kinds[j].accumulating,
        forall|c: int| 0 <= c < calls.len() ==> 0 <= call_field(#[trigger] calls[c]) < kinds.len(),
        forall|c: int| 0 <= c < calls.len() ==> call_field(#[trigger] calls[c]) != j,
    ensures
        finalized(kinds, after_calls(fresh::<V>(kinds), calls)) is None,
{
    let s = after_calls(fresh::<V>(kinds), calls);
    lemma_after_calls(fresh::<V>(kinds), calls);
    assert(s[j] is None);
}

/// After calls that target every required field, nothing is missing, and a
/// field that no call targets keeps its initial slot.
proof fn lemma_untouched_field<V>(kinds: Seq<SlotKind>, calls: Seq<Call<V>>, j: int)
    requires
        0 <= j < kinds.len(),
        forall|c: int| 0 <= c < calls.len() ==> 0 <= call_field(#[trigger] calls[c]) < kinds.len(),
        forall|c: int| 0 <= c < calls.len() ==> call_field(#[trigger] calls[c]) != j,
        forall|k: int| 0 <= k < kinds.len() && !(#[trigger] kinds[k]).optional && !kinds[k].accumulating ==> targeted(calls, k),
    ensures
        !missing(kinds, after_calls(fresh::<V>(kinds), calls)),
        after_calls(fresh::<V>(kinds), calls).len() == kinds.len(),
        after_calls(fresh::<V>(kinds), calls)[j] == fresh::<V>(kinds)[j],
{
    let s = after_calls(fresh::<V>(kinds), calls);
    lemma_after_calls(fresh::<V>(kinds), calls);
    assert forall|i: int| 0 <= i < kinds.len() && !kinds[i].optional implies #[trigger] s[i] is Some by {
        if !kinds[i].accumulating {
            assert(targeted(calls, i));
        } else if !targeted(calls, i) {
            assert(s[i] == fresh::<V>(kinds)[i]);
        }
    }
    assert(!missing(kinds, s));
    assert(s[j] == fresh::<V>(kinds)[j]);
}

/// After any sequence of setter calls that targets every required field
/// and never an optional field, finalize succeeds and the optional field is
/// absent.
pub proof fn lemma_unset_optional<V>(kinds: Seq<SlotKind>, calls: Seq<Call<V>>, j: int)
    requires
        0 <= j < kinds.len(),
        kinds[j].optional,
        !kinds[j].accumulating,
        forall|c: int| 0 <= c < calls.len() ==> 0 <= call_field(#[trigger] calls[c]) < kinds.len(),
        forall|c: int| 0 <= c < calls.len() ==> call_field(#[trigger] calls[c]) != j,
        forall|k: int| 0 <= k < kinds.len() && !(#[trigger] kinds[k]).optional && !kinds[k].accumulating ==> targeted(calls, k),
    ensures
        finalized(kinds, after_calls(fresh::<V>(kinds), calls)) matches Some(outs)
            && outs[j] == Out::<V>::Maybe(None),
{
    lemma_untouched_field(kinds, calls, j);
}

/// After any sequence of setter calls that targets every required field
/// and never an accumulating field, finalize succeeds and the accumulating
/// field is an empty sequence.
pub proof fn lemma_accumulating_default<V>(kinds: Seq<SlotKind>, calls: Seq<Call<V>>, j: int)
    requires
        0 <= j < kinds.len(),
        kinds[j].accumulating,
        forall|c: int| 0 <= c < calls.len() ==> 0 <= call_field(#[trigger] calls[c]) < kinds.len(),
        forall|c: int| 0 <= c < calls.len() ==> call_field(#[trigger] calls[c]) != j,
        forall|k: int| 0 <= k < kinds.len() && !(#[trigger] kinds[k]).optional && !kinds[k].accumulating ==> targeted(calls, k),
    ensures
        finalized(kinds, after_calls(fresh::<V>(kinds), calls)) matches Some(outs)
            && outs[j] == if kinds[j].optional {
                Out::Maybe(Some(Held::<V>::Many(Seq::empty())))
            } else {
                Out::Value(Held::<V>::Many(Seq::empty()))
            },
{
    lemma_untouched_field(kinds, calls, j);
}

/// Calling an accumulating field's item setter with `items` in turn leaves
/// exactly `items`, in call order, in its slot, and no other slot changes.
pub proof fn lemma_accumulation<V>(kinds: Seq<SlotKind>, j: int, items: Seq<V>)
    requires
        0 <= j < kinds.len(),
        kinds[j].accumulating,
    ensures
        after_pushes(fresh::<V>(kinds), j, items).len() == kinds.len(),
        after_pushes(fresh::<V>(kinds), j, items)[j] == Some(Held::Many(items)),
        forall|k: int| 0 <= k < kinds.len() && k != j ==> #[trigger] after_pushes(fresh::<V>(kinds), j, items)[k] == fresh::<V>(kinds)[k],
    decreases items.len(),
{
    if items.len() > 0 {
        lemma_accumulation(kinds, j, items.drop_last());
        assert(items.drop_last().push(items.last()) =~= items);
    } else {
        assert(items =~= Seq::<V>::empty());
    }
}

/// A builder for one target struct.
pub struct Builder<V> {
    kinds: Vec<SlotKind>,
    slots: Vec<Option<Content<V>>>,
}

impl<V> Builder<V> {
    pub closed spec fn kinds(&self) -> Seq<SlotKind> {
        self.kinds@
    }

    pub closed spec fn slots(&self) -> Seq<Option<Held<V>>> {
        Seq::new(self.slots@.len(), |i: int| match self.slots@[i] {
            Some(c) => Some(c@),
            None => None,
        })
    }

    /// Each slot holds what its kind allows.
    pub open spec fn wf(&self) -> bool {
        &&& self.slots().len() == self.kinds().len()
        &&& forall|i: int| 0 <= i < self.kinds().len() ==> {
            if self.kinds()[i].accumulating {
                !(#[trigger] self.slots()[i] matches Some(Held::One(_)))
            } else {
                !(self.slots()[i] matches Some(Held::Many(_)))
            }
        }
    }

    /// Creates the builder that `plan` describes, with every slot unset but
    /// the accumulating ones, which hold an empty sequence.
    pub fn new(plan: &BuilderPlan) -> (r: Self)
        ensures
            r.wf(),
            r.kinds().len() == plan.fields@.len(),
            forall|i: int| 0 <= i < plan.fields@.len() ==> r.kinds()[i] == kind_of(#[trigger] plan.fields@[i]),
            r.slots() == fresh::<V>(r.kinds()),
    {
        let mut kinds: Vec<SlotKind> = Vec::new();
        let mut slots: Vec<Option<Content<V>>> = Vec::new();
        let mut i: usize = 0;
        while i < plan.fields.len()
            invariant
                i <= plan.fields@.len(),
                kinds@.len() == i,
                slots@.len() == i,
                forall|k: int| 0 <= k < i ==> kinds@[k] == kind_of(#[trigger] plan.fields@[k]),
                forall|k: int| 0 <= k < i ==> (#[trigger] slots@[k] matches Some(c) ==> c@ == Held::<V>::Many(Seq::empty())),
                forall|k: int| 0 <= k < i ==> (slots@[k] is Some <==> #[trigger] kinds@[k].accumulating),
            decreases plan.fields@.len() - i,
        {
            let f = &plan.fields[i];
            let accumulating = f.item_setter.is_some();
            kinds.push(SlotKind { optional: f.optional, accumulating, whole_setter: !f.suppress_whole_setter });
            if accumulating {
                let empty: Vec<V> = Vec::new();
                slots.push(Some(Content::Items(empty)));
            } else {
                slots.push(None);
            }
            i = i + 1;
        }
        let r = Builder { kinds, slots };
        assert(r.slots() =~= fresh::<V>(r.kinds()));
        r
    }

    /// The whole-value setter of field `i`.
    pub fn set(&mut self, i: usize, value: Content<V>)
        requires
            old(self).wf(),
            i < old(self).kinds().len(),
            old(self).kinds()[i as int].whole_setter,
            (value is Items) == old(self).kinds()[i as int].accumulating,
        ensures
            final(self).wf(),
            final(self).kinds() == old(self).kinds(),
            final(self).slots() == stored(old(self).slots(), i as int, value@),
    {
        let _ = self.slots.remove(i);
        self.slots.insert(i, Some(value));
        assert(self.slots() =~= stored(old(self).slots(), i as int, value@));
    }

    /// The item setter of accumulating field `i`: appends `item`.
    pub fn push(&mut self, i: usize, item: V)
        requires
            old(self).wf(),
            i < old(self).kinds().len(),
            old(self).kinds()[i as int].accumulating,
        ensures
            final(self).wf(),
            final(self).kinds() == old(self).kinds(),
            final(self).slots() == appended(old(self).slots(), i as int, item),
    {
        let slot = self.slots.remove(i);
        let mut items: Vec<V> = match slot {
            Some(Content::Items(v)) => v,
            _ => Vec::new(),
        };
        items.push(item);
        self.slots.insert(i, Some(Content::Items(items)));
        assert(self.slots() =~= appended(old(self).slots(), i as int, item));
    }

    /// Finalize: takes each field's value in declaration order and yields
    /// them all, or stops at the first required field that was never set.
    /// The slots it took are left absent; those after a missing field are
    /// left as they were.
    pub fn build(&mut self) -> (r: Result<Vec<Built<V>>, ConstructionError>)
        requires
            old(self).wf(),
        ensures
            final(self).wf(),
            final(self).kinds() == old(self).kinds(),
            r is Err <==> finalized(old(self).kinds(), old(self).slots()) is None,
            r is Err <==> first_missing(old(self).kinds(), old(self).slots()) is Some,
            first_missing(old(self).kinds(), old(self).slots()) matches Some(k)
                ==> final(self).slots() == taken(old(self).slots(), k + 1),
            first_missing(old(self).kinds(), old(self).slots()) is None
                ==> final(self).slots() == taken(old(self).slots(), old(self).kinds().len() as int),
            r matches Ok(v) ==> finalized(old(self).kinds(), old(self).slots()) matches Some(outs)
                && v@.len() == outs.len()
                && forall|i: int| 0 <= i < outs.len() ==> (#[trigger] v@[i])@ == outs[i],
    {
        let ghost kinds = self.kinds();
        let ghost slots = self.slots();
        let mut out: Vec<Built<V>> = Vec::new();
        let mut i: usize = 0;
        let n = self.kinds.len();
        while i < n
            invariant
                kinds == old(self).kinds(),
                slots == old(self).slots(),
                kinds == self.kinds(),
                n == kinds.len(),
                slots.len() == n,
                old(self).wf(),
                self.wf(),
                i <= n,
                self.slots() == taken(slots, i as int),
                out@.len() == i,
                first_missing(kinds, slots) == first_missing_from(kinds, slots, i as int),
                forall|k: int| 0 <= k < i ==> !kinds[k].optional ==> #[trigger] slots[k] is Some,
                forall|k: int| 0 <= k < i ==> (#[trigger] out@[k])@ == if kinds[k].optional { Out::Maybe(slots[k]) } else { Out::Value(slots[k]->Some_0) },
            decreases n - i,
        {
            let ghost pre = self.slots();
            let ghost before = self.slots@;
            assert(pre[i as int] == slots[i as int]);
            assert(pre[i as int] == match before[i as int] { Some(c) => Some(c@), None => None });
            let slot = self.slots.remove(i);
            self.slots.insert(i, None);
            assert(self.slots@ =~= before.update(i as int, None));
            assert(slots[i as int] == match slot { Some(c) => Some(c@), None => None });
            assert forall|k: int| 0 <= k < n implies #[trigger] self.slots()[k] == taken(slots, i + 1)[k] by {
                if k != i {
                    assert(self.slots@[k] == before[k]);
                    assert(pre[k] == taken(slots, i as int)[k]);
                }
            }
            assert(self.slots() =~= taken(slots, i + 1));
            if self.kinds[i].optional {
                out.push(Built::Maybe(slot));
            } else {
                match slot {
                    Some(c) => out.push(Built::Value(c)),
                    None => {
                        assert(missing(kinds, slots));
                        return Err(ConstructionError);
                    },
                }
            }
            i = i + 1;
        }
        assert(!missing(kinds, slots));
        Ok(out)
    }
}

} // verus!
