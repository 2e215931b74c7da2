//! The ordering verifier: variant names must be declared in
//! case-insensitive lexicographic order.
use vstd::prelude::*;

verus! {

/// What `str::to_lowercase` makes of a string.
pub uninterp spec fn lower_of(s: Seq<char>) -> Seq<char>;

/// Relies on `str::to_lowercase`: its result depends on the characters alone.
#[verifier::external_body]
fn lowercase(s: &String) -> (r: String)
    ensures
        r@ == lower_of(s@),
{
    s.to_lowercase()
}

/// `a` comes strictly before `b` when compared from position `i` on, by
/// character code.
pub open spec fn lex_lt_from(a: Seq<char>, b: Seq<char>, i: int) -> bool
    decreases b.len() - i,
{
    if i < 0 || i >= b.len() {
        false
    } else if i >= a.len() {
        true
    } else if a[i] != b[i] {
        (a[i] as u32) < (b[i] as u32)
    } else {
        lex_lt_from(a, b, i + 1)
    }
}

/// Strict lexicographic order by character code, the order of `str`.
pub open spec fn lex_lt(a: Seq<char>, b: Seq<char>) -> bool {
    lex_lt_from(a, b, 0)
}

/// Compares two strings lexicographically by character code.
pub fn lex_less(a: &String, b: &String) -> (r: bool)
    ensures
        r == lex_lt(a@, b@),
{
    let sa = a.as_str();
    let sb = b.as_str();
    let na = sa.unicode_len();
    let nb = sb.unicode_len();
    let mut i: usize = 0;
    while i < nb
        invariant
            na == a@.len(),
            nb == b@.len(),
            sa@ == a@,
            sb@ == b@,
            i <= nb,
            lex_lt(a@, b@) == lex_lt_from(a@, b@, i as int),
        decreases nb - i,
    {
        if i >= na {
            return true;
        }
        let ca = sa.get_char(i);
        let cb = sb.get_char(i);
        if ca != cb {
            return (ca as u32) < (cb as u32);
        }
        i = i + 1;
    }
    false
}

/// The first out-of-order variant, and the first variant in the whole list
/// that it should sort before.
#[derive(Debug, PartialEq, Eq, Structural, Clone, Copy)]
pub struct OrderViolation {
    /// Index of the offending variant.
    pub index: usize,
    /// Index of the first variant greater than the offending one.
    pub before: usize,
}

/// Variant `i` sorts strictly before the one declared just ahead of it.
pub open spec fn descends_at(keys: Seq<Seq<char>>, i: int) -> bool {
    1 <= i < keys.len() && lex_lt(keys[i], keys[i - 1])
}

/// The keys are in non-decreasing order.
pub open spec fn sorted_keys(keys: Seq<Seq<char>>) -> bool {
    forall|i: int| 1 <= i < keys.len() ==> !descends_at(keys, i)
}

/// `v` is the violation reported for `keys`: the first descent, located at
/// the later variant, and the first key anywhere that is greater than it.
pub open spec fn reported(keys: Seq<Seq<char>>, v: OrderViolation) -> bool {
    &&& descends_at(keys, v.index as int)
    &&& forall|k: int| 1 <= k < v.index ==> !descends_at(keys, k)
    &&& v.before < keys.len()
    &&& lex_lt(keys[v.index as int], keys[v.before as int])
    &&& forall|k: int| 0 <= k < v.before ==> !lex_lt(keys[v.index as int], keys[k])
}

/// The views of a list of strings.
pub open spec fn views(v: Seq<String>) -> Seq<Seq<char>> {
    v.map_values(|s: String| s@)
}

/// The case-folded names that the order is checked on.
pub open spec fn lowered(names: Seq<String>) -> Seq<Seq<char>> {
    names.map_values(|s: String| lower_of(s@))
}

/// Checks already case-folded keys: `None` when they are sorted, else the
/// first violation.
pub fn check_keys(keys: &Vec<String>) -> (r: Option<OrderViolation>)
    ensures
        r is None <==> sorted_keys(views(keys@)),
        r matches Some(v) ==> reported(views(keys@), v),
{
    let ghost ks = views(keys@);
    assert forall|k: int| 0 <= k < keys@.len() implies ks[k] == (#[trigger] keys@[k])@ by {}
    let mut i: usize = 1;
    while i < keys.len()
        invariant
            ks == views(keys@),
            ks.len() == keys@.len(),
            forall|k: int| 0 <= k < keys@.len() ==> ks[k] == (#[trigger] keys@[k])@,
            1 <= i,
            keys@.len() == 0 || i <= keys@.len(),
            forall|k: int| 1 <= k < i ==> !descends_at(ks, k),
        decreases keys@.len() - i,
    {
        if lex_less(&keys[i], &keys[i - 1]) {
            assert(descends_at(ks, i as int));
            let mut j: usize = 0;
            while j < i - 1
                invariant
                    ks == views(keys@),
                    ks.len() == keys@.len(),
                    forall|k: int| 0 <= k < keys@.len() ==> ks[k] == (#[trigger] keys@[k])@,
                    j <= i - 1,
                    i < keys@.len(),
                    descends_at(ks, i as int),
                    forall|k: int| 1 <= k < i ==> !descends_at(ks, k),
                    forall|k: int| 0 <= k < j ==> !lex_lt(ks[i as int], ks[k]),
                decreases i - 1 - j,
            {
                if lex_less(&keys[i], &keys[j]) {
                    return Some(OrderViolation { index: i, before: j });
                }
                j = j + 1;
            }
            return Some(OrderViolation { index: i, before: i - 1 });
        }
        i = i + 1;
    }
    None
}

/// Checks that variant names are declared in case-insensitive lexicographic
/// order: `None` when they are, else the first violation.
pub fn check_order(names: &Vec<String>) -> (r: Option<OrderViolation>)
    ensures
        r is None <==> sorted_keys(lowered(names@)),
        r matches Some(v) ==> reported(lowered(names@), v),
{
    let mut keys: Vec<String> = Vec::new();
    let mut i: usize = 0;
    while i < names.len()
        invariant
            i <= names@.len(),
            keys@.len() == i,
            forall|k: int| 0 <= k < i ==> (#[trigger] keys@[k])@ == lower_of(names@[k]@),
        decreases names@.len() - i,
    {
        keys.push(lowercase(&names[i]));
        i = i + 1;
    }
    assert(views(keys@) =~= lowered(names@));
    check_keys(&keys)
}

/// Names that case-fold alike are judged alike: whether the list is
/// accepted, and which violation is reported, depends on the case-folded
/// names alone.
pub proof fn lemma_case_insensitive(a: Seq<String>, b: Seq<String>)
    requires
        a.len() == b.len(),
        forall|i: int| 0 <= i < a.len() ==> lower_of((#[trigger] a[i])@) == lower_of(b[i]@),
    ensures
        sorted_keys(lowered(a)) <==> sorted_keys(lowered(b)),
        forall|v: OrderViolation| reported(lowered(a), v) <==> reported(lowered(b), v),
{
    assert(lowered(a) =~= lowered(b));
}

impl OrderViolation {
    /// The diagnostic text: the offending name, then the name it should
    /// sort before.
    pub fn message(&self, names: &Vec<String>) -> (r: String)
        requires
            self.index < names@.len(),
            self.before < names@.len(),
        ensures
            r@ == names@[self.index as int]@ + " should sort before "@ + names@[self.before as int]@,
    {
        let mut r = names[self.index].clone();
        r.append(" should sort before ");
        r.append(names[self.before].as_str());
        r
    }
}

} // verus!
