//! Facts about sequences shared by the order bookkeeping.
use vstd::prelude::*;

verus! {

/// Index of the first element at or after `start` that satisfies `p`, or
/// `-1` when there is none.
pub open spec fn first_index_from<T>(s: Seq<T>, p: spec_fn(T) -> bool, start: int) -> int
    decreases s.len() - start,
{
    if start < 0 || start >= s.len() {
        -1
    } else if p(s[start]) {
        start
    } else {
        first_index_from(s, p, start + 1)
    }
}

/// Index of the first element that satisfies `p`, or `-1` when there is none.
pub open spec fn first_index<T>(s: Seq<T>, p: spec_fn(T) -> bool) -> int {
    first_index_from(s, p, 0)
}

/// The first satisfying element is the one found by a scan from the front.
pub proof fn lemma_first_index_found<T>(s: Seq<T>, p: spec_fn(T) -> bool, i: int)
    requires
        0 <= i < s.len(),
        p(s[i]),
        forall|k: int| 0 <= k < i ==> !p(#[trigger] s[k]),
    ensures
        first_index(s, p) == i,
{
    lemma_first_index_from_found(s, p, 0, i);
}

proof fn lemma_first_index_from_found<T>(s: Seq<T>, p: spec_fn(T) -> bool, start: int, i: int)
    requires
        0 <= start <= i < s.len(),
        p(s[i]),
        forall|k: int| start <= k < i ==> !p(#[trigger] s[k]),
    ensures
        first_index_from(s, p, start) == i,
    decreases i - start,
{
    if start < i {
        lemma_first_index_from_found(s, p, start + 1, i);
    }
}

/// No element satisfies `p`: there is no first one.
pub proof fn lemma_first_index_none<T>(s: Seq<T>, p: spec_fn(T) -> bool)
    requires
        forall|k: int| 0 <= k < s.len() ==> !p(#[trigger] s[k]),
    ensures
        first_index(s, p) == -1,
{
    lemma_first_index_from_none(s, p, 0);
}

proof fn lemma_first_index_from_none<T>(s: Seq<T>, p: spec_fn(T) -> bool, start: int)
    requires
        0 <= start,
        forall|k: int| start <= k < s.len() ==> !p(#[trigger] s[k]),
    ensures
        first_index_from(s, p, start) == -1,
    decreases s.len() - start,
{
    if start < s.len() {
        lemma_first_index_from_none(s, p, start + 1);
    }
}

/// What the first index is: the index of a satisfying element with none
/// before it, or `-1` when no element satisfies `p`.
pub proof fn lemma_first_index_props<T>(s: Seq<T>, p: spec_fn(T) -> bool)
    ensures
        -1 <= first_index(s, p) < s.len(),
        first_index(s, p) >= 0 ==> p(s[first_index(s, p)]),
        first_index(s, p) >= 0 ==> forall|k: int|
            0 <= k < first_index(s, p) ==> !p(#[trigger] s[k]),
        first_index(s, p) == -1 ==> forall|k: int| 0 <= k < s.len() ==> !p(#[trigger] s[k]),
{
    lemma_first_index_from_props(s, p, 0);
}

proof fn lemma_first_index_from_props<T>(s: Seq<T>, p: spec_fn(T) -> bool, start: int)
    requires
        0 <= start,
    ensures
        -1 <= first_index_from(s, p, start) < s.len(),
        first_index_from(s, p, start) >= 0 ==> start <= first_index_from(s, p, start)
            && p(s[first_index_from(s, p, start)]),
        first_index_from(s, p, start) >= 0 ==> forall|k: int|
            start <= k < first_index_from(s, p, start) ==> !p(#[trigger] s[k]),
        first_index_from(s, p, start) == -1 ==> forall|k: int|
            start <= k < s.len() ==> !p(#[trigger] s[k]),
    decreases s.len() - start,
{
    if start < s.len() && !p(s[start]) {
        lemma_first_index_from_props(s, p, start + 1);
    }
}

/// A prefix of length `i + 1` is the prefix of length `i` followed by the
/// element at `i`.
pub proof fn lemma_take_succ<T>(s: Seq<T>, i: int)
    requires
        0 <= i < s.len(),
    ensures
        s.take(i + 1).drop_last() == s.take(i),
        s.take(i + 1).last() == s[i],
        s.take(i + 1).len() == i + 1,
{
    assert(s.take(i + 1).drop_last() =~= s.take(i));
}

/// The whole sequence is its longest prefix.
pub proof fn lemma_take_all<T>(s: Seq<T>)
    ensures
        s.take(s.len() as int) == s,
{
    assert(s.take(s.len() as int) =~= s);
}

/// Removing an element adds nothing.
pub proof fn lemma_remove_keeps_only<T>(s: Seq<T>, i: int)
    requires
        0 <= i < s.len(),
    ensures
        forall|x: T| #[trigger] s.remove(i).contains(x) ==> s.contains(x),
{
    assert forall|x: T| #[trigger] s.remove(i).contains(x) implies s.contains(x) by {
        let k = choose|k: int| 0 <= k < s.remove(i).len() && s.remove(i)[k] == x;
        if k < i {
            assert(s[k] == x);
        } else {
            assert(s[k + 1] == x);
        }
    }
}

/// A copy of a vector of copyable elements.
pub fn copy_vec<T: Copy>(v: &Vec<T>) -> (r: Vec<T>)
    ensures
        r@ == v@,
{
    let mut r: Vec<T> = Vec::new();
    for k in 0..v.len()
        invariant
            r@ == v@.take(k as int),
    {
        r.push(v[k]);
        proof {
            assert(r@ =~= v@.take(k + 1));
        }
    }
    proof {
        lemma_take_all(v@);
    }
    r
}

} // verus!
