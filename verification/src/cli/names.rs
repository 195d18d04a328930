//! Names stored in fixed-size byte fields, padded with zero bytes, and the
//! symbols they are looked up by.
use vstd::prelude::*;

verus! {

/// The bytes without their leading zero bytes.
pub open spec fn trim_start(s: Seq<u8>) -> Seq<u8>
    decreases s.len(),
{
    if s.len() > 0 && s[0] == 0 {
        trim_start(s.drop_first())
    } else {
        s
    }
}

/// The bytes without their trailing zero bytes.
pub open spec fn trim_end(s: Seq<u8>) -> Seq<u8>
    decreases s.len(),
{
    if s.len() > 0 && s.last() == 0 {
        trim_end(s.drop_last())
    } else {
        s
    }
}

/// A stored name without its zero padding on either side.
pub open spec fn trimmed(s: Seq<u8>) -> Seq<u8> {
    trim_end(trim_start(s))
}

proof fn lemma_trim_start_skip(s: Seq<u8>, i: int)
    requires
        0 <= i <= s.len(),
        forall|k: int| 0 <= k < i ==> s[k] == 0,
    ensures
        trim_start(s) == trim_start(s.subrange(i, s.len() as int)),
    decreases i,
{
    if i > 0 {
        assert(s.drop_first().subrange(i - 1, s.drop_first().len() as int) =~= s.subrange(i, s.len() as int));
        lemma_trim_start_skip(s.drop_first(), i - 1);
    } else {
        assert(s.subrange(0, s.len() as int) =~= s);
    }
}

proof fn lemma_trim_end_skip(s: Seq<u8>, j: int)
    requires
        0 <= j <= s.len(),
        forall|k: int| j <= k < s.len() ==> s[k] == 0,
    ensures
        trim_end(s) == trim_end(s.subrange(0, j)),
    decreases s.len() - j,
{
    if j < s.len() {
        assert(s.drop_last().subrange(0, j) =~= s.subrange(0, j));
        lemma_trim_end_skip(s.drop_last(), j);
    } else {
        assert(s.subrange(0, j) =~= s);
    }
}

/// Whether a stored name, once its zero padding is removed, is the symbol.
pub fn name_matches(name: &[u8], symbol: &[u8]) -> (r: bool)
    ensures
        r == (trimmed(name@) == symbol@),
{
    let n = name.len();
    let mut start: usize = 0;
    while start < n && name[start] == 0
        invariant
            n == name@.len(),
            start <= n,
            forall|k: int| 0 <= k < start ==> name@[k] == 0,
        decreases n - start,
    {
        start = start + 1;
    }
    let mut end: usize = n;
    while end > start && name[end - 1] == 0
        invariant
            n == name@.len(),
            start <= end <= n,
            forall|k: int| end <= k < n ==> name@[k] == 0,
        decreases end - start,
    {
        end = end - 1;
    }
    let ghost rest = name@.subrange(start as int, n as int);
    proof {
        lemma_trim_start_skip(name@, start as int);
        // after the leading zeros the first byte is not zero, or nothing is left
        assert(trim_start(rest) == rest);
        assert forall|k: int| end - start <= k < rest.len() implies rest[k] == 0 by {
            assert(rest[k] == name@[start + k]);
        }
        lemma_trim_end_skip(rest, end - start);
        assert(rest.subrange(0, end - start) =~= name@.subrange(start as int, end as int));
        let kept = name@.subrange(start as int, end as int);
        if kept.len() > 0 {
            assert(kept.last() == name@[end - 1]);
        }
        assert(trim_end(kept) == kept);
        assert(trimmed(name@) == kept);
    }
    if end - start != symbol.len() {
        proof {
            assert(name@.subrange(start as int, end as int).len() != symbol@.len());
        }
        return false;
    }
    let mut i: usize = 0;
    while i < symbol.len()
        invariant
            start <= end <= n,
            n == name@.len(),
            end - start == symbol@.len(),
            trimmed(name@) == name@.subrange(start as int, end as int),
            i <= symbol@.len(),
            forall|k: int| 0 <= k < i ==> name@[start + k] == symbol@[k],
        decreases symbol@.len() - i,
    {
        if name[start + i] != symbol[i] {
            proof {
                assert(name@.subrange(start as int, end as int)[i as int] != symbol@[i as int]);
            }
            return false;
        }
        i = i + 1;
    }
    proof {
        assert(name@.subrange(start as int, end as int) =~= symbol@);
    }
    true
}

} // verus!
