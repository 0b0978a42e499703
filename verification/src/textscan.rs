//! Substring containment over character sequences, used to test a poll
//! response body against the known status markers.

use vstd::prelude::*;

verus! {

/// The pattern `p` occurs in `t` starting at index `i`.
pub open spec fn occurs_at(t: Seq<char>, p: Seq<char>, i: int) -> bool {
    &&& 0 <= i
    &&& i + p.len() <= t.len()
    &&& t.subrange(i, i + p.len() as int) == p
}

/// The pattern `p` occurs somewhere in `t`.
pub open spec fn seq_contains(t: Seq<char>, p: Seq<char>) -> bool {
    exists|i: int| occurs_at(t, p, i)
}

/// `t` begins with the prefix `p`.
pub open spec fn starts_with(t: Seq<char>, p: Seq<char>) -> bool {
    p.len() <= t.len() && t.subrange(0, p.len() as int) == p
}

pub(crate) fn match_at(t: &str, p: &str, i: usize, t_len: usize, p_len: usize) -> (b: bool)
    requires
        t_len == t@.len(),
        p_len == p@.len(),
        i + p_len <= t_len,
    ensures
        b == occurs_at(t@, p@, i as int),
{
    let mut j: usize = 0;
    while j < p_len
        invariant
            j <= p_len,
            t_len == t@.len(),
            p_len == p@.len(),
            i + p_len <= t_len,
            forall|k: int| 0 <= k < j ==> t@[i + k] == p@[k],
        decreases p_len - j,
    {
        if t.get_char(i + j) != p.get_char(j) {
            proof {
                assert(t@.subrange(i as int, i + p@.len() as int)[j as int] == t@[i + j]);
            }
            return false;
        }
        j += 1;
    }
    proof {
        assert(t@.subrange(i as int, i + p@.len() as int) =~= p@);
    }
    true
}

/// Whether the text contains the pattern as a contiguous substring.
pub fn str_contains(t: &str, p: &str) -> (b: bool)
    ensures
        b == seq_contains(t@, p@),
{
    let t_len = t.unicode_len();
    let p_len = p.unicode_len();
    if p_len > t_len {
        proof {
            assert(forall|i: int| !occurs_at(t@, p@, i));
        }
        return false;
    }
    let limit = t_len - p_len;
    let mut i: usize = 0;
    loop
        invariant
            t_len == t@.len(),
            p_len == p@.len(),
            p_len <= t_len,
            limit == t_len - p_len,
            i <= limit,
            forall|k: int| 0 <= k < i ==> !occurs_at(t@, p@, k),
        decreases limit - i,
    {
        if match_at(t, p, i, t_len, p_len) {
            return true;
        }
        if i == limit {
            proof {
                assert(forall|k: int| occurs_at(t@, p@, k) ==> 0 <= k <= t@.len() - p@.len());
            }
            return false;
        }
        i += 1;
    }
}

/// Whether the text begins with the given prefix.
pub fn str_starts_with(t: &str, p: &str) -> (b: bool)
    ensures
        b == starts_with(t@, p@),
{
    let t_len = t.unicode_len();
    let p_len = p.unicode_len();
    if p_len > t_len {
        return false;
    }
    match_at(t, p, 0, t_len, p_len)
}

} // verus!
