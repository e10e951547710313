//! Classification of sink failures into permanent and transient outcomes.
//!
//! A flush that fails permanently (the sink rejected the data itself) must
//! not be retried: every row of the batch is terminally rejected. Any other
//! failure is treated as transient and the rows are negatively acknowledged
//! so the queue redelivers them.

use vstd::prelude::*;

verus! {

/// The needle occurs in the haystack starting at character position `i`.
pub open spec fn occurs_at(h: Seq<char>, n: Seq<char>, i: int) -> bool {
    0 <= i && i + n.len() <= h.len() && h.subrange(i, i + n.len() as int) == n
}

/// The needle occurs somewhere in the haystack.
pub open spec fn has_substring(h: Seq<char>, n: Seq<char>) -> bool {
    exists|i: int| occurs_at(h, n, i)
}

/// A sink failure detail marks the batch as permanently rejected when it
/// carries one of the client-error status codes or the sink's parse error.
pub open spec fn spec_is_permanent(s: Seq<char>) -> bool {
    ||| has_substring(s, "400"@)
    ||| has_substring(s, "404"@)
    ||| has_substring(s, "422"@)
    ||| has_substring(s, "444"@)
    ||| has_substring(s, "cannot parse"@)
}

/// The needle matches the haystack at position `i`.
fn matches_at(h: &str, n: &str, i: usize) -> (r: bool)
    requires
        i + n@.len() <= h@.len(),
        h@.len() <= usize::MAX,
    ensures
        r == occurs_at(h@, n@, i as int),
{
    let nlen = n.unicode_len();
    let mut j: usize = 0;
    while j < nlen
        invariant
            0 <= j <= nlen,
            nlen == n@.len(),
            i + nlen <= h@.len(),
            h@.len() <= usize::MAX,
            forall|k: int| 0 <= k < j ==> h@[i + k] == n@[k],
        decreases nlen - j,
    {
        if h.get_char(i + j) != n.get_char(j) {
            assert(h@.subrange(i as int, i + nlen as int)[j as int] != n@[j as int]);
            return false;
        }
        j += 1;
    }
    assert(h@.subrange(i as int, i + nlen as int) =~= n@);
    true
}

/// Substring search: whether `n` occurs anywhere in `h`.
pub fn contains_substring(h: &str, n: &str) -> (r: bool)
    ensures
        r == has_substring(h@, n@),
{
    let hlen = h.unicode_len();
    let nlen = n.unicode_len();
    if nlen == 0 {
        assert(occurs_at(h@, n@, 0)) by {
            assert(h@.subrange(0, 0) =~= n@);
        }
        return true;
    }
    if nlen > hlen {
        assert(forall|i: int| !occurs_at(h@, n@, i));
        return false;
    }
    let end = hlen - nlen;
    let mut i: usize = 0;
    while i <= end
        invariant
            hlen == h@.len(),
            nlen == n@.len(),
            1 <= nlen <= hlen,
            end == hlen - nlen,
            0 <= i <= end + 1,
            forall|k: int| 0 <= k < i ==> !occurs_at(h@, n@, k),
        decreases end + 1 - i,
    {
        if matches_at(h, n, i) {
            return true;
        }
        i += 1;
    }
    assert(forall|k: int| !occurs_at(h@, n@, k));
    false
}

/// Whether a sink failure's detail text indicates a permanent error, one
/// that redelivering the same rows cannot fix.
pub fn is_permanent_ch_error(s: &str) -> (r: bool)
    ensures
        r == spec_is_permanent(s@),
{
    contains_substring(s, "400") || contains_substring(s, "404") || contains_substring(s, "422")
        || contains_substring(s, "cannot parse") || contains_substring(s, "444")
}

} // verus!
