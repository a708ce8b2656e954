//! Plain byte-wise substring search, shared by the boundary scanner and
//! the tag extractor.

use vstd::prelude::*;

verus! {

/// The needle `n` occurs in the haystack `h` at offset `i`.
pub open spec fn matches_at(h: Seq<u8>, n: Seq<u8>, i: int) -> bool {
    &&& 0 <= i
    &&& i + n.len() <= h.len()
    &&& h.subrange(i, i + n.len()) == n
}

/// Offset of the first occurrence of `n` in `h` at or after `from`, if any.
pub open spec fn find_from(h: Seq<u8>, n: Seq<u8>, from: int) -> Option<int>
    decreases h.len() - from + 1,
        when 0 <= from
{
    if from + n.len() > h.len() {
        None
    } else if h.subrange(from, from + n.len()) == n {
        Some(from)
    } else {
        find_from(h, n, from + 1)
    }
}

/// A found offset is the first match at or after `from`.
pub proof fn lemma_find_from_some(h: Seq<u8>, n: Seq<u8>, from: int)
    requires
        0 <= from,
        find_from(h, n, from) is Some,
    ensures
        from <= find_from(h, n, from)->Some_0,
        matches_at(h, n, find_from(h, n, from)->Some_0),
        forall|j: int| from <= j < find_from(h, n, from)->Some_0 ==> !matches_at(h, n, j),
    decreases h.len() - from + 1,
{
    if from + n.len() > h.len() {
    } else if h.subrange(from, from + n.len()) == n {
    } else {
        lemma_find_from_some(h, n, from + 1);
    }
}

/// Whether `needle` occurs in `haystack` at offset `i`.
fn window_matches(haystack: &[u8], needle: &[u8], i: usize) -> (r: bool)
    requires
        i + needle@.len() <= haystack@.len(),
    ensures
        r <==> matches_at(haystack@, needle@, i as int),
{
    let hlen = haystack.len();
    let mut j: usize = 0;
    while j < needle.len()
        invariant
            i + needle@.len() <= haystack@.len(),
            hlen == haystack@.len(),
            j <= needle@.len(),
            forall|k: int| 0 <= k < j ==> haystack@[i + k] == needle@[k],
        decreases needle@.len() - j,
    {
        if haystack[i + j] != needle[j] {
            proof {
                assert(haystack@.subrange(i as int, i + needle@.len())[j as int]
                    == haystack@[i + j]);
            }
            return false;
        }
        j = j + 1;
    }
    proof {
        assert(haystack@.subrange(i as int, i + needle@.len()) =~= needle@);
    }
    true
}

/// Offset of the first occurrence of `needle` in `haystack` at or after
/// `from`, or `None` when there is none.
pub fn find_subsequence_from(haystack: &[u8], needle: &[u8], from: usize) -> (r: Option<usize>)
    ensures
        match r {
            Some(i) => find_from(haystack@, needle@, from as int) == Some(i as int),
            None => find_from(haystack@, needle@, from as int) is None,
        },
{
    let h = haystack.len();
    let n = needle.len();
    if n > h || from > h - n {
        proof {
            assert(from + needle@.len() > haystack@.len());
        }
        return None;
    }
    if n == 0 {
        proof {
            assert(haystack@.subrange(from as int, from as int) =~= needle@);
        }
        return Some(from);
    }
    let mut i = from;
    while i <= h - n
        invariant
            from <= i,
            1 <= n == needle@.len(),
            n <= h == haystack@.len(),
            i <= h - n + 1,
            find_from(haystack@, needle@, from as int) == find_from(
                haystack@,
                needle@,
                i as int,
            ),
        decreases h - i,
    {
        if window_matches(haystack, needle, i) {
            return Some(i);
        }
        proof {
            assert(haystack@.subrange(i as int, i + needle@.len()) != needle@);
        }
        i = i + 1;
    }
    proof {
        assert(i + needle@.len() > haystack@.len());
    }
    None
}

/// Offset of the first occurrence of `needle` in `haystack`, or `None`
/// when `needle` does not occur.
pub fn find_subsequence(haystack: &[u8], needle: &[u8]) -> (r: Option<usize>)
    ensures
        match r {
            Some(i) => find_from(haystack@, needle@, 0) == Some(i as int),
            None => find_from(haystack@, needle@, 0) is None,
        },
{
    find_subsequence_from(haystack, needle, 0)
}

} // verus!
