//! Line counting: the number of newline bytes in a buffer, plus one,
//! so that an unterminated final line still counts.

use vstd::prelude::*;
use rayon::iter::IntoParallelRefIterator;
use rayon::iter::ParallelIterator;

verus! {

/// The number of newline bytes (10 is `\n`) in the sequence.
pub open spec fn count_newlines(s: Seq<u8>) -> int
    decreases s.len(),
{
    if s.len() == 0 {
        0
    } else {
        count_newlines(s.drop_last()) + if s.last() == 10 {
            1int
        } else {
            0int
        }
    }
}

/// There are never more newlines than bytes.
pub proof fn lemma_count_newlines_le_len(s: Seq<u8>)
    ensures
        0 <= count_newlines(s) <= s.len(),
    decreases s.len(),
{
    if s.len() > 0 {
        lemma_count_newlines_le_len(s.drop_last());
    }
}

/// Whether the byte is the newline byte `\n`.
fn is_newline(b: u8) -> (r: bool)
    ensures
        r <==> b == 10,
{
    b == 10
}

/// Relies on rayon's par_iter, filter and count over a slice: counting
/// the elements that satisfy a predicate in parallel gives the same
/// number as counting them one by one.
#[verifier::external_body]
fn par_count_newlines(data: &[u8]) -> (r: usize)
    ensures
        r == count_newlines(data@),
{
    data.par_iter().filter(|b| is_newline(**b)).count()
}

/// Count the lines in the buffer: the number of newline bytes plus one.
/// An empty buffer holds one (empty, unterminated) line.
pub fn count_lines(data: &[u8]) -> (r: usize)
    requires
        data@.len() < usize::MAX,
    ensures
        r == count_newlines(data@) + 1,
{
    proof {
        lemma_count_newlines_le_len(data@);
    }
    let newlines = par_count_newlines(data);
    newlines + 1
}

} // verus!
