//! Batch forms of the scalar operations, dispatched across a
//! data-parallel worker pool.  Results are positionally aligned with
//! the inputs, exactly as if each element had been handled alone.

use vstd::prelude::*;
use vstd::utf8::encode_utf8;
use rayon::iter::IntoParallelRefIterator;
use rayon::iter::ParallelIterator;
use crate::accession::{decode_accession, decode_result_matches, DecodedAccession};
use crate::fingerprint::{fnv1a, fnv1a_hash};

verus! {

/// Relies on rayon's par_iter, map and collect into a Vec: the output
/// has one element per input, in input order, each the closure's result
/// on the corresponding input.
#[verifier::external_body]
fn par_decode_accessions(accessions: &Vec<String>) -> (r: Vec<Option<DecodedAccession>>)
    ensures
        r@.len() == accessions@.len(),
        forall|i: int|
            0 <= i < accessions@.len() ==> decode_result_matches(
                encode_utf8(accessions@[i]@),
                #[trigger] r@[i],
            ),
{
    accessions.par_iter().map(|acc| decode_accession(acc.as_str())).collect()
}

/// Decode a batch of accession identifiers.  Each position of the
/// result is what decoding that input alone returns: the decoded triple
/// when the input matches `[0-9]{10}-[0-9]{2}-[0-9]{6}`, and `None`
/// otherwise.  A malformed input yields `None` at its own position and
/// touches no other position.
pub fn decode_accession_batch(accessions: Vec<String>) -> (r: Vec<Option<DecodedAccession>>)
    ensures
        r@.len() == accessions@.len(),
        forall|i: int|
            0 <= i < accessions@.len() ==> decode_result_matches(
                encode_utf8(accessions@[i]@),
                #[trigger] r@[i],
            ),
{
    par_decode_accessions(&accessions)
}

/// Relies on rayon's par_iter, map and collect into a Vec: the output
/// has one element per input, in input order, each the closure's result
/// on the corresponding input.
#[verifier::external_body]
fn par_hash_contents(contents: &Vec<String>) -> (r: Vec<u64>)
    ensures
        r@.len() == contents@.len(),
        forall|i: int|
            0 <= i < contents@.len() ==> #[trigger] r@[i] == fnv1a(encode_utf8(contents@[i]@)),
{
    contents.par_iter().map(|s| fnv1a_hash(s.as_str().as_bytes())).collect()
}

/// Fingerprint a batch of contents.  Each position of the result is the
/// FNV-1a 64-bit hash of the UTF-8 byte encoding of the input at that
/// position, bit-identical to the scalar hash of that input.
pub fn hash_content_batch(contents: Vec<String>) -> (r: Vec<u64>)
    ensures
        r@.len() == contents@.len(),
        forall|i: int|
            0 <= i < contents@.len() ==> #[trigger] r@[i] == fnv1a(encode_utf8(contents@[i]@)),
{
    par_hash_contents(&contents)
}

} // verus!
