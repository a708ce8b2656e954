//! Document boundary discovery: locate every `<DOCUMENT>`...`</DOCUMENT>`
//! span inside a submission buffer.

use vstd::prelude::*;
use crate::search::{find_from, find_subsequence_from, lemma_find_from_some, matches_at};

verus! {

/// The opening marker `<DOCUMENT>`, as bytes.
pub open spec fn start_tag() -> Seq<u8> {
    seq![60u8, 68u8, 79u8, 67u8, 85u8, 77u8, 69u8, 78u8, 84u8, 62u8]
}

/// The closing marker `</DOCUMENT>`, as bytes.
pub open spec fn end_tag() -> Seq<u8> {
    seq![60u8, 47u8, 68u8, 79u8, 67u8, 85u8, 77u8, 69u8, 78u8, 84u8, 62u8]
}

/// The opening marker `<DOCUMENT>` as a byte array.
fn start_tag_bytes() -> (r: [u8; 10])
    ensures
        r@ == start_tag(),
{
    let r: [u8; 10] = [60u8, 68u8, 79u8, 67u8, 85u8, 77u8, 69u8, 78u8, 84u8, 62u8];
    proof {
        assert(r@ =~= start_tag());
    }
    r
}

/// The closing marker `</DOCUMENT>` as a byte array.
fn end_tag_bytes() -> (r: [u8; 11])
    ensures
        r@ == end_tag(),
{
    let r: [u8; 11] = [60u8, 47u8, 68u8, 79u8, 67u8, 85u8, 77u8, 69u8, 78u8, 84u8, 62u8];
    proof {
        assert(r@ =~= end_tag());
    }
    r
}

/// The spans of all documents at or after `pos`: each span starts at the
/// first `<DOCUMENT>` found, ends one past the first `</DOCUMENT>` after
/// that, and the scan resumes past the span.  A `<DOCUMENT>` with no
/// closing marker after it is discarded and ends the scan.
pub open spec fn spec_boundaries_from(data: Seq<u8>, pos: int) -> Seq<(int, int)>
    decreases data.len() - pos + 1,
        when 0 <= pos
        via spec_boundaries_from_decreases
{
    match find_from(data, start_tag(), pos) {
        None => Seq::empty(),
        Some(ds) => match find_from(data, end_tag(), ds + start_tag().len()) {
            None => Seq::empty(),
            Some(ep) => seq![(ds, ep + end_tag().len())] + spec_boundaries_from(
                data,
                ep + end_tag().len(),
            ),
        },
    }
}

#[via_fn]
proof fn spec_boundaries_from_decreases(data: Seq<u8>, pos: int) {
    if 0 <= pos {
        if let Some(ds) = find_from(data, start_tag(), pos) {
            lemma_find_from_some(data, start_tag(), pos);
            if let Some(ep) = find_from(data, end_tag(), ds + start_tag().len()) {
                lemma_find_from_some(data, end_tag(), ds + start_tag().len());
            }
        }
    }
}

/// The spans of all documents in the buffer.
pub open spec fn spec_boundaries(data: Seq<u8>) -> Seq<(int, int)> {
    spec_boundaries_from(data, 0)
}

/// A well-formed document span: it lies inside the buffer, opens with
/// `<DOCUMENT>` and closes with `</DOCUMENT>`, and is long enough to
/// hold both markers.
pub open spec fn span_wf(data: Seq<u8>, sp: (int, int)) -> bool {
    &&& 0 <= sp.0
    &&& sp.0 + start_tag().len() + end_tag().len() <= sp.1
    &&& sp.1 <= data.len()
    &&& matches_at(data, start_tag(), sp.0)
    &&& matches_at(data, end_tag(), sp.1 - end_tag().len())
}

/// Every span the scanner yields is well-formed, starts at or after the
/// scan position, and the spans are strictly ordered and pairwise
/// disjoint: each ends at or before the next begins.
pub proof fn lemma_boundaries_wf(data: Seq<u8>, pos: int)
    requires
        0 <= pos,
    ensures
        forall|k: int|
            0 <= k < spec_boundaries_from(data, pos).len() ==> span_wf(
                data,
                #[trigger] spec_boundaries_from(data, pos)[k],
            ) && pos <= spec_boundaries_from(data, pos)[k].0,
        forall|k: int|
            0 <= k < spec_boundaries_from(data, pos).len() - 1 ==> (
            #[trigger] spec_boundaries_from(data, pos)[k]).1 <= spec_boundaries_from(
                data,
                pos,
            )[k + 1].0,
    decreases data.len() - pos + 1,
{
    let spans = spec_boundaries_from(data, pos);
    match find_from(data, start_tag(), pos) {
        None => {},
        Some(ds) => {
            lemma_find_from_some(data, start_tag(), pos);
            match find_from(data, end_tag(), ds + start_tag().len()) {
                None => {},
                Some(ep) => {
                    lemma_find_from_some(data, end_tag(), ds + start_tag().len());
                    let next = ep + end_tag().len();
                    lemma_boundaries_wf(data, next);
                    let tail = spec_boundaries_from(data, next);
                    assert(spans == seq![(ds, next as int)] + tail);
                    assert(span_wf(data, spans[0]));
                    assert forall|k: int| 0 <= k < spans.len() implies span_wf(
                        data,
                        #[trigger] spans[k],
                    ) && pos <= spans[k].0 by {
                        if k > 0 {
                            assert(spans[k] == tail[k - 1]);
                        }
                    }
                    assert forall|k: int| 0 <= k < spans.len() - 1 implies (
                    #[trigger] spans[k]).1 <= spans[k + 1].0 by {
                        if k == 0 {
                            assert(spans[1] == tail[0]);
                        } else {
                            assert(spans[k] == tail[k - 1]);
                            assert(spans[k + 1] == tail[k]);
                        }
                    }
                },
            }
        },
    }
}

/// Locate every document span in the buffer, in order: each span starts
/// at the first byte of its `<DOCUMENT>` marker and ends one past the
/// last byte of the matching `</DOCUMENT>` marker.
pub fn find_document_boundaries(data: &[u8]) -> (r: Vec<(usize, usize)>)
    ensures
        r@.len() == spec_boundaries(data@).len(),
        forall|k: int|
            0 <= k < r@.len() ==> (#[trigger] r@[k]).0 == spec_boundaries(data@)[k].0 && r@[k].1
                == spec_boundaries(data@)[k].1,
{
    let start_tag_arr = start_tag_bytes();
    let end_tag_arr = end_tag_bytes();
    let dlen = data.len();
    let mut boundaries: Vec<(usize, usize)> = Vec::new();
    let mut pos: usize = 0;
    loop
        invariant
            dlen == data@.len(),
            start_tag_arr@ == start_tag(),
            end_tag_arr@ == end_tag(),
            pos <= data@.len() + 1,
            boundaries@.len() <= spec_boundaries(data@).len(),
            forall|k: int|
                0 <= k < boundaries@.len() ==> (#[trigger] boundaries@[k]).0 == spec_boundaries(
                    data@,
                )[k].0 && boundaries@[k].1 == spec_boundaries(data@)[k].1,
            spec_boundaries_from(data@, pos as int) == spec_boundaries(data@).skip(
                boundaries@.len() as int,
            ),
        decreases data@.len() - pos + 1,
    {
        let ghost done = boundaries@.len() as int;
        match find_subsequence_from(data, &start_tag_arr, pos) {
            None => {
                proof {
                    assert(spec_boundaries(data@).skip(done) =~= Seq::<(int, int)>::empty());
                }
                return boundaries;
            },
            Some(doc_start) => {
                proof {
                    lemma_find_from_some(data@, start_tag(), pos as int);
                }
                let search_start = doc_start + 10;
                match find_subsequence_from(data, &end_tag_arr, search_start) {
                    None => {
                        proof {
                            assert(spec_boundaries(data@).skip(done)
                                =~= Seq::<(int, int)>::empty());
                        }
                        return boundaries;
                    },
                    Some(end_pos) => {
                        proof {
                            lemma_find_from_some(data@, end_tag(), search_start as int);
                        }
                        let doc_end = end_pos + 11;
                        boundaries.push((doc_start, doc_end));
                        proof {
                            let spans = spec_boundaries(data@);
                            assert(spans.skip(done) == seq![
                                (doc_start as int, doc_end as int),
                            ] + spec_boundaries_from(data@, doc_end as int));
                            assert(spans[done] == spans.skip(done)[0]);
                            assert(spans.skip(done + 1) =~= spans.skip(done).skip(1));
                            assert(spans.skip(done).skip(1) =~= spec_boundaries_from(
                                data@,
                                doc_end as int,
                            ));
                        }
                        pos = doc_end;
                    },
                }
            },
        }
    }
}

/// Cut the buffer into one borrowed slice per document span.
pub fn split_documents<'a>(data: &'a [u8]) -> (r: Vec<&'a [u8]>)
    ensures
        r@.len() == spec_boundaries(data@).len(),
        forall|k: int|
            0 <= k < r@.len() ==> (#[trigger] r@[k])@ == data@.subrange(
                spec_boundaries(data@)[k].0,
                spec_boundaries(data@)[k].1,
            ),
{
    let boundaries = find_document_boundaries(data);
    proof {
        lemma_boundaries_wf(data@, 0);
    }
    let mut docs: Vec<&'a [u8]> = Vec::new();
    let mut i: usize = 0;
    while i < boundaries.len()
        invariant
            i <= boundaries@.len(),
            boundaries@.len() == spec_boundaries(data@).len(),
            forall|k: int|
                0 <= k < boundaries@.len() ==> (#[trigger] boundaries@[k]).0 == spec_boundaries(
                    data@,
                )[k].0 && boundaries@[k].1 == spec_boundaries(data@)[k].1,
            forall|k: int|
                0 <= k < spec_boundaries(data@).len() ==> span_wf(
                    data@,
                    #[trigger] spec_boundaries(data@)[k],
                ),
            docs@.len() == i,
            forall|k: int|
                0 <= k < i ==> (#[trigger] docs@[k])@ == data@.subrange(
                    spec_boundaries(data@)[k].0,
                    spec_boundaries(data@)[k].1,
                ),
        decreases boundaries@.len() - i,
    {
        let (start, end) = boundaries[i];
        let doc = vstd::slice::slice_subrange(data, start, end);
        docs.push(doc);
        i = i + 1;
    }
    docs
}

} // verus!
