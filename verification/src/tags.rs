//! Tag content extraction: the byte range between a named opening
//! marker `<tag>` and the first closing marker `</tag>` after it.

use vstd::prelude::*;
use vstd::string::StringSliceAdditionalSpecFns;
use crate::search::{find_from, find_subsequence_from, lemma_find_from_some, matches_at};

verus! {

/// The opening marker `<tag>`, as bytes (60 is `<`, 62 is `>`).
pub open spec fn open_marker(tag: Seq<u8>) -> Seq<u8> {
    seq![60u8] + tag + seq![62u8]
}

/// The closing marker `</tag>`, as bytes (47 is `/`).
pub open spec fn close_marker(tag: Seq<u8>) -> Seq<u8> {
    seq![60u8, 47u8] + tag + seq![62u8]
}

/// The bytes strictly between the first opening marker and the first
/// closing marker after it, or nothing when either marker is missing.
pub open spec fn spec_extract(data: Seq<u8>, tag: Seq<u8>) -> Option<Seq<u8>> {
    match find_from(data, open_marker(tag), 0) {
        None => None,
        Some(sp) => {
            let cs = sp + open_marker(tag).len();
            match find_from(data, close_marker(tag), cs) {
                None => None,
                Some(ep) => Some(data.subrange(cs, ep)),
            }
        },
    }
}

/// The extracted content sits strictly between the first opening marker
/// and the first closing marker after it, and holds neither marker: it
/// starts right past the opening marker and stops right before the
/// closing one.
pub proof fn lemma_extract_between_markers(data: Seq<u8>, tag: Seq<u8>)
    requires
        spec_extract(data, tag) is Some,
    ensures
        ({
            let sp = find_from(data, open_marker(tag), 0)->Some_0;
            let cs = sp + open_marker(tag).len();
            let ep = find_from(data, close_marker(tag), cs)->Some_0;
            &&& matches_at(data, open_marker(tag), sp)
            &&& forall|j: int| 0 <= j < sp ==> !matches_at(data, open_marker(tag), j)
            &&& cs <= ep
            &&& matches_at(data, close_marker(tag), ep)
            &&& forall|j: int| cs <= j < ep ==> !matches_at(data, close_marker(tag), j)
            &&& spec_extract(data, tag)->Some_0 == data.subrange(cs, ep)
        }),
{
    let sp = find_from(data, open_marker(tag), 0)->Some_0;
    let cs = sp + open_marker(tag).len();
    lemma_find_from_some(data, open_marker(tag), 0);
    lemma_find_from_some(data, close_marker(tag), cs);
}

/// Copy `tag` between the given lead-in bytes and a closing `>`.
fn build_marker(lead: &[u8], tag: &[u8]) -> (r: Vec<u8>)
    ensures
        r@ == lead@ + tag@ + seq![62u8],
{
    let mut v: Vec<u8> = Vec::new();
    let mut i: usize = 0;
    while i < lead.len()
        invariant
            i <= lead@.len(),
            v@ =~= lead@.take(i as int),
        decreases lead@.len() - i,
    {
        v.push(lead[i]);
        i = i + 1;
    }
    let mut j: usize = 0;
    while j < tag.len()
        invariant
            j <= tag@.len(),
            v@ =~= lead@ + tag@.take(j as int),
        decreases tag@.len() - j,
    {
        v.push(tag[j]);
        j = j + 1;
    }
    v.push(62u8);
    proof {
        assert(v@ =~= lead@ + tag@ + seq![62u8]);
    }
    v
}

/// Extract the content between `<tag_name>` and the first `</tag_name>`
/// after it, as a fresh owned copy; `None` when either marker is
/// missing.  The tag is spliced in verbatim: no escaping, no case
/// folding.
pub fn extract_tag_content(data: &[u8], tag_name: &str) -> (r: Option<Vec<u8>>)
    ensures
        r is Some <==> spec_extract(data@, tag_name.spec_bytes()) is Some,
        r is Some ==> r->Some_0@ == spec_extract(data@, tag_name.spec_bytes())->Some_0,
{
    let tag = tag_name.as_bytes();
    let dlen = data.len();
    let open_lead: [u8; 1] = [60u8];
    let close_lead: [u8; 2] = [60u8, 47u8];
    let open = build_marker(&open_lead, tag);
    let close = build_marker(&close_lead, tag);
    proof {
        assert(open_lead@ =~= seq![60u8]);
        assert(close_lead@ =~= seq![60u8, 47u8]);
        assert(open@ == open_marker(tag_name.spec_bytes()));
        assert(close@ == close_marker(tag_name.spec_bytes()));
    }
    match find_subsequence_from(data, open.as_slice(), 0) {
        None => None,
        Some(start_pos) => {
            proof {
                lemma_find_from_some(data@, open_marker(tag_name.spec_bytes()), 0);
                assert(start_pos + open@.len() <= dlen);
            }
            let content_start = start_pos + open.len();
            match find_subsequence_from(data, close.as_slice(), content_start) {
                None => None,
                Some(end_pos) => {
                    proof {
                        lemma_find_from_some(
                            data@,
                            close_marker(tag_name.spec_bytes()),
                            content_start as int,
                        );
                    }
                    let content = vstd::slice::slice_subrange(data, content_start, end_pos);
                    Some(vstd::slice::slice_to_vec(content))
                },
            }
        },
    }
}

} // verus!
