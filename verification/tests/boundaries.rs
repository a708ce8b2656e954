use sec_parsers::boundaries::{find_document_boundaries, split_documents};

#[test]
fn two_documents_with_noise() {
    let buf = b"prefix<DOCUMENT>A</DOCUMENT>mid<DOCUMENT>B</DOCUMENT>suffix";
    assert_eq!(find_document_boundaries(buf), vec![(6, 28), (31, 53)]);
}

#[test]
fn unterminated_document_is_discarded() {
    assert_eq!(find_document_boundaries(b"<DOCUMENT>unterminated"), vec![]);
}

#[test]
fn empty_buffer_has_no_documents() {
    assert_eq!(find_document_boundaries(b""), vec![]);
}

#[test]
fn trailing_open_marker_after_closed_document() {
    let buf = b"<DOCUMENT>A</DOCUMENT><DOCUMENT>no close";
    assert_eq!(find_document_boundaries(buf), vec![(0, 22)]);
}

#[test]
fn adjacent_documents() {
    let buf = b"<DOCUMENT></DOCUMENT><DOCUMENT>x</DOCUMENT>";
    assert_eq!(find_document_boundaries(buf), vec![(0, 21), (21, 43)]);
}

#[test]
fn split_borrows_each_span() {
    let buf = b"prefix<DOCUMENT>A</DOCUMENT>mid<DOCUMENT>B</DOCUMENT>suffix";
    let docs = split_documents(buf);
    assert_eq!(docs.len(), 2);
    assert_eq!(docs[0], &b"<DOCUMENT>A</DOCUMENT>"[..]);
    assert_eq!(docs[1], &b"<DOCUMENT>B</DOCUMENT>"[..]);
}

#[test]
fn split_of_plain_text_is_empty() {
    let docs = split_documents(b"no markers here at all");
    assert!(docs.is_empty());
}
