use sec_parsers::lines::count_lines;
use sec_parsers::tags::extract_tag_content;

#[test]
fn empty_buffer_is_one_line() {
    assert_eq!(count_lines(b""), 1);
}

#[test]
fn unterminated_last_line_counts() {
    assert_eq!(count_lines(b"a\nb\nc"), 3);
}

#[test]
fn trailing_newline() {
    assert_eq!(count_lines(b"a\n"), 2);
    assert_eq!(count_lines(b"\n\n\n"), 4);
}

#[test]
fn extract_type_tag() {
    let buf = b"<SEC-HEADER>...<TYPE>10-K</TYPE>...</SEC-HEADER>";
    assert_eq!(extract_tag_content(buf, "TYPE").unwrap(), b"10-K".to_vec());
}

#[test]
fn extract_missing_markers() {
    assert!(extract_tag_content(b"<TYPE>10-K", "TYPE").is_none());
    assert!(extract_tag_content(b"10-K</TYPE>", "TYPE").is_none());
    assert!(extract_tag_content(b"", "TYPE").is_none());
}

#[test]
fn extract_empty_content() {
    assert_eq!(extract_tag_content(b"<TYPE></TYPE>", "TYPE").unwrap(), Vec::<u8>::new());
}

#[test]
fn extract_stops_at_first_close() {
    let buf = b"x<T>one</T>two</T>";
    assert_eq!(extract_tag_content(buf, "T").unwrap(), b"one".to_vec());
}

#[test]
fn extract_uses_first_open() {
    let buf = b"<T>first</T><T>second</T>";
    assert_eq!(extract_tag_content(buf, "T").unwrap(), b"first".to_vec());
}
