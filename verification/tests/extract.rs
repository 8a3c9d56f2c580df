use course_dl::extract::{extract, IdentifierPair};

#[test]
fn extracts_pairs_in_scan_order() {
    let buf = b"s1.id=100;junk s1.contentId=200;more s2.id=101;s2.contentId=201;";
    let pairs = extract(buf).unwrap();
    assert_eq!(
        pairs,
        vec![
            IdentifierPair { content_id: b"200".to_vec(), section_id: b"100".to_vec() },
            IdentifierPair { content_id: b"201".to_vec(), section_id: b"101".to_vec() },
        ]
    );
}

#[test]
fn companion_may_follow_the_marker() {
    let buf = b"s7.contentId=42;trailer s7.id=9000;";
    let pairs = extract(buf).unwrap();
    assert_eq!(pairs.len(), 1);
    assert_eq!(pairs[0].content_id, b"42".to_vec());
    assert_eq!(pairs[0].section_id, b"9000".to_vec());
}

#[test]
fn missing_companion_fails() {
    let buf = b"s1.id=100;s1.contentId=200;s2.contentId=201;";
    let err = extract(buf).unwrap_err();
    assert_eq!(err.section_ident, b"2".to_vec());
}

#[test]
fn empty_buffer_yields_no_pairs() {
    assert_eq!(extract(b"").unwrap(), vec![]);
}

#[test]
fn buffer_without_markers_yields_no_pairs() {
    assert_eq!(extract(b"nothing interesting here; s1.id=5;").unwrap(), vec![]);
}

#[test]
fn duplicate_markers_yield_duplicate_pairs() {
    let buf = b"s3.id=77;s3.contentId=88;s3.contentId=88;";
    let pairs = extract(buf).unwrap();
    assert_eq!(pairs.len(), 2);
    assert_eq!(pairs[0], pairs[1]);
}

#[test]
fn section_id_runs_to_buffer_end_without_semicolon() {
    let buf = b"s4.contentId=500;s4.id=123";
    let pairs = extract(buf).unwrap();
    assert_eq!(pairs[0].section_id, b"123".to_vec());
}

#[test]
fn malformed_marker_is_not_matched() {
    // no digits after `s`, and no `;` after the content digits
    assert_eq!(extract(b"s.contentId=1;").unwrap(), vec![]);
    assert_eq!(extract(b"s1.contentId=2").unwrap(), vec![]);
}
