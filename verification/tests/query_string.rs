use course_dl::query_string::{hex_char_to_dec, to_digit, unquote, unquote_plus};

#[test]
fn unquote_decodes_percent_escapes() {
    let s = unquote(b"ABC%3D123%21%20DEF%3D%23%23");
    assert_eq!(s.ok().unwrap(), "ABC=123! DEF=##");
}

#[test]
fn unquote_plus_decodes_plus_and_escapes() {
    let s = unquote_plus(b"ABC%3D123%21+DEF%3D%23%23");
    assert_eq!(s.ok().unwrap(), "ABC=123! DEF=##");
}

#[test]
fn unquote_keeps_trailing_percent() {
    assert_eq!(unquote(b"100%").ok().unwrap(), "100%");
}

#[test]
fn unquote_keeps_short_escape() {
    assert_eq!(unquote(b"%1").ok().unwrap(), "%1");
}

#[test]
fn unquote_keeps_malformed_escape() {
    assert_eq!(unquote(b"%G5x").ok().unwrap(), "%G5x");
}

#[test]
fn unquote_rejects_non_utf8_result() {
    assert!(unquote(b"%FF").is_err());
}

#[test]
fn unquote_empty_is_empty() {
    assert_eq!(unquote(b"").ok().unwrap(), "");
}

#[test]
fn unquote_plus_only_plus() {
    assert_eq!(unquote_plus(b"a+b+c").ok().unwrap(), "a b c");
}

#[test]
fn hex_digit_values() {
    assert_eq!(hex_char_to_dec(b'0'), Some(0));
    assert_eq!(hex_char_to_dec(b'9'), Some(9));
    assert_eq!(hex_char_to_dec(b'A'), Some(10));
    assert_eq!(hex_char_to_dec(b'f'), Some(15));
    assert_eq!(hex_char_to_dec(b'G'), None);
    assert_eq!(hex_char_to_dec(b' '), None);
}

#[test]
fn hex_pair_values() {
    assert_eq!(to_digit(b'3', b'D'), Some(0x3D));
    assert_eq!(to_digit(b'2', b'0'), Some(0x20));
    assert_eq!(to_digit(b'X', b'0'), None);
    assert_eq!(to_digit(b'0', b'X'), None);
}
