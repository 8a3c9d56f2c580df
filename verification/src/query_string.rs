//! Percent- and plus-decoding of query-string values.
//!
//! `unquote` replaces each well-formed `%xx` escape by the byte it denotes
//! and leaves malformed escapes in place; `unquote_plus` additionally turns
//! `+` into a space first, as form encoding requires.

use vstd::prelude::*;
use vstd::utf8::{decode_utf8, valid_utf8};

verus! {

/// Numeric value of an ASCII hexadecimal digit byte (`0`-`9`, `A`-`F`,
/// `a`-`f`), if it is one.
pub open spec fn hex_val(b: u8) -> Option<u8> {
    if 48 <= b && b <= 57 {  // '0'..='9'
        Some((b - 48) as u8)
    } else if 65 <= b && b <= 70 {  // 'A'..='F'
        Some((b - 65 + 10) as u8)
    } else if 97 <= b && b <= 102 {  // 'a'..='f'
        Some((b - 97 + 10) as u8)
    } else {
        None
    }
}

/// Byte denoted by a pair of hexadecimal digit bytes, if both are digits.
pub open spec fn hex_pair_val(n1: u8, n2: u8) -> Option<u8> {
    match (hex_val(n1), hex_val(n2)) {
        (Some(h), Some(l)) => Some((h * 16 + l) as u8),
        _ => None,
    }
}

/// Value of one hexadecimal digit byte, `None` on any other byte.
pub fn hex_char_to_dec(n: u8) -> (r: Option<u8>)
    ensures
        r == hex_val(n),
{
    if 48 <= n && n <= 57 {
        Some(n - 48)
    } else if 65 <= n && n <= 70 {
        Some(n - 65 + 10)
    } else if 97 <= n && n <= 102 {
        Some(n - 97 + 10)
    } else {
        None
    }
}

/// Byte encoded by two hexadecimal digit bytes, `None` if either is not one.
pub fn to_digit(n1: u8, n2: u8) -> (r: Option<u8>)
    ensures
        r == hex_pair_val(n1, n2),
{
    match (hex_char_to_dec(n1), hex_char_to_dec(n2)) {
        (Some(h), Some(l)) => Some(h * 16 + l),
        _ => None,
    }
}

/// The byte sequence `s` with every well-formed `%xx` escape replaced by the
/// byte it denotes; a `%` not followed by two hexadecimal digit bytes is kept
/// literally, together with whatever follows it.
pub open spec fn unquote_seq(s: Seq<u8>) -> Seq<u8>
    decreases s.len(),
{
    if s.len() == 0 {
        Seq::empty()
    } else if s[0] == 37 && s.len() >= 3 && hex_pair_val(s[1], s[2]) is Some {
        // '%' and two hex digits
        seq![hex_pair_val(s[1], s[2]).unwrap()] + unquote_seq(s.skip(3))
    } else {
        seq![s[0]] + unquote_seq(s.skip(1))
    }
}

/// The byte sequence `s` with every `+` replaced by a space.
pub open spec fn plus_to_space(s: Seq<u8>) -> Seq<u8> {
    s.map_values(|b: u8| if b == 43 { 32u8 } else { b })
}

/// Percent-decodes a byte slice, leaving malformed escapes in place.
pub fn unquote_bytes(s: &[u8]) -> (r: Vec<u8>)
    ensures
        r@ == unquote_seq(s@),
{
    let mut out: Vec<u8> = Vec::new();
    let mut i: usize = 0;
    assert(s@.skip(0) =~= s@);
    assert(unquote_seq(s@) =~= Seq::empty() + unquote_seq(s@));
    while i < s.len()
        invariant
            i <= s.len(),
            unquote_seq(s@) == out@ + unquote_seq(s@.skip(i as int)),
        decreases s.len() - i,
    {
        let ghost rest = s@.skip(i as int);
        assert(rest[0] == s@[i as int]);
        if s[i] == 37 && s.len() - i >= 3 {
            assert(rest[1] == s@[i + 1]);
            assert(rest[2] == s@[i + 2]);
            match to_digit(s[i + 1], s[i + 2]) {
                Some(d) => {
                    out.push(d);
                    assert(s@.skip(i as int).skip(3) =~= s@.skip(i as int + 3));
                    assert(unquote_seq(s@) =~= out@ + unquote_seq(s@.skip(i as int + 3)));
                    i = i + 3;
                },
                None => {
                    out.push(s[i]);
                    assert(s@.skip(i as int).skip(1) =~= s@.skip(i as int + 1));
                    assert(unquote_seq(s@) =~= out@ + unquote_seq(s@.skip(i as int + 1)));
                    i = i + 1;
                },
            }
        } else {
            out.push(s[i]);
            assert(s@.skip(i as int).skip(1) =~= s@.skip(i as int + 1));
            assert(unquote_seq(s@) =~= out@ + unquote_seq(s@.skip(i as int + 1)));
            i = i + 1;
        }
    }
    assert(s@.skip(i as int) =~= Seq::empty());
    assert(out@ + Seq::<u8>::empty() =~= out@);
    out
}

/// Replaces every `+` byte by a space byte.
pub fn replace_plus(s: &[u8]) -> (r: Vec<u8>)
    ensures
        r@ == plus_to_space(s@),
{
    let mut out: Vec<u8> = Vec::new();
    let mut i: usize = 0;
    while i < s.len()
        invariant
            i <= s.len(),
            out@.len() == i,
            forall|j: int| 0 <= j < i ==> out@[j] == (if s@[j] == 43 { 32u8 } else { s@[j] }),
        decreases s.len() - i,
    {
        if s[i] == 43 {
            out.push(32);
        } else {
            out.push(s[i]);
        }
        i = i + 1;
    }
    assert(out@ =~= plus_to_space(s@));
    out
}

/// Error returned when decoded bytes do not form UTF-8 text.
#[derive(Debug, Clone, Copy, PartialEq, Eq, Structural)]
pub struct Utf8DecodeError;

/// Relies on `String::from_utf8`: it succeeds exactly on valid UTF-8 input
/// and returns the string that those bytes encode.
#[verifier::external_body]
pub(crate) fn string_from_utf8(v: Vec<u8>) -> (r: Result<String, Utf8DecodeError>)
    ensures
        r is Ok <==> valid_utf8(v@),
        r matches Ok(t) ==> t@ == decode_utf8(v@),
{
    String::from_utf8(v).map_err(|_| Utf8DecodeError)
}

/// Replaces each well-formed `%xx` escape by the byte it denotes and keeps
/// malformed escapes literally; fails exactly when the decoded bytes are not
/// valid UTF-8.
pub fn unquote(s: &[u8]) -> (r: Result<String, Utf8DecodeError>)
    ensures
        r is Ok <==> valid_utf8(unquote_seq(s@)),
        r matches Ok(t) ==> t@ == decode_utf8(unquote_seq(s@)),
{
    string_from_utf8(unquote_bytes(s))
}

/// Like `unquote`, but first replaces every `+` by a space, as required for
/// decoding HTML form values.
pub fn unquote_plus(s: &[u8]) -> (r: Result<String, Utf8DecodeError>)
    ensures
        r is Ok <==> valid_utf8(unquote_seq(plus_to_space(s@))),
        r matches Ok(t) ==> t@ == decode_utf8(unquote_seq(plus_to_space(s@))),
{
    let replaced = replace_plus(s);
    string_from_utf8(unquote_bytes(replaced.as_slice()))
}

} // verus!
