//! Validity of method tokens, URIs, header names and header values.
//!
//! The generic HTTP object model is the authority on what parses: the
//! executable checks here call into the `http` crate, and their contracts
//! restate what that crate's source accepts.

use vstd::prelude::*;

verus! {

/// True for the bytes an HTTP token may hold: `! # $ % & ' * + - . ^ _ ` | ~`,
/// digits and letters. Method tokens and header names are both made of these.
pub open spec fn is_tchar(b: u8) -> bool {
    ||| b == 33  // '!'
    ||| 35 <= b <= 39  // '#' '$' '%' '&' '\''
    ||| b == 42  // '*'
    ||| b == 43  // '+'
    ||| b == 45  // '-'
    ||| b == 46  // '.'
    ||| 48 <= b <= 57  // '0' ..= '9'
    ||| 65 <= b <= 90  // 'A' ..= 'Z'
    ||| 94 <= b <= 96  // '^' '_' '`'
    ||| 97 <= b <= 122  // 'a' ..= 'z'
    ||| b == 124  // '|'
    ||| b == 126  // '~'
}

/// A non-empty byte string made of token characters.
pub open spec fn token_ok(s: Seq<u8>) -> bool {
    s.len() > 0 && forall|i: int| 0 <= i < s.len() ==> is_tchar(#[trigger] s[i])
}

/// A byte string acceptable as a header name: a token of at most 65535
/// bytes. The framework's header-name type caps names at that length,
/// whatever their characters.
pub open spec fn header_name_ok(s: Seq<u8>) -> bool {
    token_ok(s) && s.len() <= 65535
}

/// True for the bytes a header value may hold: anything at or above the
/// space, except delete, plus horizontal tab.
pub open spec fn is_value_byte(b: u8) -> bool {
    (32 <= b && b != 127) || b == 9
}

/// A byte string acceptable as a header value. The empty value is legal.
pub open spec fn value_ok(s: Seq<u8>) -> bool {
    forall|i: int| 0 <= i < s.len() ==> is_value_byte(#[trigger] s[i])
}

/// True for the bytes of a header value that also has a text form: visible
/// ASCII, the space, and horizontal tab.
pub open spec fn is_visible_byte(b: u8) -> bool {
    (32 <= b && b < 127) || b == 9
}

/// A header value whose bytes all have a text form.
pub open spec fn visible_ok(s: Seq<u8>) -> bool {
    forall|i: int| 0 <= i < s.len() ==> is_visible_byte(#[trigger] s[i])
}

/// Whether a piece of text parses as a URI. The answer depends on the
/// characters alone; it is decided by the `http` crate's URI parser.
pub uninterp spec fn uri_ok(s: Seq<char>) -> bool;

/// Relies on `http::Method::from_bytes`: it accepts exactly the non-empty
/// byte strings made of token characters, and nothing else.
#[verifier::external_body]
pub(crate) fn method_token_valid(m: &Vec<u8>) -> (r: bool)
    ensures
        r == token_ok(m@),
{
    http::Method::from_bytes(m.as_slice()).is_ok()
}

/// Relies on `http::header::HeaderName::from_bytes`: it accepts exactly the
/// non-empty byte strings of at most 65535 token characters (upper-case
/// letters are folded, not refused; anything longer is refused whatever it
/// holds).
#[verifier::external_body]
pub(crate) fn header_name_valid(n: &Vec<u8>) -> (r: bool)
    ensures
        r == header_name_ok(n@),
{
    http::header::HeaderName::from_bytes(n.as_slice()).is_ok()
}

/// Relies on `http::header::HeaderValue::from_bytes`: it accepts exactly the
/// byte strings whose bytes are at or above the space and not delete, or tab.
#[verifier::external_body]
pub(crate) fn header_value_valid(v: &Vec<u8>) -> (r: bool)
    ensures
        r == value_ok(v@),
{
    http::HeaderValue::from_bytes(v.as_slice()).is_ok()
}

/// Relies on `http::Uri`'s `TryFrom<&str>`: whether the text parses is a
/// function of the characters alone.
#[verifier::external_body]
pub(crate) fn uri_valid(s: &str) -> (r: bool)
    ensures
        r == uri_ok(s@),
{
    http::Uri::try_from(s).is_ok()
}

/// Checks that every byte of a header value has a text form, as the
/// framework's header-value-to-text conversion demands.
pub fn value_visible(v: &Vec<u8>) -> (r: bool)
    ensures
        r == visible_ok(v@),
{
    let mut i: usize = 0;
    while i < v.len()
        invariant
            i <= v.len(),
            forall|j: int| 0 <= j < i ==> is_visible_byte(#[trigger] v@[j]),
        decreases v.len() - i,
    {
        let b = v[i];
        if !((32 <= b && b < 127) || b == 9) {
            return false;
        }
        i += 1;
    }
    true
}

} // verus!
