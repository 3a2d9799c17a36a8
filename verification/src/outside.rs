//! The calls this library makes into `std` text functions, `base64` and
//! `serde_json`, each with the contract that it is trusted to meet.
use base64::Engine;
use vstd::prelude::*;
use vstd::utf8::{decode_utf8, is_ascii_chars, valid_utf8};

use crate::number::digit_char;

verus! {

/// `String::push`. Trusted, as its documentation states: it appends one
/// character.
pub assume_specification[ String::push ](s: &mut String, ch: char)
    ensures
        final(s)@ == old(s)@.push(ch),
;

/// The decoding error of the `base64` crate.
#[verifier::external_type_specification]
#[verifier::external_body]
pub struct ExDecodeError(base64::DecodeError);

/// The lowercase form of `text`, as `str::to_lowercase` computes it.
pub uninterp spec fn lowercase(text: Seq<char>) -> Seq<char>;

/// The text that `String::from_utf8_lossy` makes of `bytes`.
pub uninterp spec fn utf8_lossy(bytes: Seq<u8>) -> Seq<char>;

/// The bytes that the standard base64 engine decodes from `text`, or `None`
/// where it reports an error.
pub uninterp spec fn base64_standard_decode(text: Seq<char>) -> Option<Seq<u8>>;

/// The lowercase hexadecimal digit of `d` (below sixteen).
pub open spec fn hex_digit(d: nat) -> char {
    if d < 10 {
        digit_char(d)
    } else if d == 10 {
        'a'
    } else if d == 11 {
        'b'
    } else if d == 12 {
        'c'
    } else if d == 13 {
        'd'
    } else if d == 14 {
        'e'
    } else {
        'f'
    }
}

/// How `serde_json` writes `c` inside a string literal: `"` and `\` behind a
/// backslash, the control characters with short escapes as `\b`, `\t`, `\n`,
/// `\f`, `\r`, the other characters below U+0020 as `\u00` and two lowercase
/// hexadecimal digits, and every other character as itself.
pub open spec fn json_escape_char(c: char) -> Seq<char> {
    if c == '"' {
        seq!['\\', '"']
    } else if c == '\\' {
        seq!['\\', '\\']
    } else if c == '\u{8}' {
        seq!['\\', 'b']
    } else if c == '\t' {
        seq!['\\', 't']
    } else if c == '\n' {
        seq!['\\', 'n']
    } else if c == '\u{c}' {
        seq!['\\', 'f']
    } else if c == '\r' {
        seq!['\\', 'r']
    } else if (c as nat) < 32 {
        seq!['\\', 'u', '0', '0', hex_digit((c as nat) / 16), hex_digit((c as nat) % 16)]
    } else {
        seq![c]
    }
}

/// The escaped characters of `text`, in order.
pub open spec fn json_escape(text: Seq<char>) -> Seq<char>
    decreases text.len(),
{
    if text.len() == 0 {
        Seq::empty()
    } else {
        json_escape(text.drop_last()) + json_escape_char(text.last())
    }
}

/// The JSON string literal that `serde_json::to_string` writes for `text`.
pub open spec fn json_string(text: Seq<char>) -> Seq<char> {
    seq!['"'] + json_escape(text) + seq!['"']
}

/// Whether `serde_json` writes `c` into a string literal unescaped.
pub open spec fn json_plain_char(c: char) -> bool {
    c != '"' && c != '\\' && c >= ' '
}

/// Text without `"`, `\` or control characters is written between two quotes
/// as it is.
pub proof fn lemma_json_plain(text: Seq<char>)
    requires
        forall|i: int| 0 <= i < text.len() ==> json_plain_char(#[trigger] text[i]),
    ensures
        json_string(text) == seq!['"'] + text + seq!['"'],
{
    lemma_json_escape_plain(text);
}

proof fn lemma_json_escape_plain(text: Seq<char>)
    requires
        forall|i: int| 0 <= i < text.len() ==> json_plain_char(#[trigger] text[i]),
    ensures
        json_escape(text) == text,
    decreases text.len(),
{
    if text.len() > 0 {
        let init = text.drop_last();
        assert forall|i: int| 0 <= i < init.len() implies json_plain_char(#[trigger] init[i]) by {
            assert(init[i] == text[i]);
        }
        lemma_json_escape_plain(init);
        assert(json_plain_char(text[text.len() - 1]));
        assert(json_escape(text) =~= text);
    }
}

/// The ASCII lowercase of `c`: `A` to `Z` become `a` to `z`.
pub open spec fn ascii_lower(c: char) -> char {
    if 'A' <= c && c <= 'Z' {
        ((c as nat) + 32) as char
    } else {
        c
    }
}

/// Calls `str::to_lowercase`. Trusted: the result is `lowercase(text)`, a
/// function of the text alone, and ASCII text is lowered character by
/// character from `A`..`Z` to `a`..`z` (its source converts the ASCII prefix
/// with `u8::to_ascii_lowercase`). Unicode case mapping beyond ASCII is not
/// stated.
#[verifier::external_body]
pub(crate) fn to_lowercase(text: &str) -> (r: String)
    ensures
        r@ == lowercase(text@),
        is_ascii_chars(text@) ==> r@ == text@.map_values(|c: char| ascii_lower(c)),
{
    text.to_lowercase()
}

/// Calls `String::from_utf8_lossy`. Trusted: the result is
/// `utf8_lossy(bytes)`, and, as its documentation states, bytes that are valid
/// UTF-8 come back as the text they encode.
#[verifier::external_body]
pub(crate) fn decode_body(bytes: &[u8]) -> (r: String)
    ensures
        r@ == utf8_lossy(bytes@),
        valid_utf8(bytes@) ==> r@ == decode_utf8(bytes@),
{
    String::from_utf8_lossy(bytes).into_owned()
}

/// Calls `base64::engine::general_purpose::STANDARD.decode` on the bytes of
/// `text`. Trusted: it succeeds exactly where `base64_standard_decode(text)`
/// is `Some`, and then yields those bytes; which inputs those are is not stated.
#[verifier::external_body]
pub(crate) fn decode_base64(text: &str) -> (r: Result<Vec<u8>, base64::DecodeError>)
    ensures
        r is Ok <==> base64_standard_decode(text@) is Some,
        r matches Ok(b) ==> base64_standard_decode(text@) == Some(b@),
{
    base64::engine::general_purpose::STANDARD.decode(text)
}

/// Calls `serde_json::to_string` on a string slice. Trusted: the result is
/// `json_string(text)`, the escaping of its escape table (`ESCAPE`) and of
/// `Formatter::write_char_escape`. Serialising a `&str` into the `Vec` that
/// `to_string` writes to does not fail, so the call is unwrapped.
#[verifier::external_body]
pub(crate) fn to_json_string(text: &str) -> (r: String)
    ensures
        r@ == json_string(text@),
{
    serde_json::to_string(text).unwrap()
}

} // verus!
