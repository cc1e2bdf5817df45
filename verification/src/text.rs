//! Text from bytes: lossy UTF-8 decoding, trimming, and lowercase hex.
//!
//! The functions here are trusted; each contract restates what the standard
//! library or the `hex` crate documents for the call it makes.

use vstd::prelude::*;
use vstd::utf8::{decode_utf8, valid_utf8};

verus! {

/// What `String::from_utf8_lossy` makes of `bytes`: each maximal invalid
/// sequence becomes U+FFFD. Of invalid input nothing more is stated (see
/// `lenient_text`).
pub uninterp spec fn lossy_text(bytes: Seq<u8>) -> Seq<char>;

/// The characters of `bytes` decoded leniently: valid UTF-8 gives exactly
/// the characters it encodes; other input gives `lossy_text`.
pub open spec fn lenient_text(bytes: Seq<u8>) -> Seq<char> {
    if valid_utf8(bytes) {
        decode_utf8(bytes)
    } else {
        lossy_text(bytes)
    }
}

/// `String::from_utf8_lossy`, made into an owned `String`. Its result is
/// `lossy_text` of the bytes; as the standard library documents, valid UTF-8
/// decodes to exactly its characters. What it gives for invalid input is
/// left to the name.
#[verifier::external_body]
pub(crate) fn utf8_lossy(bytes: &[u8]) -> (s: String)
    ensures
        s@ == lossy_text(bytes@),
        valid_utf8(bytes@) ==> s@ == decode_utf8(bytes@),
{
    String::from_utf8_lossy(bytes).into_owned()
}

/// `s` without the `'\0'` characters at its end.
pub open spec fn trim_trailing_nul(s: Seq<char>) -> Seq<char>
    decreases s.len(),
{
    if s.len() > 0 && s.last() == '\0' {
        trim_trailing_nul(s.drop_last())
    } else {
        s
    }
}

/// `str::trim_end_matches('\0')`, made into an owned `String`: every `'\0'`
/// at the end is removed.
#[verifier::external_body]
pub(crate) fn trim_nul_end(s: &str) -> (t: String)
    ensures
        t@ == trim_trailing_nul(s@),
{
    s.trim_end_matches('\0').to_string()
}

/// The lowercase hex digit of `d`, for `d < 16`.
pub open spec fn hex_digit(d: int) -> char {
    if d < 10 {
        (d + 48) as char
    } else {
        (d + 87) as char
    }
}

/// Lowercase hex of `bytes`: two digits per byte, high half first.
pub open spec fn hex_lower(bytes: Seq<u8>) -> Seq<char>
    decreases bytes.len(),
{
    if bytes.len() == 0 {
        Seq::empty()
    } else {
        seq![hex_digit(bytes[0] as int / 16), hex_digit(bytes[0] as int % 16)] + hex_lower(bytes.drop_first())
    }
}

/// `hex::encode`: lowercase hex, each byte as two digits, high half first.
#[verifier::external_body]
pub(crate) fn hex_encode(bytes: &[u8]) -> (s: String)
    ensures
        s@ == hex_lower(bytes@),
{
    hex::encode(bytes)
}

/// `==` on two `str`: whether they hold the same characters.
#[verifier::external_body]
pub(crate) fn str_eq(a: &str, b: &str) -> (r: bool)
    ensures
        r == (a@ == b@),
{
    a == b
}

/// Hex has twice as many characters as bytes, all of them ASCII.
pub proof fn lemma_hex_lower(bytes: Seq<u8>)
    ensures
        hex_lower(bytes).len() == 2 * bytes.len(),
        forall|i: int|
            0 <= i < hex_lower(bytes).len() ==> '\0' <= #[trigger] hex_lower(bytes)[i] <= '\u{7f}',
    decreases bytes.len(),
{
    if bytes.len() > 0 {
        lemma_hex_lower(bytes.drop_first());
        let head = seq![hex_digit(bytes[0] as int / 16), hex_digit(bytes[0] as int % 16)];
        let rest = hex_lower(bytes.drop_first());
        assert forall|i: int| 0 <= i < hex_lower(bytes).len() implies '\0' <= #[trigger] hex_lower(
            bytes,
        )[i] <= '\u{7f}' by {
            if i >= 2 {
                assert(hex_lower(bytes)[i] == rest[i - 2]);
            }
        }
    }
}


/// `String::push`: `c` is appended.
#[verifier::external_body]
pub(crate) fn push_char(s: &mut String, c: char)
    ensures
        final(s)@ == old(s)@.push(c),
{
    s.push(c)
}

} // verus!
