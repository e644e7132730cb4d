//! Byte and text codecs that the parsers call: GB2312 and UTF-8 text
//! decoding from `textcode`, Base64 from `base64`, and std's UTF-8 check.

use vstd::prelude::*;
use base64::Engine;

verus! {

/// What `textcode` decodes from GB2312 bytes.
pub uninterp spec fn gb2312_text(bytes: Seq<u8>) -> Seq<char>;

pub open spec fn all_ascii_bytes(bytes: Seq<u8>) -> bool {
    forall|i: int| 0 <= i < bytes.len() ==> #[trigger] bytes[i] <= 0x7F
}

/// `textcode::decode::<Gb2312>`: the text decoded from GB2312 bytes. The
/// contract names the result, and states what its source plainly shows for
/// bytes below 0x80: each is written out as the character with that code.
#[verifier::external_body]
pub(crate) fn decode_gb2312(bytes: &[u8]) -> (r: String)
    ensures
        r@ == gb2312_text(bytes@),
        all_ascii_bytes(bytes@) ==> r@ == bytes@.map_values(|b: u8| b as char),
{
    textcode::decode::<textcode::Gb2312>(bytes)
}

/// `textcode::decode::<Utf8>` on the bytes of a string. Its source checks the
/// bytes with `std::str::from_utf8` and, as they are valid UTF-8, writes them
/// out unchanged: the result is the same text.
#[verifier::external_body]
pub(crate) fn decode_utf8_text(s: &str) -> (r: String)
    ensures
        r@ == s@,
{
    textcode::decode::<textcode::Utf8>(s.as_bytes())
}

/// What the standard Base64 engine of `base64` decodes from a text, or
/// `None` where it reports an error.
pub uninterp spec fn base64_standard_decoded(text: Seq<char>) -> Option<Seq<u8>>;

/// `base64::engine::general_purpose::STANDARD.decode` on the bytes of `s`;
/// an error becomes `None`.
#[verifier::external_body]
pub(crate) fn base64_decode(s: &str) -> (r: Option<Vec<u8>>)
    ensures
        r matches Some(v) ==> base64_standard_decoded(s@) == Some(v@),
        r is None ==> base64_standard_decoded(s@) is None,
{
    match base64::engine::general_purpose::STANDARD.decode(s) {
        Ok(v) => Some(v),
        Err(_) => None,
    }
}

/// The text whose UTF-8 encoding `bytes` is, or `None` when they are not
/// valid UTF-8 (what `String::from_utf8` accepts).
pub open spec fn utf8_text(bytes: Seq<u8>) -> Option<Seq<char>> {
    if vstd::utf8::valid_utf8(bytes) {
        Some(vstd::utf8::decode_utf8(bytes))
    } else {
        None
    }
}

/// `String::from_utf8`; an error becomes `None`.
#[verifier::external_body]
pub(crate) fn string_from_utf8(bytes: Vec<u8>) -> (r: Option<String>)
    ensures
        r matches Some(s) ==> utf8_text(bytes@) == Some(s@),
        r is None ==> utf8_text(bytes@) is None,
{
    String::from_utf8(bytes).ok()
}


/// What `urlparse::unquote_plus` gives for a text: `+` read as a space and
/// `%XX` escapes decoded, or `None` where the decoded bytes are not UTF-8.
pub uninterp spec fn unquoted_plus(s: Seq<char>) -> Option<Seq<char>>;

/// `urlparse::unquote_plus`; an error becomes `None`.
#[verifier::external_body]
pub(crate) fn unquote_plus(s: &str) -> (r: Option<String>)
    ensures
        r matches Some(t) ==> unquoted_plus(s@) == Some(t@),
        r is None ==> unquoted_plus(s@) is None,
{
    urlparse::unquote_plus(s).ok()
}

} // verus!
