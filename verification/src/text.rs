//! Decoding of the byte strings that the Nix C API hands out.

use vstd::prelude::*;
use vstd::utf8::{decode_utf8, encode_utf8, encode_utf8_decode_utf8, encode_utf8_valid_utf8, valid_utf8};

verus! {

/// The text that `String::from_utf8_lossy` makes of a byte string: the
/// decoded characters, with U+FFFD in place of each invalid sequence.
pub uninterp spec fn lossy_utf8(bytes: Seq<u8>) -> Seq<char>;

/// Strict decoding of a byte string that may be absent: absent or invalid
/// UTF-8 gives `None`, valid UTF-8 gives its characters.
pub open spec fn strict_text(bytes: Option<Seq<u8>>) -> Option<Seq<char>> {
    match bytes {
        Some(b) => if valid_utf8(b) { Some(decode_utf8(b)) } else { None },
        None => None,
    }
}

/// Lossy decoding of a byte string that may be absent: absent gives the
/// empty text.
pub open spec fn lossy_text(bytes: Option<Seq<u8>>) -> Seq<char> {
    match bytes {
        Some(b) => lossy_utf8(b),
        None => Seq::empty(),
    }
}

/// The view of an optional byte vector.
pub open spec fn opt_bytes(bytes: Option<Vec<u8>>) -> Option<Seq<u8>> {
    match bytes {
        Some(b) => Some(b@),
        None => None,
    }
}

/// The view of an optional string.
pub open spec fn opt_text(s: Option<String>) -> Option<Seq<char>> {
    match s {
        Some(t) => Some(t@),
        None => None,
    }
}

/// `std::str::from_utf8`: succeeds exactly on valid UTF-8, and then the
/// string holds the decoded characters.
#[verifier::external_body]
pub(crate) fn utf8_str(bytes: &[u8]) -> (res: Option<String>)
    ensures
        res is Some <==> valid_utf8(bytes@),
        res matches Some(s) ==> s@ == decode_utf8(bytes@),
{
    std::str::from_utf8(bytes).ok().map(|s| s.to_string())
}

/// `String::from_utf8_lossy`: the result is the lossy decoding of the
/// bytes, which is the exact decoding where the bytes are valid UTF-8.
#[verifier::external_body]
pub(crate) fn utf8_lossy(bytes: &[u8]) -> (res: String)
    ensures
        res@ == lossy_utf8(bytes@),
        valid_utf8(bytes@) ==> res@ == decode_utf8(bytes@),
{
    String::from_utf8_lossy(bytes).into_owned()
}

/// Decodes a byte string that may be absent (a null C pointer), keeping
/// only valid UTF-8.
pub fn decode_text(bytes: &Option<Vec<u8>>) -> (res: Option<String>)
    ensures
        opt_text(res) == strict_text(opt_bytes(*bytes)),
{
    match bytes {
        Some(b) => utf8_str(b.as_slice()),
        None => None,
    }
}

/// Decodes a byte string that may be absent (a null C pointer), replacing
/// invalid UTF-8; an absent string becomes the empty string.
pub fn decode_text_or_empty(bytes: &Option<Vec<u8>>) -> (res: String)
    ensures
        res@ == lossy_text(opt_bytes(*bytes)),
        bytes matches Some(b) ==> res@ == lossy_utf8(b@),
        bytes is None ==> res@.len() == 0,
        strict_text(opt_bytes(*bytes)) matches Some(t) ==> res@ == t,
{
    match bytes {
        Some(b) => utf8_lossy(b.as_slice()),
        None => String::new(),
    }
}

/// Lossy decoding reads the whole byte string: present bytes give the
/// lossy decoding of all of them, not of a part, and absent bytes give
/// the empty text.
pub proof fn lemma_lossy_text_reads_all_bytes(bytes: Seq<u8>)
    ensures
        lossy_text(Some(bytes)) == lossy_utf8(bytes),
        lossy_text(None) == Seq::<char>::empty(),
{
}

/// Text that the C API passes as UTF-8 is decoded back to the same
/// characters.
pub proof fn lemma_strict_text_roundtrip(chars: Seq<char>)
    ensures
        strict_text(Some(encode_utf8(chars))) == Some(chars),
{
    encode_utf8_valid_utf8(chars);
    encode_utf8_decode_utf8(chars);
}

} // verus!
