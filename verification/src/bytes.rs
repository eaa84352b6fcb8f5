//! Decoding of the fixed-width values an AVI file is built from: little-endian
//! integers and four-byte tags.

use vstd::prelude::*;
use vstd::utf8::{
    decode_utf8, encode_utf8, encode_utf8_decode_utf8, encode_utf8_valid_utf8, is_ascii_chars,
    is_ascii_chars_encode_utf8, valid_utf8,
};
use crate::error::{AviError, ErrorKind};

verus! {

/// The unsigned 16-bit value stored little-endian at `at`.
pub open spec fn le_u16(data: Seq<u8>, at: int) -> u16 {
    (data[at] + 256 * data[at + 1]) as u16
}

/// The unsigned 32-bit value stored little-endian at `at`.
pub open spec fn le_u32(data: Seq<u8>, at: int) -> u32 {
    (data[at] + 256 * data[at + 1] + 65536 * data[at + 2] + 16777216 * data[at + 3]) as u32
}

/// The signed 32-bit value stored little-endian, in two's complement, at `at`.
pub open spec fn le_i32(data: Seq<u8>, at: int) -> i32 {
    let u = le_u32(data, at) as int;
    if u < 0x8000_0000 {
        u as i32
    } else {
        (u - 0x1_0000_0000) as i32
    }
}

/// The four bytes `a b c d` as a tag.
pub open spec fn tag(a: u8, b: u8, c: u8, d: u8) -> Seq<u8> {
    seq![a, b, c, d]
}

/// Whether the four bytes at `at` exist and spell the given tag.
pub open spec fn has_tag(data: Seq<u8>, at: int, t: Seq<u8>) -> bool {
    0 <= at && at + 4 <= data.len() && data.subrange(at, at + 4) == t
}

/// The text of a tag or name: `Ok` with the decoded characters where the bytes
/// are valid UTF-8, the text-decoding error where they are not.
pub open spec fn spec_text(bytes: Seq<u8>) -> Result<Seq<char>, ErrorKind> {
    if valid_utf8(bytes) {
        Ok(decode_utf8(bytes))
    } else {
        Err(ErrorKind::String)
    }
}

/// Each byte read as the character with that code.
pub open spec fn ascii_text(bytes: Seq<u8>) -> Seq<char> {
    Seq::new(bytes.len(), |i: int| bytes[i] as char)
}

/// Bytes below 128 always decode, each to the character with its code.
pub proof fn lemma_ascii_text(bytes: Seq<u8>)
    requires
        forall|i: int| 0 <= i < bytes.len() ==> bytes[i] < 128,
    ensures
        spec_text(bytes) == Ok::<Seq<char>, ErrorKind>(ascii_text(bytes)),
{
    let chars = ascii_text(bytes);
    assert(is_ascii_chars(chars));
    is_ascii_chars_encode_utf8(chars);
    assert(encode_utf8(chars) =~= bytes);
    encode_utf8_valid_utf8(chars);
    encode_utf8_decode_utf8(chars);
}

/// Whether `t` spells the tag `a b c d`.
pub fn tag_is(t: &[u8; 4], a: u8, b: u8, c: u8, d: u8) -> (same: bool)
    ensures
        same == (t@ == tag(a, b, c, d)),
{
    let same = t[0] == a && t[1] == b && t[2] == c && t[3] == d;
    proof {
        if same {
            assert(t@ =~= tag(a, b, c, d));
        } else {
            assert(tag(a, b, c, d)[0] == a && tag(a, b, c, d)[1] == b && tag(a, b, c, d)[2] == c
                && tag(a, b, c, d)[3] == d);
        }
    }
    same
}

/// `String::from_utf8`: succeeds exactly on valid UTF-8, and then yields the
/// characters those bytes encode.
#[verifier::external_body]
fn string_from_utf8(bytes: Vec<u8>) -> (r: Result<String, std::string::FromUtf8Error>)
    ensures
        r is Ok <==> valid_utf8(bytes@),
        r matches Ok(s) ==> s@ == decode_utf8(bytes@),
{
    String::from_utf8(bytes)
}

/// Decodes the bytes of a tag as text.
pub fn vec_u8_to_string(x: Vec<u8>) -> (r: Result<String, AviError>)
    ensures
        match spec_text(x@) {
            Ok(text) => r matches Ok(s) && s@ == text,
            Err(k) => r matches Err(e) && e@ == k,
        },
{
    match string_from_utf8(x) {
        Ok(s) => Ok(s),
        Err(e) => Err(AviError::String(e)),
    }
}

/// Decodes a four-byte tag as text.
pub fn tag_to_string(t: &[u8; 4]) -> (r: Result<String, AviError>)
    ensures
        match spec_text(t@) {
            Ok(text) => r matches Ok(s) && s@ == text,
            Err(k) => r matches Err(e) && e@ == k,
        },
{
    let mut v: Vec<u8> = Vec::new();
    v.push(t[0]);
    v.push(t[1]);
    v.push(t[2]);
    v.push(t[3]);
    assert(v@ =~= t@);
    vec_u8_to_string(v)
}

} // verus!
