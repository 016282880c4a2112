//! Text on the wire: UTF-8 followed by one NUL byte.
use vstd::prelude::*;
use vstd::slice::slice_subrange;
use vstd::string::StringSliceAdditionalSpecFns;
use vstd::utf8::{decode_utf8, encode_utf8, valid_utf8};
use crate::errors::DecodeError;

verus! {

/// The bytes of a text: its UTF-8 encoding and the NUL that ends it.
pub open spec fn text_wire(s: Seq<char>) -> Seq<u8> {
    encode_utf8(s).push(0u8)
}

/// The text that `b` holds. The last byte must be the only NUL, and what
/// stands before it must be UTF-8; anything else is malformed.
pub open spec fn text_parse(b: Seq<u8>) -> Result<Seq<char>, DecodeError> {
    if b.len() >= 1 && b.last() == 0u8 && !b.drop_last().contains(0u8) && valid_utf8(
        b.drop_last(),
    ) {
        Ok(decode_utf8(b.drop_last()))
    } else {
        Err(DecodeError::Malformed)
    }
}

/// The model of the outcome of reading a text.
pub open spec fn text_view(r: Result<String, DecodeError>) -> Result<Seq<char>, DecodeError> {
    match r {
        Ok(s) => Ok(s@),
        Err(e) => Err(e),
    }
}

/// `core::str::from_utf8`: the bytes as a string slice if they are UTF-8,
/// nothing if they are not. The slice holds the very bytes that were given.
#[verifier::external_body]
fn str_from_utf8(bytes: &[u8]) -> (r: Option<&str>)
    ensures
        r is Some <==> valid_utf8(bytes@),
        r matches Some(s) ==> s.spec_bytes() == bytes@,
{
    core::str::from_utf8(bytes).ok()
}

/// Whether no byte of `bytes` is NUL.
fn has_no_nul(bytes: &[u8]) -> (r: bool)
    ensures
        r == !bytes@.contains(0u8),
{
    let mut i: usize = 0;
    while i < bytes.len()
        invariant
            i <= bytes.len(),
            forall|j: int| 0 <= j < i ==> bytes@[j] != 0u8,
        decreases bytes.len() - i,
    {
        if bytes[i] == 0 {
            return false;
        }
        i += 1;
    }
    true
}

/// Reads a NUL-terminated text.
pub fn parse_string(payload: &[u8]) -> (r: Result<String, DecodeError>)
    ensures
        text_view(r) == text_parse(payload@),
{
    let len: usize = payload.len();
    if len == 0 {
        return Err(DecodeError::Malformed);
    }
    if payload[len - 1] != 0 {
        return Err(DecodeError::Malformed);
    }
    let text = slice_subrange(payload, 0, len - 1);
    assert(text@ =~= payload@.drop_last());
    if !has_no_nul(text) {
        return Err(DecodeError::Malformed);
    }
    match str_from_utf8(text) {
        None => Err(DecodeError::Malformed),
        Some(s) => {
            proof {
                vstd::utf8::encode_utf8_decode_utf8(s@);
            }
            Ok(s.to_owned())
        },
    }
}

/// Writing a text and reading it again gives the text back, unless its
/// encoding holds a NUL byte.
pub proof fn lemma_text_round_trip(s: Seq<char>)
    requires
        !encode_utf8(s).contains(0u8),
    ensures
        text_parse(text_wire(s)) == Ok::<Seq<char>, DecodeError>(s),
{
    assert(text_wire(s).drop_last() =~= encode_utf8(s));
    vstd::utf8::encode_utf8_valid_utf8(s);
    vstd::utf8::encode_utf8_decode_utf8(s);
}

} // verus!
