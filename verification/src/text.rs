//! The boundary between bytes and text: UTF-8 decoding is left to the standard
//! library, and what it is trusted to do is stated here.

use vstd::prelude::*;
use vstd::utf8::{decode_utf8, valid_utf8};

verus! {

/// The standard library's account of why bytes are not UTF-8. Opaque here: it
/// is only carried to the caller.
#[verifier::external_type_specification]
#[verifier::external_body]
pub struct ExFromUtf8Error(std::string::FromUtf8Error);

/// Text could not be decoded from the bytes that were asked for.
#[derive(Debug)]
pub struct DecodeError {
    /// What the decoder said of the bytes.
    pub cause: std::string::FromUtf8Error,
}

/// Calls `String::from_utf8`. Trusted: it succeeds exactly on well-formed
/// UTF-8, and the text it returns is the one those bytes encode.
#[verifier::external_body]
pub(crate) fn string_from_utf8(bytes: Vec<u8>) -> (decoded: Result<
    String,
    std::string::FromUtf8Error,
>)
    ensures
        decoded is Ok <==> valid_utf8(bytes@),
        decoded matches Ok(text) ==> text@ == decode_utf8(bytes@),
{
    String::from_utf8(bytes)
}

/// Decodes `bytes` as UTF-8 text, or says why they are not.
pub fn decode_text(bytes: Vec<u8>) -> (decoded: Result<String, DecodeError>)
    ensures
        decoded is Ok <==> valid_utf8(bytes@),
        decoded matches Ok(text) ==> text@ == decode_utf8(bytes@),
{
    match string_from_utf8(bytes) {
        Ok(text) => Ok(text),
        Err(cause) => Err(DecodeError { cause }),
    }
}

} // verus!
