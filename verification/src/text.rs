//! Source artifacts are bytes; the compilers take text.

use crate::error::{QueryError, QueryErrorView};
use vstd::prelude::*;
use vstd::utf8::{decode_utf8, valid_utf8};

verus! {

/// `std::string::FromUtf8Error`, the error of `String::from_utf8`. Nothing
/// is claimed of what it holds.
#[verifier::external_type_specification]
#[verifier::external_body]
pub struct ExFromUtf8Error(std::string::FromUtf8Error);

/// `String::from_utf8` of the standard library. It is taken on trust that
/// it succeeds exactly on the byte sequences that are well-formed UTF-8,
/// and that the string it then returns holds the characters which those
/// bytes encode.
pub assume_specification[ String::from_utf8 ](vec: Vec<u8>) -> (r: Result<
    String,
    std::string::FromUtf8Error,
>)
    ensures
        r is Ok <==> valid_utf8(vec@),
        r matches Ok(text) ==> text@ == decode_utf8(vec@),
;

/// Decodes the content stored under `key` as text. Content that is not
/// well-formed UTF-8 is reported as `InvalidEncoding`, with the key.
pub fn decode_text(key: &String, content: Vec<u8>) -> (r: Result<String, QueryError>)
    ensures
        match r {
            Ok(text) => valid_utf8(content@) && text@ == decode_utf8(content@),
            Err(e) => !valid_utf8(content@) && e@ == QueryErrorView::InvalidEncoding(key@),
        },
{
    match String::from_utf8(content) {
        Ok(text) => Ok(text),
        Err(_) => Err(QueryError::InvalidEncoding(key.clone())),
    }
}

} // verus!
