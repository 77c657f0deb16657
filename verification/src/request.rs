//! A request's guidance message: the base64 text of a structured message.
use crate::guidance::Guidance;
use crate::pathfinder4::{parse, spec_parse, ParseError};
use base64::engine::general_purpose::STANDARD;
use base64::Engine;
use vstd::prelude::*;

verus! {

/// The bytes that base64's standard engine (RFC 4648 alphabet, with padding)
/// decodes `text` into, or `None` where it refuses the text.
pub uninterp spec fn base64_standard_decoded(text: Seq<char>) -> Option<Seq<u8>>;

/// Decodes `data` with base64's `Engine::decode` on the `STANDARD` engine.
///
/// Claimed of base64: the outcome depends on the text alone
/// ([`base64_standard_decoded`]); which texts it accepts and what they decode
/// to is not spelled out here.
#[verifier::external_body]
fn decode_base64(data: &str) -> (r: Option<Vec<u8>>)
    ensures
        match r {
            Some(b) => base64_standard_decoded(data@) == Some(b@),
            None => base64_standard_decoded(data@) is None,
        },
{
    STANDARD.decode(data).ok()
}

/// Why the data of a request was refused.
#[derive(Debug)]
pub enum RequestError {
    /// The data is not base64 text.
    BadBase64,
    /// The decoded bytes are not a structured message that can be parsed.
    BadMessage(ParseError),
}

/// The guidance that the base64 text `data` of a request carries.
pub fn decode_message(data: &str) -> (r: Result<Guidance, RequestError>)
    ensures
        match base64_standard_decoded(data@) {
            None => r matches Err(RequestError::BadBase64),
            Some(b) => match spec_parse(b) {
                Ok(g) => r matches Ok(x) && x@ == g,
                Err(e) => r matches Err(RequestError::BadMessage(x)) && x@ == e,
            },
        },
{
    match decode_base64(data) {
        None => Err(RequestError::BadBase64),
        Some(bytes) => match parse(bytes.as_slice()) {
            Ok(g) => Ok(g),
            Err(e) => Err(RequestError::BadMessage(e)),
        },
    }
}

} // verus!
