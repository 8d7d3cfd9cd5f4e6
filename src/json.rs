//! JSON text carried inside packets (status responses, chat components).
use crate::error::DecodeError;
use crate::fields::{parse_string, read_string, DEFAULT_STRING_MAX};
use vstd::prelude::*;

verus! {

/// Whether `serde_json` accepts a text as one JSON value.
pub uninterp spec fn json_accepts(s: Seq<char>) -> bool;

/// Relies on `serde_json::from_str::<serde_json::Value>`: whether the text parses as
/// a JSON value.
#[verifier::external_body]
fn json_text_is_valid(s: &str) -> (r: bool)
    ensures
        r == json_accepts(s@),
{
    serde_json::from_str::<serde_json::Value>(s).is_ok()
}

/// A JSON string field read from the start of `d`: a string of at most 32768 bytes
/// whose text must parse as JSON.
pub open spec fn parse_json_text(d: Seq<u8>) -> Result<(Seq<char>, nat), DecodeError> {
    match parse_string(d, DEFAULT_STRING_MAX) {
        Ok((s, n)) => if json_accepts(s) {
            Ok((s, n))
        } else {
            Err(DecodeError::JsonError)
        },
        Err(e) => Err(e),
    }
}

/// Reads a JSON string field at `pos`, refusing text that is not JSON.
pub fn read_json_text(d: &[u8], pos: usize) -> (r: Result<(String, usize), DecodeError>)
    requires
        pos <= d@.len(),
    ensures
        match parse_json_text(d@.skip(pos as int)) {
            Ok((s, n)) => r is Ok && r->Ok_0.0@ == s && r->Ok_0.1 == pos + n,
            Err(e) => r == Err::<(String, usize), DecodeError>(e),
        },
        r is Ok ==> r->Ok_0.1 <= d@.len(),
{
    let (s, p) = match read_string(d, pos, DEFAULT_STRING_MAX) {
        Ok(v) => v,
        Err(e) => return Err(e),
    };
    if json_text_is_valid(s.as_str()) {
        Ok((s, p))
    } else {
        Err(DecodeError::JsonError)
    }
}

} // verus!
