//! Decoding what the transport received into a response.

use vstd::prelude::*;
use crate::client::{SeewoError, SeewoResponse};

verus! {

#[verifier::external_type_specification]
#[verifier::external_body]
pub struct ExJsonError(serde_json::Error);

/// Whether `text` is a JSON document.
pub uninterp spec fn json_parse_ok(text: Seq<char>) -> bool;

/// Relies on `serde_json::from_str` into a `Value`, which succeeds exactly on
/// JSON text; the outcome depends on the text alone.
#[verifier::external_body]
fn parse_json(text: &str) -> (r: Result<serde_json::Value, serde_json::Error>)
    ensures
        r is Ok == json_parse_ok(text@),
{
    serde_json::from_str(text)
}

/// A success status: 200 to 299.
pub open spec fn is_success(status: u16) -> bool {
    200 <= status <= 299
}

/// Fails with the status code unless it is a success.
pub fn check_status(status: u16) -> (r: Result<(), SeewoError>)
    ensures
        is_success(status) ==> r is Ok,
        !is_success(status) ==> r == Err::<(), SeewoError>(SeewoError::ResponseStatusCodeError { status_code: status }),
{
    if 200 <= status && status <= 299 {
        Ok(())
    } else {
        Err(SeewoError::ResponseStatusCodeError { status_code: status })
    }
}

/// The response from a status, the `x-sw-req-id` and `x-sw-message`
/// headers, and the body text. A failing status wins over any body.
pub fn decode_response(
    status: u16,
    request_id: Option<String>,
    message: Option<String>,
    text: &str,
) -> (r: Result<SeewoResponse, SeewoError>)
    ensures
        !is_success(status) ==> r == Err::<SeewoResponse, SeewoError>(
            SeewoError::ResponseStatusCodeError { status_code: status },
        ),
        is_success(status) && !json_parse_ok(text@) ==> r == Err::<SeewoResponse, SeewoError>(SeewoError::JsonError),
        is_success(status) && json_parse_ok(text@) ==> (r matches Ok(resp) && resp.request_id == request_id
            && resp.message == message),
{
    match check_status(status) {
        Ok(_) => {},
        Err(e) => return Err(e),
    }
    match parse_json(text) {
        Ok(body) => Ok(SeewoResponse { request_id, message, body }),
        Err(_) => Err(SeewoError::JsonError),
    }
}

} // verus!
