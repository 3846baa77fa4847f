//! Splitting a response into its outcome: exactly one of `result` and
//! `error` must be present.
use crate::error::LspError;
use crate::messages::ResponseMessage;
use vstd::prelude::*;

verus! {

/// The two-level outcome of a call: `Ok(Ok(result))` on success,
/// `Ok(Err(error))` when the server answered with an error object, and
/// `Err(Protocol)` exactly when the response carries neither or both.
pub fn handle_response(response: ResponseMessage) -> (r: Result<
    Result<serde_json::Value, serde_json::Value>,
    LspError,
>)
    ensures
        match r {
            Ok(inner) => match inner {
                Ok(v) => response.result == Some(v) && response.error is None,
                Err(e) => response.error == Some(e) && response.result is None,
            },
            Err(e) => e is Protocol && (response.result is Some) == (response.error is Some),
        },
{
    match (response.result, response.error) {
        (Some(result), None) => Ok(Ok(result)),
        (None, Some(error)) => Ok(Err(error)),
        _ => Err(LspError::Protocol),
    }
}

} // verus!
