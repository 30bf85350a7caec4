//! The outbound chat API's request and response shapes, and the envelope
//! rule every call shares: a response with `ok == false` carries an error
//! code and surfaces as an API error.
//!
//! The HTTP transport lives outside this crate; it hands the decoded
//! envelopes back here to be checked.

use vstd::prelude::*;
use vstd::string::StringExecFns;
use crate::error::SlackError;

verus! {

/// A message-posting request; blocks are carried as raw JSON text.
pub struct PostMessageRequest {
    pub channel: String,
    pub text: Option<String>,
    pub blocks: Option<Vec<String>>,
    pub thread_ts: Option<String>,
}

/// The envelope of a message-posting response.
pub struct PostMessageResponse {
    pub ok: bool,
    pub error: Option<String>,
    pub channel: Option<String>,
    pub ts: Option<String>,
}

/// A message-update request; blocks are carried as raw JSON text.
pub struct UpdateMessageRequest {
    pub channel: String,
    pub ts: String,
    pub text: Option<String>,
    pub blocks: Option<Vec<String>>,
}

/// The envelope of a message-update response.
pub struct UpdateMessageResponse {
    pub ok: bool,
    pub error: Option<String>,
    pub channel: Option<String>,
    pub ts: Option<String>,
    pub text: Option<String>,
}

/// A message-deletion request.
pub struct DeleteMessageRequest {
    pub channel: String,
    pub ts: String,
}

/// The envelope of a message-deletion response.
pub struct DeleteMessageResponse {
    pub ok: bool,
    pub error: Option<String>,
    pub channel: Option<String>,
    pub ts: Option<String>,
}

/// The API error denoted by a non-ok envelope: its code is the envelope's
/// error string, or empty when the envelope named none.
pub open spec fn api_error_code(error: Option<Seq<char>>) -> Seq<char> {
    match error {
        Some(e) => e,
        None => Seq::empty(),
    }
}

/// Checks an envelope: `ok` passes, anything else is the API error carrying
/// the envelope's code.
pub fn check_envelope(ok: bool, error: Option<String>) -> (r: core::result::Result<
    (),
    SlackError,
>)
    ensures
        r is Ok <==> ok,
        !ok ==> (r matches Err(e) && (e matches SlackError::SlackApi { code, message } && code@
            == api_error_code(error.deep_view()) && message@ == "API call failed"@)),
{
    if ok {
        Ok(())
    } else {
        let code = match error {
            Some(e) => e,
            None => String::new(),
        };
        Err(SlackError::SlackApi { code, message: String::from_str("API call failed") })
    }
}

} // verus!
