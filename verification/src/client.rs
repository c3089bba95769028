//! The pure halves of the HTTP exchange: the request target and
//! credential header, the success-status rule, and the extraction of
//! the assistant's reply from the provider's JSON response.
//!
//! The transport itself (the POST and the awaiting of the response)
//! lives with the caller; everything before and after it is here.

use vstd::prelude::*;
use crate::config::ApiConfig;
use crate::errors::PipelineError;
use crate::sanitize::{clean_latex, sanitize_spec};
use crate::text::{is_trimmed, trim_spec, trim_str};

verus! {

/// Whether a body text is a well-formed JSON document, as
/// `serde_json::from_str::<Value>` decides it: a function of the text
/// alone.
pub uninterp spec fn json_parses(body: Seq<char>) -> bool;

/// The string at `choices[0].message.content` of a JSON body, when
/// the body is well-formed and that path holds a string: a function
/// of the text alone.
pub uninterp spec fn reply_text_of(body: Seq<char>) -> Option<Seq<char>>;

/// Relies on `serde_json::from_str::<Value>`, `Value::get` and
/// `Value::as_str`: parsing succeeds exactly on well-formed JSON, and
/// the walk to `choices[0].message.content` yields its string payload
/// when the path holds one, `None` otherwise — both functions of the
/// body text alone.
#[verifier::external_body]
fn parse_reply(body: &str) -> (r: Result<Option<String>, String>)
    ensures
        r is Ok <==> json_parses(body@),
        (r matches Ok(c) ==> (c is Some <==> reply_text_of(body@) is Some) && (c matches Some(s)
            ==> reply_text_of(body@) matches Some(t) && s@ == t)),
{
    match serde_json::from_str::<serde_json::Value>(body) {
        Ok(v) => Ok(
            v.get("choices")
                .and_then(|c| c.get(0))
                .and_then(|m| m.get("message"))
                .and_then(|msg| msg.get("content"))
                .and_then(|c| c.as_str())
                .map(|s| s.to_string()),
        ),
        Err(e) => Err(e.to_string()),
    }
}

/// The assistant text a 2xx body yields under the tolerance rule: the
/// content string trimmed when the path holds one, the empty string
/// when it is missing or not a string.
pub open spec fn extracted_reply(body: Seq<char>) -> Seq<char> {
    match reply_text_of(body) {
        Some(c) => trim_spec(c),
        None => Seq::<char>::empty(),
    }
}

/// The completions endpoint under the configured base URL.
pub fn completions_url(config: &ApiConfig) -> (r: String)
    ensures
        r@ == config.api_url@ + "/chat/completions"@,
{
    config.api_url.clone().concat("/chat/completions")
}

/// The value of the `Authorization` header: the bearer credential.
pub fn bearer_token(config: &ApiConfig) -> (r: String)
    ensures
        r@ == "Bearer "@ + config.api_key@,
{
    String::from_str("Bearer ").concat(config.api_key.as_str())
}

/// The success-status rule: a 2xx response hands its body on
/// unchanged; any other status fails with `Http` carrying the numeric
/// status and the raw body.
pub fn check_status(status: u16, body: String) -> (r: Result<String, PipelineError>)
    ensures
        200 <= status < 300 ==> (r matches Ok(b) && b@ == body@),
        !(200 <= status < 300) ==> (r matches Err(PipelineError::Http(s, b)) && s == status && b@
            == body@),
{
    if 200 <= status && status < 300 {
        Ok(body)
    } else {
        Err(PipelineError::Http(status, body))
    }
}

/// Parses a response body and walks `choices[0].message.content` to
/// the assistant's text, trimmed. A body that is not JSON fails with
/// `Parse`; a missing or non-string path degrades to the empty string
/// rather than failing: a slightly divergent provider response yields
/// empty output, not an abort.
pub fn extract_reply(body: &str) -> (r: Result<String, PipelineError>)
    ensures
        r is Ok <==> json_parses(body@),
        (r matches Ok(s) ==> s@ == extracted_reply(body@) && is_trimmed(s@)),
        (r matches Err(e) ==> e matches PipelineError::Parse(_)),
{
    match parse_reply(body) {
        Err(m) => Err(PipelineError::Parse(m)),
        Ok(None) => {
            proof {
                reveal_strlit("");
            }
            Ok(String::from_str(""))
        },
        Ok(Some(s)) => Ok(trim_str(s.as_str())),
    }
}

/// The pure tail of a recognition exchange, applied to the HTTP
/// status and body that came back: enforces the success-status rule,
/// parses the body as JSON, extracts the assistant's reply, and
/// sanitizes it into LaTeX. A non-2xx status fails with `Http`
/// exactly as [`check_status`] states; a 2xx body that is not JSON
/// fails with `Parse`; a 2xx body that parses succeeds with the
/// sanitizer applied to the extracted reply.
pub fn handle_response(status: u16, body: String) -> (r: Result<String, PipelineError>)
    ensures
        !(200 <= status < 300) ==> (r matches Err(PipelineError::Http(s, b)) && s == status && b@
            == body@),
        200 <= status < 300 && json_parses(body@) ==> (r matches Ok(s) && s@ == sanitize_spec(
            extracted_reply(body@),
        )),
        200 <= status < 300 && !json_parses(body@) ==> r matches Err(PipelineError::Parse(_)),
        (r matches Ok(s) ==> 200 <= status < 300 && is_trimmed(s@)),
{
    let ok_body = match check_status(status, body) {
        Ok(b) => b,
        Err(e) => {
            return Err(e);
        },
    };
    let reply = match extract_reply(ok_body.as_str()) {
        Ok(s) => s,
        Err(e) => {
            return Err(e);
        },
    };
    Ok(clean_latex(reply.as_str()))
}

} // verus!
