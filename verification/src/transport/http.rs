//! The rules of the HTTP transports: the session id that a server hands
//! out and the client sends back, the reading of a reply, and the errors
//! of a failed exchange.

use crate::error::McpError;
use crate::json::{json_parse, parse_json};
use crate::jsonrpc::{response_from, response_from_value, JsonRpcResponse};
use crate::text::{push_str, take_chars, take_chars_spec, to_string};
use vstd::prelude::*;

verus! {

/// The session id to send after a reply: the one the reply's
/// `mcp-session-id` header gives, else the one held before.
pub fn session_after(current: Option<String>, header: Option<&str>) -> (r: Option<String>)
    ensures
        match header {
            Some(h) => r matches Some(s) && s@ == h@,
            None => r == current,
        },
{
    match header {
        Some(h) => Some(to_string(h)),
        None => current,
    }
}

/// The text of a failed HTTP exchange: the status, then the first 200
/// characters of the body.
pub open spec fn http_error_text(status: Seq<char>, body: Seq<char>) -> Seq<char> {
    "HTTP "@ + status + ": "@ + take_chars_spec(body, 200)
}

/// The error for a reply whose status is not a success; `status` is the
/// status as it displays (`404 Not Found`).
pub fn http_error(status: &str, body: &str) -> (r: McpError)
    ensures
        r is Http,
        r.detail_spec() == http_error_text(status@, body@),
{
    let mut m = to_string("HTTP ");
    push_str(&mut m, status);
    push_str(&mut m, ": ");
    let b = take_chars(body, 200);
    push_str(&mut m, b.as_str());
    McpError::Http(m)
}

/// The text of a reply that is not a JSON-RPC response: the parser's
/// message, then the first 200 characters of the body.
pub open spec fn bad_response_text(detail: Seq<char>, body: Seq<char>) -> Seq<char> {
    "Failed to parse HTTP response as JSON-RPC: "@ + detail + " (body: "@ + take_chars_spec(
        body,
        200,
    ) + ")"@
}

/// The error for a reply body that is not a JSON-RPC response.
pub fn bad_response(detail: &str, body: &str) -> (r: McpError)
    ensures
        r is Protocol,
        r.detail_spec() == bad_response_text(detail@, body@),
{
    let mut m = to_string("Failed to parse HTTP response as JSON-RPC: ");
    push_str(&mut m, detail);
    push_str(&mut m, " (body: ");
    let b = take_chars(body, 200);
    push_str(&mut m, b.as_str());
    push_str(&mut m, ")");
    McpError::Protocol(m)
}

/// The error of an HTTP call that failed before a reply: a timeout where
/// the call timed out, an HTTP error otherwise, with the failure's text.
pub fn http_failure(timed_out: bool, text: &str) -> (r: McpError)
    ensures
        timed_out ==> r is Timeout,
        !timed_out ==> r is Http,
        r.detail_spec() == text@,
{
    if timed_out {
        McpError::Timeout(to_string(text))
    } else {
        McpError::Http(to_string(text))
    }
}

/// What a reply body whose JSON does not fit a response is reported with.
pub open spec fn not_a_response_text() -> Seq<char> {
    "not a JSON-RPC response"@
}

/// Reads a reply body as a JSON-RPC response: the response where the body
/// is JSON that reads as one; otherwise a protocol error carrying the
/// parser's message (or `not a JSON-RPC response` where the JSON does not
/// fit) and the start of the body.
pub fn read_response(text: &str) -> (r: Result<JsonRpcResponse, McpError>)
    ensures
        match json_parse(text@) {
            Some(d) => match response_from(d) {
                Some(x) => r matches Ok(resp) && resp@ == x,
                None => r matches Err(e) && e is Protocol && e.detail_spec() == bad_response_text(
                    not_a_response_text(),
                    text@,
                ),
            },
            None => r matches Err(e) && e is Protocol && exists|m: Seq<char>|
                e.detail_spec() == #[trigger] bad_response_text(m, text@),
        },
{
    match parse_json(text) {
        Ok(v) => match response_from_value(&v) {
            Some(resp) => Ok(resp),
            None => Err(bad_response("not a JSON-RPC response", text)),
        },
        Err(msg) => {
            let e = bad_response(msg.as_str(), text);
            assert(e.detail_spec() == bad_response_text(msg@, text@));
            Err(e)
        },
    }
}

} // verus!
