//! The rules of the stdio transport: how a line the server writes is read,
//! and the errors of a request that gets no answer.

use crate::error::McpError;
use crate::jsonrpc::{parse_incoming, parse_incoming_spec, IncomingMessage, IncomingView};
use crate::text::{concat, push_str, trim, trim_spec};
use vstd::prelude::*;

verus! {

/// How a line from the server is read: trimmed of white space, an empty
/// line is skipped, any other is read as a message (and skipped where it is
/// none).
pub open spec fn line_message(line: Seq<char>) -> Option<IncomingView> {
    if trim_spec(line).len() == 0 {
        None
    } else {
        parse_incoming_spec(trim_spec(line))
    }
}

/// Reads a line that the server wrote.
pub fn read_line(line: &str) -> (r: Option<IncomingMessage>)
    ensures
        crate::jsonrpc::opt_incoming_view(r) == line_message(line@),
{
    let t = trim(line);
    if t.as_str().is_empty() {
        None
    } else {
        parse_incoming(t.as_str())
    }
}

/// The error of a request that got no answer in time; `key` is its id.
pub fn timeout_error(key: &str, seconds: u64) -> (r: McpError)
    ensures
        r is Timeout,
        r.detail_spec() == "Request "@ + key@ + " timed out after "@ + crate::text::decimal(
            seconds as nat,
        ) + "s"@,
{
    let mut m = concat("Request ", key);
    push_str(&mut m, " timed out after ");
    let d = crate::text::u64_to_decimal(seconds);
    push_str(&mut m, d.as_str());
    push_str(&mut m, "s");
    McpError::Timeout(m)
}

/// The error of a command that could not be started.
pub fn spawn_error(command: &str, detail: &str) -> (r: McpError)
    ensures
        r is Transport,
        r.detail_spec() == "Failed to spawn '"@ + command@ + "': "@ + detail@,
{
    let mut m = concat("Failed to spawn '", command);
    push_str(&mut m, "': ");
    push_str(&mut m, detail);
    McpError::Transport(m)
}

} // verus!
