//! Transports carry JSON-RPC messages between the client and a server. The
//! channels themselves (a child process, HTTP) are opened by the caller;
//! this module decides which one a server's config asks for and holds the
//! rules of each: the null transport, the reading of stdio lines, the
//! errors of HTTP, and the reading and routing of SSE streams.

pub mod http;
pub mod sse;
pub mod stdio;

use crate::error::McpError;
use crate::jsonrpc::{JsonRpcNotification, JsonRpcRequest, JsonRpcResponse};
use crate::text::{concat, str_eq, to_string};
use vstd::prelude::*;

verus! {

/// The message of every refusal of the null transport.
pub open spec fn null_transport_text() -> Seq<char> {
    "NullTransport: not connected"@
}

/// The error of the null transport: a transport error, not connected.
pub fn null_transport_error() -> (r: McpError)
    ensures
        r is Transport,
        r.detail_spec() == null_transport_text(),
{
    McpError::Transport(to_string("NullTransport: not connected"))
}

/// A transport that is never connected: it refuses to send anything,
/// closes without fault, and is never alive.
#[derive(Debug, Clone, Copy)]
pub struct NullTransport;

impl NullTransport {
    /// Refuses: not connected.
    pub fn send_request(&self, request: &JsonRpcRequest) -> (r: Result<JsonRpcResponse, McpError>)
        ensures
            r matches Err(e) && e is Transport && e.detail_spec() == null_transport_text(),
    {
        Err(null_transport_error())
    }

    /// Refuses: not connected.
    pub fn send_notification(&self, notification: &JsonRpcNotification) -> (r: Result<(), McpError>)
        ensures
            r matches Err(e) && e is Transport && e.detail_spec() == null_transport_text(),
    {
        Err(null_transport_error())
    }

    /// Refuses: not connected.
    pub fn send_response(&self, response: &JsonRpcResponse) -> (r: Result<(), McpError>)
        ensures
            r matches Err(e) && e is Transport && e.detail_spec() == null_transport_text(),
    {
        Err(null_transport_error())
    }

    /// Closing succeeds.
    pub fn close(&self) -> (r: Result<(), McpError>)
        ensures
            r is Ok,
    {
        Ok(())
    }

    /// Never alive.
    pub fn is_alive(&self) -> (r: bool)
        ensures
            !r,
    {
        false
    }
}

/// The channel that a server's config asks for.
#[derive(Debug, Clone)]
pub enum TransportPlan {
    /// Spawn this command and talk over its standard input and output.
    Stdio { command: String },
    /// Post each message to this URL (Streamable HTTP).
    Http { url: String },
    /// Post each message to this URL and read SSE streams back.
    Sse { url: String },
}

/// The message of a config error.
pub open spec fn config_error(r: Result<TransportPlan, McpError>, text: Seq<char>) -> bool {
    r matches Err(e) && e is Config && e.detail_spec() == text
}

/// Decides the transport for a server's config: `stdio` needs a command;
/// `http` and `streamable-http` need a URL, and so does `sse`; any other
/// type is a config error. The caller opens the channel.
pub fn create_transport(transport_type: &str, command: Option<&str>, url: Option<&str>) -> (r:
    Result<TransportPlan, McpError>)
    ensures
        transport_type@ == "stdio"@ ==> match command {
            Some(c) => r matches Ok(TransportPlan::Stdio { command: cmd }) && cmd@ == c@,
            None => config_error(r, "stdio transport requires a command"@),
        },
        (transport_type@ == "http"@ || transport_type@ == "streamable-http"@) ==> match url {
            Some(u) => r matches Ok(TransportPlan::Http { url: x }) && x@ == u@,
            None => config_error(r, "HTTP transport requires a URL"@),
        },
        transport_type@ == "sse"@ ==> match url {
            Some(u) => r matches Ok(TransportPlan::Sse { url: x }) && x@ == u@,
            None => config_error(r, "SSE transport requires a URL"@),
        },
        !(transport_type@ == "stdio"@ || transport_type@ == "http"@ || transport_type@
            == "streamable-http"@ || transport_type@ == "sse"@) ==> config_error(
            r,
            "Unknown transport type: "@ + transport_type@,
        ),
{
    proof {
        reveal_strlit("stdio");
        reveal_strlit("http");
        reveal_strlit("streamable-http");
        reveal_strlit("sse");
        assert("stdio"@.len() == 5 && "http"@.len() == 4 && "streamable-http"@.len() == 15
            && "sse"@.len() == 3);
    }
    if str_eq(transport_type, "stdio") {
        match command {
            Some(c) => Ok(TransportPlan::Stdio { command: to_string(c) }),
            None => Err(McpError::Config(to_string("stdio transport requires a command"))),
        }
    } else if str_eq(transport_type, "http") || str_eq(transport_type, "streamable-http") {
        match url {
            Some(u) => Ok(TransportPlan::Http { url: to_string(u) }),
            None => Err(McpError::Config(to_string("HTTP transport requires a URL"))),
        }
    } else if str_eq(transport_type, "sse") {
        match url {
            Some(u) => Ok(TransportPlan::Sse { url: to_string(u) }),
            None => Err(McpError::Config(to_string("SSE transport requires a URL"))),
        }
    } else {
        Err(McpError::Config(concat("Unknown transport type: ", transport_type)))
    }
}

} // verus!
