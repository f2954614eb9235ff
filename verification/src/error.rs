//! The toolkit's error type.

use vstd::prelude::*;

verus! {

/// Errors of the toolkit. Each carries the text of its cause.
#[derive(Debug, Clone)]
pub enum McpError {
    Protocol(String),
    Transport(String),
    Config(String),
    Registry(String),
    Server(String),
    Security(String),
    Timeout(String),
    NotFound(String),
    /// An I/O failure, by its message.
    Io(String),
    /// A JSON failure, by its message.
    Json(String),
    Http(String),
}

impl McpError {
    /// The prefix that the display text puts before the cause.
    pub open spec fn prefix_spec(&self) -> Seq<char> {
        match self {
            McpError::Protocol(_) => "MCP protocol error: "@,
            McpError::Transport(_) => "Transport error: "@,
            McpError::Config(_) => "Config error: "@,
            McpError::Registry(_) => "Registry error: "@,
            McpError::Server(_) => "Server error: "@,
            McpError::Security(_) => "Security error: "@,
            McpError::Timeout(_) => "Timeout: "@,
            McpError::NotFound(_) => "Not found: "@,
            McpError::Io(_) => "IO error: "@,
            McpError::Json(_) => "JSON error: "@,
            McpError::Http(_) => "HTTP error: "@,
        }
    }

    /// The cause that the error carries.
    pub open spec fn detail_spec(&self) -> Seq<char> {
        match self {
            McpError::Protocol(s) => s@,
            McpError::Transport(s) => s@,
            McpError::Config(s) => s@,
            McpError::Registry(s) => s@,
            McpError::Server(s) => s@,
            McpError::Security(s) => s@,
            McpError::Timeout(s) => s@,
            McpError::NotFound(s) => s@,
            McpError::Io(s) => s@,
            McpError::Json(s) => s@,
            McpError::Http(s) => s@,
        }
    }

    /// The display text of the error.
    pub open spec fn text_spec(&self) -> Seq<char> {
        self.prefix_spec() + self.detail_spec()
    }

    /// The cause that the error carries.
    pub fn detail(&self) -> (r: &String)
        ensures
            r@ == self.detail_spec(),
    {
        match self {
            McpError::Protocol(s) => s,
            McpError::Transport(s) => s,
            McpError::Config(s) => s,
            McpError::Registry(s) => s,
            McpError::Server(s) => s,
            McpError::Security(s) => s,
            McpError::Timeout(s) => s,
            McpError::NotFound(s) => s,
            McpError::Io(s) => s,
            McpError::Json(s) => s,
            McpError::Http(s) => s,
        }
    }

    /// The display text of the error, such as `MCP protocol error: ...`.
    pub fn to_string(&self) -> (r: String)
        ensures
            r@ == self.text_spec(),
    {
        let prefix = match self {
            McpError::Protocol(_) => "MCP protocol error: ",
            McpError::Transport(_) => "Transport error: ",
            McpError::Config(_) => "Config error: ",
            McpError::Registry(_) => "Registry error: ",
            McpError::Server(_) => "Server error: ",
            McpError::Security(_) => "Security error: ",
            McpError::Timeout(_) => "Timeout: ",
            McpError::NotFound(_) => "Not found: ",
            McpError::Io(_) => "IO error: ",
            McpError::Json(_) => "JSON error: ",
            McpError::Http(_) => "HTTP error: ",
        };
        crate::text::concat(prefix, self.detail().as_str())
    }
}

} // verus!
