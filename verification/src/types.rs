//! Agent-framework-agnostic data types of the toolkit.

use crate::json::JsonValue;
use vstd::prelude::*;

verus! {

// ── Tool Descriptors (what agents see) ──────────────────────────────

/// Description of a tool exposed by an MCP server.
#[derive(Debug, Clone)]
pub struct McpToolDescriptor {
    /// Display name `server:tool`; unique where server names are distinct
    /// and hold no `:` and each server's tool names are distinct.
    pub display_name: String,
    /// The tool's own name on its MCP server.
    pub tool_name: String,
    /// Which MCP server this tool belongs to.
    pub server_name: String,
    /// Human-readable description for the AI model.
    pub description: String,
    /// JSON Schema for tool parameters.
    pub input_schema: JsonValue,
    /// JSON Schema for structured output.
    pub output_schema: Option<JsonValue>,
}

/// Result from calling an MCP tool.
#[derive(Debug, Clone)]
pub struct McpToolResult {
    pub content: String,
    pub is_error: bool,
    /// Structured output if the tool declared an output schema.
    pub structured: Option<JsonValue>,
}

// ── Resource Types ──────────────────────────────────────────────────

/// A resource exposed by an MCP server.
#[derive(Debug, Clone)]
pub struct McpResource {
    /// Resource URI (e.g., "file:///project/src/main.rs").
    pub uri: String,
    /// Short name.
    pub name: String,
    /// Human-readable title.
    pub title: Option<String>,
    /// Description.
    pub description: Option<String>,
    /// MIME type.
    pub mime_type: Option<String>,
}

/// Content of a resource.
#[derive(Debug, Clone)]
pub struct McpResourceContent {
    pub uri: String,
    pub mime_type: Option<String>,
    /// Text content (if text-based).
    pub text: Option<String>,
    /// Base64-encoded binary content.
    pub blob: Option<String>,
}

// ── Prompt Types ────────────────────────────────────────────────────

/// A prompt template exposed by an MCP server.
#[derive(Debug, Clone)]
pub struct McpPrompt {
    pub name: String,
    pub description: Option<String>,
    pub arguments: Vec<McpPromptArgument>,
}

/// An argument for a prompt template.
#[derive(Debug, Clone)]
pub struct McpPromptArgument {
    pub name: String,
    pub description: Option<String>,
    pub required: bool,
}

/// A message in a prompt template result.
#[derive(Debug, Clone)]
pub struct McpPromptMessage {
    pub role: String,
    pub content: McpMessageContent,
}

/// Content of a message.
#[derive(Debug, Clone)]
pub enum McpMessageContent {
    Text { text: String },
    Image { data: String, mime_type: String },
    Resource { resource: McpResourceContent },
}

// ── Sampling Types (server→client LLM calls) ───────────────────────

/// The token budget of a sampling request that names none.
pub fn default_max_tokens() -> (r: u32)
    ensures
        r == 1024,
{
    1024
}

/// A message in a sampling request.
#[derive(Debug, Clone)]
pub struct SamplingMessage {
    pub role: String,
    pub content: McpMessageContent,
}

/// Hint for model selection.
#[derive(Debug, Clone)]
pub struct ModelHint {
    pub name: String,
}

/// Response to a sampling request.
#[derive(Debug, Clone)]
pub struct SamplingResponse {
    pub role: String,
    pub content: McpMessageContent,
    pub model: String,
    pub stop_reason: Option<String>,
}

// ── Elicitation Types ───────────────────────────────────────────────

/// An elicitation request from an MCP server.
#[derive(Debug, Clone)]
pub struct ElicitationRequest {
    pub message: String,
    pub requested_schema: Option<JsonValue>,
}

/// Response to an elicitation request.
#[derive(Debug, Clone)]
pub struct ElicitationResponse {
    pub action: ElicitationAction,
    pub content: Option<JsonValue>,
}

/// User's action on an elicitation request.
#[derive(Debug, Clone, Copy, PartialEq, Eq, Structural)]
pub enum ElicitationAction {
    Accept,
    Decline,
    Cancel,
}

// ── Capabilities ────────────────────────────────────────────────────

/// Capabilities declared by an MCP server after initialization.
#[derive(Debug, Clone, Copy, PartialEq, Eq, Structural)]
pub struct ServerCapabilities {
    pub tools: bool,
    pub resources: bool,
    pub resource_subscribe: bool,
    pub prompts: bool,
    pub logging: bool,
}

impl Default for ServerCapabilities {
    fn default() -> (r: Self)
        ensures
            !r.tools && !r.resources && !r.resource_subscribe && !r.prompts && !r.logging,
    {
        ServerCapabilities {
            tools: false,
            resources: false,
            resource_subscribe: false,
            prompts: false,
            logging: false,
        }
    }
}

/// Capabilities declared by the client during initialization.
#[derive(Debug, Clone, Copy, PartialEq, Eq, Structural)]
pub struct ClientCapabilities {
    pub sampling: bool,
    pub roots: bool,
    pub elicitation: bool,
}

impl Default for ClientCapabilities {
    fn default() -> (r: Self)
        ensures
            !r.sampling && !r.roots && !r.elicitation,
    {
        ClientCapabilities { sampling: false, roots: false, elicitation: false }
    }
}

// ── Security Types ──────────────────────────────────────────────────

/// Trust level for an MCP server.
#[derive(Debug, Clone, Copy, PartialEq, Eq, Structural)]
pub enum TrustLevel {
    /// Run normally with full access.
    Trusted,
    /// Run with restricted capabilities.
    Sandboxed,
    /// Do not run.
    Blocked,
}

impl Default for TrustLevel {
    fn default() -> (r: Self)
        ensures
            r == TrustLevel::Sandboxed,
    {
        TrustLevel::Sandboxed
    }
}

/// Pinned capabilities for a server (capability attestation).
#[derive(Debug, Clone)]
pub struct CapabilityPin {
    pub server_name: String,
    /// SHA-256 hash of the tool list JSON, in lower-case hexadecimal.
    pub tools_hash: String,
    /// When the pin was created, in seconds since the Unix epoch.
    pub pinned_at: i64,
    /// Number of tools at pin time.
    pub tool_count: usize,
}

} // verus!
