//! MCP toolkit core: the protocol data model, configuration rules, registry
//! search and JSON-RPC message logic of a Model Context Protocol client and
//! server, with contracts checked by Verus.

pub mod client;
pub mod config;
pub mod error;
pub mod json;
pub mod manager;
pub mod jsonrpc;
pub mod registry;
pub mod server;
pub mod text;
pub mod transport;
pub mod types;

pub use client::{McpServerInfo, McpToolInfo};
pub use config::{McpConfig, McpServerConfig, McpSettings};
pub use error::McpError;
pub use manager::ServerStatus;
pub use registry::{RegistryEntry, RegistrySource};
pub use server::{McpServer, ToolHandlerResult};
pub use types::{
    CapabilityPin, ClientCapabilities, ElicitationAction, ElicitationRequest, ElicitationResponse,
    McpMessageContent, McpPrompt, McpPromptArgument, McpPromptMessage, McpResource,
    McpResourceContent, McpToolDescriptor, McpToolResult, ModelHint, SamplingMessage,
    SamplingResponse, ServerCapabilities, TrustLevel,
};
