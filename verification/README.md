# mcp-toolkit

A Model Context Protocol (MCP) toolkit for AI agents: connect to MCP servers
over stdio, HTTP or SSE, discover their tools, resources and prompts, search
registries of servers, and serve tools as an MCP server. The core is a
library whose behaviour is stated in `requires` / `ensures` contracts and
proved with Verus.

## Layout

- `src/` — the verified library.
  - `json.rs` — the JSON value model and its reading and writing with `serde_json`.
  - `jsonrpc.rs` — JSON-RPC messages: how an incoming line is classified and read,
    how messages are written, and the round-trip laws between the two.
  - `client.rs` — what the client sends for each operation and how it reads
    the results (initialize, tools, resources, prompts, sampling and
    elicitation replies).
  - `config.rs` — the configuration and the rules that add, replace, remove and
    look up servers, with their laws.
  - `manager.rs` — the table of connected servers, the listings across servers,
    display names, status reports and SHA-256 capability pins, with their laws.
  - `registry/` — registry entries, the built-in registry and keyword search,
    ranking by trust, and the reading of Smithery, npm and MCP Registry answers.
  - `server/` — how a server answers each request, and the rules of the
    Streamable HTTP endpoint (message sorting, batches, the session).
  - `transport/` — transport selection, the null transport, stdio line reading,
    HTTP errors and sessions, SSE stream reading and response routing.
  - `text.rs` — the string helpers the rest relies on.
- `tests/` — tests of the library.
- `app/` — the command-line program around the library: the config file,
  async transports, client, manager, registry searches over HTTP and the HTTP
  server.
