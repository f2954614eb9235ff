use mcp_toolkit::error::McpError;
use mcp_toolkit::json::{JsonNumber, JsonValue};
use mcp_toolkit::jsonrpc::{JsonRpcRequest, JsonRpcResponse};
use mcp_toolkit::server::http_server::{
    classify_posted, health_info, invalid_request, parse_error, plan_batch, read_posted,
    read_posted_bytes, root_info, AppState, PostedMessage,
};
use mcp_toolkit::server::{tool_call_response, McpServer, ServerAction, ToolHandlerResult, ToolSpec};

/// A `serde_json` value in the library's model.
fn from_serde(v: serde_json::Value) -> JsonValue {
    match v {
        serde_json::Value::Null => JsonValue::Null,
        serde_json::Value::Bool(b) => JsonValue::Bool(b),
        serde_json::Value::Number(n) => JsonValue::Number(match (n.as_u64(), n.as_i64()) {
            (Some(u), _) => JsonNumber::PosInt(u),
            (None, Some(i)) => JsonNumber::NegInt(i),
            (None, None) => JsonNumber::Float(n.to_string()),
        }),
        serde_json::Value::String(s) => JsonValue::String(s),
        serde_json::Value::Array(a) => JsonValue::Array(a.into_iter().map(from_serde).collect()),
        serde_json::Value::Object(m) => {
            JsonValue::Object(m.into_iter().map(|(k, x)| (k, from_serde(x))).collect())
        }
    }
}

/// A value of the library's model as a `serde_json` value.
fn to_serde(v: &JsonValue) -> serde_json::Value {
    match v {
        JsonValue::Null => serde_json::Value::Null,
        JsonValue::Bool(b) => serde_json::Value::Bool(*b),
        JsonValue::Number(JsonNumber::PosInt(u)) => serde_json::Value::from(*u),
        JsonValue::Number(JsonNumber::NegInt(i)) => serde_json::Value::from(*i),
        JsonValue::Number(JsonNumber::Float(t)) => serde_json::from_str(t).unwrap(),
        JsonValue::String(s) => serde_json::Value::String(s.clone()),
        JsonValue::Array(a) => serde_json::Value::Array(a.iter().map(to_serde).collect()),
        JsonValue::Object(m) => {
            serde_json::Value::Object(m.iter().map(|(k, x)| (k.clone(), to_serde(x))).collect())
        }
    }
}

fn json(text: &str) -> JsonValue {
    from_serde(serde_json::from_str(text).expect("valid JSON"))
}

fn json_text(v: &JsonValue) -> String {
    to_serde(v).to_string()
}



fn echo_tool() -> ToolSpec {
    ToolSpec {
        name: "echo".to_string(),
        description: "Echoes input back".to_string(),
        input_schema: json(r#"{"type":"object","properties":{"text":{"type":"string"}}}"#),
    }
}

/// The echo handler: the `text` argument, or `(empty)`.
fn echo_call(args: &JsonValue) -> Result<ToolHandlerResult, McpError> {
    let text = args.get_str("text").map(|s| s.as_str()).unwrap_or("(empty)");
    Ok(ToolHandlerResult { content: text.to_string(), is_error: false })
}

/// Answers a request as a server with its handlers would: reply, or call
/// the tool and reply with its outcome.
fn answer(server: &McpServer, req: JsonRpcRequest) -> JsonRpcResponse {
    match server.handle_request(req) {
        ServerAction::Reply(r) => r,
        ServerAction::CallTool { id, name, arguments } => {
            assert_eq!(name, "echo");
            tool_call_response(id, echo_call(&arguments))
        }
    }
}

#[test]
fn server_initialize() {
    let server = McpServer::new("test-server", "0.1.0");
    let req = JsonRpcRequest::new(JsonValue::from_u64(1), "initialize", Some(json("{}")));
    let resp = answer(&server, req);
    assert!(!resp.is_error());
}

#[test]
fn server_tools_list() {
    let mut server = McpServer::new("test-server", "0.1.0");
    server.register_tool(echo_tool());

    let req = JsonRpcRequest::new(JsonValue::from_u64(2), "tools/list", None);
    let resp = answer(&server, req);
    let result = resp.into_result().unwrap();
    let tools = result.get("tools").unwrap().as_array().unwrap();
    assert_eq!(tools.len(), 1);
    assert_eq!(tools[0].get_str("name").unwrap(), "echo");
}

#[test]
fn server_tools_call() {
    let mut server = McpServer::new("test-server", "0.1.0");
    server.register_tool(echo_tool());

    let req = JsonRpcRequest::new(
        JsonValue::from_u64(3),
        "tools/call",
        Some(json(r#"{"name": "echo", "arguments": {"text": "hello"}}"#)),
    );
    let resp = answer(&server, req);
    let result = resp.into_result().unwrap();
    let content = result.get("content").unwrap().as_array().unwrap();
    assert_eq!(content[0].get_str("text").unwrap(), "hello");
}

#[test]
fn server_tool_not_found() {
    let server = McpServer::new("test-server", "0.1.0");
    let req = JsonRpcRequest::new(JsonValue::from_u64(4), "tools/call", Some(json(r#"{"name": "nonexistent"}"#)));
    let resp = answer(&server, req);
    assert!(resp.is_error());
}

#[test]
fn server_method_not_found() {
    let server = McpServer::new("test-server", "0.1.0");
    let req = JsonRpcRequest::new(JsonValue::from_u64(5), "unknown/method", None);
    let resp = answer(&server, req);
    assert!(resp.is_error());
}

#[test]
fn server_resources_list() {
    let server = McpServer::new("test-server", "0.1.0");
    let req = JsonRpcRequest::new(JsonValue::from_u64(6), "resources/list", None);
    let resp = answer(&server, req);
    assert!(!resp.is_error());
}

#[test]
fn server_prompts_list() {
    let server = McpServer::new("test-server", "0.1.0");
    let req = JsonRpcRequest::new(JsonValue::from_u64(7), "prompts/list", None);
    let resp = answer(&server, req);
    assert!(!resp.is_error());
}

// ── the replies in detail ──────────────────────────────────────────

fn error_of(resp: JsonRpcResponse) -> (i64, String) {
    let e = resp.error.expect("an error response");
    (e.code, e.message)
}

#[test]
fn initialize_result_names_the_server() {
    let server = McpServer::new("hub", "9.9");
    let resp = answer(&server, JsonRpcRequest::new(JsonValue::from_u64(1), "initialize", None));
    let r = resp.into_result().unwrap();
    assert_eq!(r.get_str("protocolVersion").unwrap(), "2024-11-05");
    assert_eq!(json_text(r.get("capabilities").unwrap()), r#"{"tools":{}}"#);
    let info = r.get("serverInfo").unwrap();
    assert_eq!(info.get_str("name").unwrap(), "hub");
    assert_eq!(info.get_str("version").unwrap(), "9.9");
}

#[test]
fn ping_and_initialized_answer_empty_objects() {
    let server = McpServer::new("s", "1");
    for m in ["ping", "notifications/initialized"] {
        let resp = answer(&server, JsonRpcRequest::new(JsonValue::from_str("x"), m, None));
        assert!(matches!(resp.id, JsonValue::String(ref s) if s == "x"));
        assert_eq!(json_text(&resp.into_result().unwrap()), "{}");
    }
}

#[test]
fn empty_resource_and_prompt_lists() {
    let server = McpServer::new("s", "1");
    let r = answer(&server, JsonRpcRequest::new(JsonValue::from_u64(1), "resources/list", None));
    assert_eq!(json_text(&r.into_result().unwrap()), r#"{"resources":[]}"#);
    let p = answer(&server, JsonRpcRequest::new(JsonValue::from_u64(1), "prompts/list", None));
    assert_eq!(json_text(&p.into_result().unwrap()), r#"{"prompts":[]}"#);
}

#[test]
fn tool_call_errors() {
    let mut server = McpServer::new("s", "1");
    server.register_tool(echo_tool());
    let call = |params: Option<JsonValue>| {
        answer(&server, JsonRpcRequest::new(JsonValue::from_u64(1), "tools/call", params))
    };
    assert_eq!(error_of(call(None)), (-32602, "Missing params".to_string()));
    assert_eq!(error_of(call(Some(json(r#"{"name":3}"#)))), (-32602, "Missing tool name".to_string()));
    assert_eq!(
        error_of(call(Some(json(r#"{"name":"nope"}"#)))),
        (-32602, "Tool not found: nope".to_string())
    );
    let unknown = answer(&server, JsonRpcRequest::new(JsonValue::from_u64(1), "a/b", None));
    assert_eq!(error_of(unknown), (-32601, "Method not found: a/b".to_string()));
}

#[test]
fn tool_call_without_arguments_gets_empty_object() {
    let mut server = McpServer::new("s", "1");
    server.register_tool(echo_tool());
    match server.handle_request(JsonRpcRequest::new(
        JsonValue::from_u64(8),
        "tools/call",
        Some(json(r#"{"name":"echo"}"#)),
    )) {
        ServerAction::CallTool { id, name, arguments } => {
            assert!(matches!(id, JsonValue::Number(JsonNumber::PosInt(8))));
            assert_eq!(name, "echo");
            assert_eq!(json_text(&arguments), "{}");
        }
        ServerAction::Reply(_) => panic!("Expected a tool call"),
    }
}

#[test]
fn handler_failure_is_an_error_result() {
    let resp = tool_call_response(
        JsonValue::from_u64(1),
        Err(McpError::Server("disk full".to_string())),
    );
    assert!(!resp.is_error());
    let r = resp.into_result().unwrap();
    assert!(matches!(r.get("isError"), Some(JsonValue::Bool(true))));
    let content = r.get("content").unwrap().as_array().unwrap();
    assert_eq!(content[0].get_str("type").unwrap(), "text");
    assert_eq!(content[0].get_str("text").unwrap(), "Error: Server error: disk full");
}

#[test]
fn register_replaces_a_tool_of_the_same_name() {
    let mut server = McpServer::new("s", "1");
    server.register_tool(echo_tool());
    let mut again = echo_tool();
    again.description = "v2".to_string();
    server.register_tool(again);
    let resp = answer(&server, JsonRpcRequest::new(JsonValue::from_u64(1), "tools/list", None));
    let r = resp.into_result().unwrap();
    let tools = r.get("tools").unwrap().as_array().unwrap();
    assert_eq!(tools.len(), 1);
    assert_eq!(tools[0].get_str("description").unwrap(), "v2");
}

// ── the HTTP endpoint ──────────────────────────────────────────────

#[test]
fn posted_messages_are_sorted() {
    assert!(matches!(classify_posted(&json(r#"{"jsonrpc":"2.0","id":1,"result":{}}"#)), PostedMessage::ClientResponse));
    assert!(matches!(classify_posted(&json("5")), PostedMessage::ClientResponse));
    match classify_posted(&json(r#"{"jsonrpc":"2.0","id":1,"method":"ping"}"#)) {
        PostedMessage::Request(r) => assert_eq!(r.method, "ping"),
        _ => panic!("Expected Request"),
    }
    match classify_posted(&json(r#"{"id":"q","method":"ping"}"#)) {
        PostedMessage::InvalidRequest(id) => assert!(matches!(id, JsonValue::String(ref s) if s == "q")),
        _ => panic!("Expected InvalidRequest"),
    }
    match classify_posted(&json(r#"{"jsonrpc":"2.0","method":"notifications/cancelled","params":{"a":1}}"#)) {
        PostedMessage::Notification(m, p) => {
            assert_eq!(m, "notifications/cancelled");
            assert!(p.is_some());
        }
        _ => panic!("Expected Notification"),
    }
    match classify_posted(&json(r#"{"method":7}"#)) {
        PostedMessage::Notification(m, p) => {
            assert_eq!(m, "");
            assert!(p.is_none());
        }
        _ => panic!("Expected Notification"),
    }
}

#[test]
fn batch_plan_counts_requests() {
    let items = vec![
        json(r#"{"jsonrpc":"2.0","method":"notifications/initialized"}"#),
        json(r#"{"jsonrpc":"2.0","id":1,"method":"initialize"}"#),
        json(r#"{"jsonrpc":"2.0","id":2,"result":{}}"#),
    ];
    let plan = plan_batch(&items);
    assert_eq!(plan.steps.len(), 3);
    assert!(plan.has_requests);
    assert!(plan.initializes);
    let only_notes = plan_batch(&vec![json(r#"{"jsonrpc":"2.0","method":"x"}"#)]);
    assert!(!only_notes.has_requests);
    assert!(!only_notes.initializes);
    let invalid = plan_batch(&vec![json(r#"{"id":1,"method":"x"}"#)]);
    assert!(invalid.has_requests);
    assert!(!invalid.initializes);
    assert!(!plan_batch(&vec![]).has_requests);
}

#[test]
fn session_starts_and_ends() {
    let mut st = AppState::new();
    assert_eq!(st.session_id.len(), 36);
    assert!(!st.initialized);
    assert!(!st.answered(false));
    assert!(!st.initialized);
    assert!(st.answered(true));
    assert!(st.initialized);
    assert!(!st.terminate(Some("other")));
    assert!(st.initialized);
    assert!(!st.terminate(None));
    let id = st.session_id.clone();
    assert!(st.terminate(Some(&id)));
    assert!(!st.initialized);
    assert_eq!(st.session_id, id);
}

#[test]
fn fixed_replies() {
    let p = parse_error("EOF while parsing");
    assert!(matches!(p.id, JsonValue::Null));
    let e = p.error.unwrap();
    assert_eq!(e.code, -32700);
    assert_eq!(e.message, "Parse error: EOF while parsing");
    let i = invalid_request(JsonValue::from_u64(3), Some("missing field `jsonrpc`"));
    assert_eq!(i.error.unwrap().message, "Invalid request: missing field `jsonrpc`");
    let j = invalid_request(JsonValue::from_u64(3), None);
    let je = j.error.unwrap();
    assert_eq!(je.code, -32600);
    assert_eq!(je.message, "Invalid request");
    assert_eq!(json_text(&health_info()), r#"{"status":"ok"}"#);
    let root = root_info("0.1.0");
    assert_eq!(root.get_str("name").unwrap(), "mcp-toolkit");
    assert_eq!(root.get_str("version").unwrap(), "0.1.0");
    assert_eq!(root.get_str("protocol").unwrap(), "MCP");
    assert_eq!(root.get_str("transport").unwrap(), "streamable-http");
    assert_eq!(root.get_str("endpoint").unwrap(), "/mcp");
}

#[test]
fn every_reply_keeps_the_request_id() {
    let mut server = McpServer::new("s", "1");
    server.register_tool(echo_tool());
    let methods = ["initialize", "ping", "tools/list", "resources/list", "prompts/list", "tools/call", "x/y"];
    for m in methods {
        let resp = answer(&server, JsonRpcRequest::new(JsonValue::from_str("id-7"), m, None));
        assert!(matches!(resp.id, JsonValue::String(ref s) if s == "id-7"), "method {}", m);
    }
    let called = answer(
        &server,
        JsonRpcRequest::new(JsonValue::from_u64(11), "tools/call", Some(json(r#"{"name":"echo"}"#))),
    );
    assert!(matches!(called.id, JsonValue::Number(JsonNumber::PosInt(11))));
    let r = called.into_result().unwrap();
    let content = r.get("content").unwrap().as_array().unwrap();
    assert_eq!(content[0].get_str("text").unwrap(), "(empty)");
}

#[test]
fn posted_body_is_read() {
    let v = read_posted(r#"{"jsonrpc":"2.0","id":1,"method":"ping"}"#).expect("JSON");
    assert_eq!(v.get_str("method").map(|m| m.as_str()), Some("ping"));
    let items = read_posted("[1, 2]").expect("JSON");
    assert_eq!(items.as_array().map(|a| a.len()), Some(2));
}

#[test]
fn posted_body_that_is_not_json_is_a_parse_error() {
    let reply = read_posted("{not json").expect_err("not JSON");
    assert!(matches!(reply.id, JsonValue::Null));
    let (code, message) = error_of(reply);
    assert_eq!(code, -32700);
    assert!(message.starts_with("Parse error: "));
    assert!(message.len() > "Parse error: ".len());
}

#[test]
fn posted_bytes_are_read() {
    let v = read_posted_bytes(br#"{"jsonrpc":"2.0","id":"a","method":"tools/list"}"#).expect("JSON");
    assert_eq!(v.get_str("id").map(|m| m.as_str()), Some("a"));
    let reply = read_posted_bytes(&[0x7b, 0xff, 0x7d]).expect_err("not UTF-8");
    assert!(matches!(reply.id, JsonValue::Null));
    let (code, message) = error_of(reply);
    assert_eq!(code, -32700);
    assert!(message.starts_with("Parse error: "));
    let reply = read_posted_bytes(b"").expect_err("empty");
    assert_eq!(error_of(reply).0, -32700);
}
