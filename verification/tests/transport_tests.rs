use mcp_toolkit::error::McpError;
use mcp_toolkit::json::{JsonNumber, JsonValue};
use mcp_toolkit::jsonrpc::{IncomingMessage, JsonRpcRequest};
use mcp_toolkit::text::{trim, truncate};
use mcp_toolkit::transport::http::{bad_response, http_error, read_response, session_after};
use mcp_toolkit::transport::sse::{id_to_key, no_response, process_sse_response, read_body, route_messages};
use mcp_toolkit::transport::stdio::{read_line, spawn_error, timeout_error};
use mcp_toolkit::transport::{create_transport, NullTransport, TransportPlan};

#[test]
fn parse_sse_data() {
    let sse_text = "data: {\"jsonrpc\":\"2.0\",\"id\":1,\"result\":{\"tools\":[]}}\n\n";
    let msgs = process_sse_response(sse_text);
    assert_eq!(msgs.len(), 1);
    assert!(matches!(msgs[0], IncomingMessage::Response(_)));
}

#[test]
fn parse_sse_multiple_events() {
    let sse_text = [
        "data: {\"jsonrpc\":\"2.0\",\"method\":\"notifications/progress\",\"params\":{}}\n\n",
        "data: {\"jsonrpc\":\"2.0\",\"id\":1,\"result\":{}}\n\n",
    ]
    .concat();
    let msgs = process_sse_response(&sse_text);
    assert_eq!(msgs.len(), 2);
}

#[test]
fn id_key_consistency() {
    // The same id value produces the same key
    let id = JsonValue::from_str("abc-123");
    assert_eq!(id_to_key(&id), id_to_key(&id));

    // Different types produce different keys
    assert_ne!(id_to_key(&JsonValue::from_u64(1)), id_to_key(&JsonValue::from_str("1")));
}

#[test]
fn sse_data_lines_join_and_trailing_event_counts() {
    let text = "event: message\ndata: {\"jsonrpc\":\"2.0\",\ndata: \"id\":2,\"result\":{}}\n\ndata: {\"jsonrpc\":\"2.0\",\"method\":\"n\"}";
    let msgs = process_sse_response(text);
    assert_eq!(msgs.len(), 2);
    match &msgs[0] {
        IncomingMessage::Response(r) => assert!(matches!(r.id, JsonValue::Number(JsonNumber::PosInt(2)))),
        _ => panic!("Expected Response"),
    }
    assert!(matches!(msgs[1], IncomingMessage::Notification(_)));
}

#[test]
fn sse_skips_garbage_events() {
    let msgs = process_sse_response("data: not json\n\n\r\ndata: {\"jsonrpc\":\"2.0\",\"method\":\"n\"}\r\n\r\n");
    assert_eq!(msgs.len(), 1);
    assert!(process_sse_response("").is_empty());
}

#[test]
fn body_by_content_type() {
    let one = r#"{"jsonrpc":"2.0","id":1,"result":{}}"#;
    assert_eq!(read_body("application/json", one).len(), 1);
    assert_eq!(read_body("application/json", "junk").len(), 0);
    assert_eq!(read_body("text/event-stream; charset=utf-8", &format!("data: {}\n\n", one)).len(), 1);
}

#[test]
fn routing_stops_at_the_reply() {
    let text = [
        "data: {\"jsonrpc\":\"2.0\",\"method\":\"notifications/progress\"}\n\n",
        "data: {\"jsonrpc\":\"2.0\",\"id\":7,\"result\":{}}\n\n",
        "data: {\"jsonrpc\":\"2.0\",\"id\":3,\"result\":{}}\n\n",
        "data: {\"jsonrpc\":\"2.0\",\"method\":\"after\"}\n\n",
    ]
    .concat();
    let msgs = process_sse_response(&text);
    assert_eq!(msgs.len(), 4);
    let key = id_to_key(&JsonValue::from_u64(3));
    let routed = route_messages(msgs, &key);
    assert!(routed.reply.is_some());
    assert_eq!(routed.others.len(), 1);
    assert!(matches!(routed.others[0].id, JsonValue::Number(JsonNumber::PosInt(7))));
    assert_eq!(routed.incoming.len(), 1);

    let none = route_messages(vec![], &key);
    assert!(none.reply.is_none());
    let e = no_response(&key);
    assert_eq!(e.to_string(), "MCP protocol error: No response received for request ID 3");
}

#[test]
fn null_transport_refuses() {
    let t = NullTransport;
    let req = JsonRpcRequest::new(JsonValue::from_u64(1), "ping", None);
    match t.send_request(&req) {
        Err(McpError::Transport(m)) => assert_eq!(m, "NullTransport: not connected"),
        _ => panic!("Expected a transport error"),
    }
    assert!(t.close().is_ok());
    assert!(!t.is_alive());
}

#[test]
fn transport_plans() {
    assert!(matches!(create_transport("stdio", Some("npx"), None), Ok(TransportPlan::Stdio { ref command }) if command == "npx"));
    assert!(matches!(create_transport("http", None, Some("http://h")), Ok(TransportPlan::Http { ref url }) if url == "http://h"));
    assert!(matches!(create_transport("streamable-http", None, Some("http://h")), Ok(TransportPlan::Http { .. })));
    assert!(matches!(create_transport("sse", None, Some("http://h")), Ok(TransportPlan::Sse { .. })));
    let msg = |r: Result<TransportPlan, McpError>| match r {
        Err(McpError::Config(m)) => m,
        _ => panic!("Expected a config error"),
    };
    assert_eq!(msg(create_transport("stdio", None, Some("u"))), "stdio transport requires a command");
    assert_eq!(msg(create_transport("http", Some("c"), None)), "HTTP transport requires a URL");
    assert_eq!(msg(create_transport("sse", None, None)), "SSE transport requires a URL");
    assert_eq!(msg(create_transport("ws", None, None)), "Unknown transport type: ws");
}

#[test]
fn stdio_lines() {
    assert!(read_line("   \t").is_none());
    assert!(read_line("hello").is_none());
    assert!(matches!(read_line("  {\"jsonrpc\":\"2.0\",\"id\":1,\"result\":{}}  \r"), Some(IncomingMessage::Response(_))));
    assert_eq!(timeout_error("4", 30).to_string(), "Timeout: Request 4 timed out after 30s");
    assert_eq!(spawn_error("x", "not found").to_string(), "Transport error: Failed to spawn 'x': not found");
}

#[test]
fn http_errors_and_session() {
    let long = "b".repeat(300);
    match http_error("500 Internal Server Error", &long) {
        McpError::Http(m) => assert_eq!(m, format!("HTTP 500 Internal Server Error: {}", "b".repeat(200))),
        _ => panic!("Expected an HTTP error"),
    }
    match bad_response("expected value", "oops") {
        McpError::Protocol(m) => {
            assert_eq!(m, "Failed to parse HTTP response as JSON-RPC: expected value (body: oops)")
        }
        _ => panic!("Expected a protocol error"),
    }
    assert_eq!(session_after(None, Some("s1")).as_deref(), Some("s1"));
    assert_eq!(session_after(Some("s1".to_string()), None).as_deref(), Some("s1"));
    assert_eq!(session_after(Some("s1".to_string()), Some("s2")).as_deref(), Some("s2"));
}

#[test]
fn truncate_long_text() {
    assert_eq!(truncate("short", 10), "short");
    assert_eq!(truncate("exactly10!", 10), "exactly10!");
    assert_eq!(truncate("a longer description", 8), "a longer...");
    assert_eq!(truncate("héllo", 3), "hé...");
}

#[test]
fn trim_white_space() {
    assert_eq!(trim("  a b \t\r\n"), "a b");
    assert_eq!(trim("\u{3000}x\u{a0}"), "x");
    assert_eq!(trim(" \n "), "");
    assert_eq!(trim(""), "");
    assert_eq!(trim("x"), "x");
}

#[test]
fn http_reply_is_read_as_a_response() {
    let resp = read_response(r#"{"jsonrpc":"2.0","id":7,"result":{"ok":true}}"#).expect("a response");
    assert!(matches!(resp.id, JsonValue::Number(JsonNumber::PosInt(7))));
    assert!(resp.error.is_none());
    assert_eq!(resp.result.as_ref().and_then(|r| r.get("ok")).and_then(|b| b.as_bool()), Some(true));
}

#[test]
fn http_reply_that_is_not_json_or_not_a_response() {
    match read_response("<html>oops</html>") {
        Err(McpError::Protocol(m)) => assert!(m.contains("<html>oops</html>")),
        other => panic!("expected a protocol error, got {:?}", other.map(|_| ())),
    }
    match read_response("[1,2,3]") {
        Err(McpError::Protocol(m)) => assert!(m.contains("not a JSON-RPC response")),
        other => panic!("expected a protocol error, got {:?}", other.map(|_| ())),
    }
}
