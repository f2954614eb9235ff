use mcp_toolkit::json::{JsonNumber, JsonValue};
use mcp_toolkit::jsonrpc::{
    classify_incoming, parse_incoming, response_from_value, IncomingMessage, JsonRpcError,
    JsonRpcNotification, JsonRpcRequest, JsonRpcResponse,
};

/// A `serde_json` value in the library's model.
fn from_serde(v: serde_json::Value) -> JsonValue {
    match v {
        serde_json::Value::Null => JsonValue::Null,
        serde_json::Value::Bool(b) => JsonValue::Bool(b),
        serde_json::Value::Number(n) => JsonValue::Number(match (n.as_u64(), n.as_i64()) {
            (Some(u), _) => JsonNumber::PosInt(u),
            (None, Some(i)) => JsonNumber::NegInt(i),
            (None, None) => JsonNumber::Float(n.to_string()),
        }),
        serde_json::Value::String(s) => JsonValue::String(s),
        serde_json::Value::Array(a) => JsonValue::Array(a.into_iter().map(from_serde).collect()),
        serde_json::Value::Object(m) => {
            JsonValue::Object(m.into_iter().map(|(k, x)| (k, from_serde(x))).collect())
        }
    }
}

/// A value of the library's model as a `serde_json` value.
fn to_serde(v: &JsonValue) -> serde_json::Value {
    match v {
        JsonValue::Null => serde_json::Value::Null,
        JsonValue::Bool(b) => serde_json::Value::Bool(*b),
        JsonValue::Number(JsonNumber::PosInt(u)) => serde_json::Value::from(*u),
        JsonValue::Number(JsonNumber::NegInt(i)) => serde_json::Value::from(*i),
        JsonValue::Number(JsonNumber::Float(t)) => serde_json::from_str(t).unwrap(),
        JsonValue::String(s) => serde_json::Value::String(s.clone()),
        JsonValue::Array(a) => serde_json::Value::Array(a.iter().map(to_serde).collect()),
        JsonValue::Object(m) => {
            serde_json::Value::Object(m.iter().map(|(k, x)| (k.clone(), to_serde(x))).collect())
        }
    }
}

fn json(text: &str) -> JsonValue {
    from_serde(serde_json::from_str(text).expect("valid JSON"))
}

fn json_text(v: &JsonValue) -> String {
    to_serde(v).to_string()
}



fn is_uint(v: &JsonValue, n: u64) -> bool {
    matches!(v, JsonValue::Number(JsonNumber::PosInt(x)) if *x == n)
}

#[test]
fn serialize_request() {
    let req = JsonRpcRequest::new(JsonValue::from_u64(1), "initialize", Some(json(r#"{"key": "value"}"#)));
    let text = req.to_text();
    assert!(text.contains("\"jsonrpc\":\"2.0\""));
    assert!(text.contains("\"id\":1"));
    assert!(text.contains("\"method\":\"initialize\""));
}

#[test]
fn serialize_request_without_params() {
    let req = JsonRpcRequest::new(JsonValue::from_u64(2), "tools/list", None);
    let text = req.to_text();
    assert!(!text.contains("params"));
}

#[test]
fn deserialize_success_response() {
    let text = r#"{"jsonrpc":"2.0","id":1,"result":{"tools":[]}}"#;
    let resp = response_from_value(&json(text)).unwrap();
    assert!(is_uint(&resp.id, 1));
    assert!(!resp.is_error());
}

#[test]
fn deserialize_error_response() {
    let text = r#"{"jsonrpc":"2.0","id":1,"error":{"code":-32601,"message":"Method not found"}}"#;
    let resp = response_from_value(&json(text)).unwrap();
    assert!(resp.is_error());
    let err = resp.into_result().unwrap_err();
    assert!(err.to_string().contains("Method not found"));
}

#[test]
fn parse_incoming_response() {
    let line = r#"{"jsonrpc":"2.0","id":5,"result":{}}"#;
    match parse_incoming(line) {
        Some(IncomingMessage::Response(r)) => assert!(is_uint(&r.id, 5)),
        _ => panic!("Expected Response"),
    }
}

#[test]
fn parse_incoming_notification() {
    let line = r#"{"jsonrpc":"2.0","method":"notifications/tools/list_changed"}"#;
    match parse_incoming(line) {
        Some(IncomingMessage::Notification(n)) => {
            assert_eq!(n.method, "notifications/tools/list_changed")
        }
        _ => panic!("Expected Notification"),
    }
}

#[test]
fn parse_incoming_server_request() {
    let line = r#"{"jsonrpc":"2.0","id":10,"method":"sampling/createMessage","params":{}}"#;
    match parse_incoming(line) {
        Some(IncomingMessage::Request(r)) => {
            assert_eq!(r.method, "sampling/createMessage");
            assert!(is_uint(&r.id, 10));
        }
        _ => panic!("Expected Request"),
    }
}

#[test]
fn parse_incoming_garbage() {
    assert!(parse_incoming("not json").is_none());
    assert!(parse_incoming("").is_none());
    assert!(parse_incoming("{}").is_none());
}

#[test]
fn response_success_helper() {
    let resp = JsonRpcResponse::success(JsonValue::from_u64(1), json(r#"{"ok": true}"#));
    assert!(!resp.is_error());
    let val = resp.into_result().unwrap();
    assert!(matches!(val.get("ok"), Some(JsonValue::Bool(true))));
}

#[test]
fn response_error_helper() {
    let resp = JsonRpcResponse::error(JsonValue::from_u64(1), -32600, "Invalid request");
    assert!(resp.is_error());
}

#[test]
fn string_id_request() {
    let req = JsonRpcRequest::new(JsonValue::from_str("abc-123"), "tools/list", None);
    let text = req.to_text();
    assert!(text.contains("\"id\":\"abc-123\""));
}

// ── reading and writing ────────────────────────────────────────────

#[test]
fn error_response_text_names_the_code() {
    let resp = JsonRpcResponse::error(JsonValue::from_u64(7), -32601, "Method not found: x");
    let err = resp.into_result().unwrap_err();
    assert_eq!(err.to_string(), "MCP protocol error: JSON-RPC error -32601: Method not found: x");
}

#[test]
fn response_without_result_gives_null() {
    let resp = response_from_value(&json(r#"{"jsonrpc":"2.0","id":3}"#)).unwrap();
    assert!(matches!(resp.into_result(), Ok(JsonValue::Null)));
}

#[test]
fn response_without_id_reads_null_id() {
    // Without an `id` the message is not a response to classify, but as a
    // response it reads with a null id.
    let resp = response_from_value(&json(r#"{"jsonrpc":"2.0","result":1}"#)).unwrap();
    assert!(matches!(resp.id, JsonValue::Null));
    assert!(classify_incoming(&json(r#"{"jsonrpc":"2.0","result":1}"#)).is_none());
}

#[test]
fn error_as_array_is_read() {
    let resp =
        response_from_value(&json(r#"{"jsonrpc":"2.0","id":1,"error":[-1,"boom",null]}"#)).unwrap();
    let e = resp.error.unwrap();
    assert_eq!(e.code, -1);
    assert_eq!(e.message, "boom");
    assert!(e.data.is_none());
}

#[test]
fn malformed_error_rejects_response() {
    assert!(response_from_value(&json(r#"{"jsonrpc":"2.0","id":1,"error":{"code":"x"}}"#)).is_none());
    assert!(parse_incoming(r#"{"jsonrpc":"2.0","id":1,"error":{"message":"m"}}"#).is_none());
}

#[test]
fn request_without_jsonrpc_is_rejected() {
    assert!(parse_incoming(r#"{"id":1,"method":"ping"}"#).is_none());
}

#[test]
fn null_params_read_as_absent() {
    match parse_incoming(r#"{"jsonrpc":"2.0","id":1,"method":"ping","params":null}"#) {
        Some(IncomingMessage::Request(r)) => assert!(r.params.is_none()),
        _ => panic!("Expected Request"),
    }
}

#[test]
fn request_round_trip() {
    let req = JsonRpcRequest::new(JsonValue::from_u64(9), "tools/call", Some(json(r#"{"name":"echo"}"#)));
    match parse_incoming(&req.to_text()) {
        Some(IncomingMessage::Request(r)) => {
            assert!(is_uint(&r.id, 9));
            assert_eq!(r.method, "tools/call");
            assert_eq!(r.jsonrpc, "2.0");
            assert_eq!(json_text(&r.params.unwrap()), r#"{"name":"echo"}"#);
        }
        _ => panic!("Expected Request"),
    }
}

#[test]
fn notification_round_trip() {
    let n = JsonRpcNotification::new("notifications/initialized", None);
    let text = n.to_text();
    assert!(!text.contains("id"));
    match parse_incoming(&text) {
        Some(IncomingMessage::Notification(m)) => {
            assert_eq!(m.method, "notifications/initialized");
            assert!(m.params.is_none());
        }
        _ => panic!("Expected Notification"),
    }
}

#[test]
fn error_response_round_trip() {
    let mut resp = JsonRpcResponse::error(JsonValue::from_str("a"), -32602, "Missing params");
    resp.error = Some(JsonRpcError { code: -32602, message: "Missing params".to_string(), data: Some(JsonValue::from_u64(4)) });
    match parse_incoming(&resp.to_text()) {
        Some(IncomingMessage::Response(r)) => {
            let e = r.error.unwrap();
            assert_eq!(e.code, -32602);
            assert_eq!(e.message, "Missing params");
            assert!(is_uint(&e.data.unwrap(), 4));
            assert!(r.result.is_none());
        }
        _ => panic!("Expected Response"),
    }
}
