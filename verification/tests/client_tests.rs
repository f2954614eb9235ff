use mcp_toolkit::client::{
    call_tool_params, get_prompt_params, initialize_params, parse_initialize_result,
    parse_resource_contents, parse_resources_list, parse_tool_call_result, parse_tools_list,
    read_resource_params, result_array_items, McpToolInfo, RequestIds,
};
use mcp_toolkit::json::{JsonNumber, JsonValue};
use mcp_toolkit::types::{ClientCapabilities, ServerCapabilities};

/// A `serde_json` value in the library's model.
fn from_serde(v: serde_json::Value) -> JsonValue {
    match v {
        serde_json::Value::Null => JsonValue::Null,
        serde_json::Value::Bool(b) => JsonValue::Bool(b),
        serde_json::Value::Number(n) => JsonValue::Number(match (n.as_u64(), n.as_i64()) {
            (Some(u), _) => JsonNumber::PosInt(u),
            (None, Some(i)) => JsonNumber::NegInt(i),
            (None, None) => JsonNumber::Float(n.to_string()),
        }),
        serde_json::Value::String(s) => JsonValue::String(s),
        serde_json::Value::Array(a) => JsonValue::Array(a.into_iter().map(from_serde).collect()),
        serde_json::Value::Object(m) => {
            JsonValue::Object(m.into_iter().map(|(k, x)| (k, from_serde(x))).collect())
        }
    }
}

/// A value of the library's model as a `serde_json` value.
fn to_serde(v: &JsonValue) -> serde_json::Value {
    match v {
        JsonValue::Null => serde_json::Value::Null,
        JsonValue::Bool(b) => serde_json::Value::Bool(*b),
        JsonValue::Number(JsonNumber::PosInt(u)) => serde_json::Value::from(*u),
        JsonValue::Number(JsonNumber::NegInt(i)) => serde_json::Value::from(*i),
        JsonValue::Number(JsonNumber::Float(t)) => serde_json::from_str(t).unwrap(),
        JsonValue::String(s) => serde_json::Value::String(s.clone()),
        JsonValue::Array(a) => serde_json::Value::Array(a.iter().map(to_serde).collect()),
        JsonValue::Object(m) => {
            serde_json::Value::Object(m.iter().map(|(k, x)| (k.clone(), to_serde(x))).collect())
        }
    }
}

fn json(text: &str) -> JsonValue {
    from_serde(serde_json::from_str(text).expect("valid JSON"))
}

fn json_text(v: &JsonValue) -> String {
    to_serde(v).to_string()
}



#[test]
fn mcp_tool_info_fields() {
    let info = McpToolInfo {
        name: "test".to_string(),
        description: "A test tool".to_string(),
        input_schema: json(r#"{"type": "object"}"#),
        output_schema: None,
    };
    assert_eq!(info.name, "test");
    assert_eq!(info.description, "A test tool");
}

#[test]
fn server_capabilities_default() {
    let caps = ServerCapabilities::default();
    assert!(!caps.tools);
    assert!(!caps.resources);
    assert!(!caps.prompts);
}

#[test]
fn client_capabilities_default() {
    let caps = ClientCapabilities::default();
    assert!(!caps.sampling);
    assert!(!caps.roots);
    assert!(!caps.elicitation);
}

#[test]
fn initialize_params_announce_capabilities() {
    let caps = ClientCapabilities { sampling: true, roots: true, elicitation: false };
    let p = initialize_params(caps, "mcp-toolkit", "0.1.0");
    let text = json_text(&p);
    assert!(text.contains("\"protocolVersion\":\"2024-11-05\""));
    assert!(text.contains("\"tools\":{}"));
    assert!(text.contains("\"sampling\":{}"));
    assert!(text.contains("\"roots\":{\"listChanged\":true}"));
    assert!(!text.contains("elicitation"));
    let info = p.get("clientInfo").unwrap();
    assert_eq!(info.get_str("name").map(|s| s.as_str()), Some("mcp-toolkit"));
    assert_eq!(info.get_str("version").map(|s| s.as_str()), Some("0.1.0"));
}

#[test]
fn initialize_result_is_read() {
    let r = json(
        r#"{"protocolVersion":"2024-11-05","capabilities":{"tools":{},"resources":{"subscribe":true},"logging":null},"serverInfo":{"name":"srv","version":"1.2.3"}}"#,
    );
    let info = parse_initialize_result(&r);
    assert_eq!(info.name, "srv");
    assert_eq!(info.version, "1.2.3");
    assert_eq!(info.protocol_version, "2024-11-05");
    assert!(info.capabilities.tools);
    assert!(info.capabilities.resources);
    assert!(info.capabilities.resource_subscribe);
    assert!(!info.capabilities.prompts);
    assert!(info.capabilities.logging);
}

#[test]
fn initialize_result_defaults() {
    let info = parse_initialize_result(&json("{}"));
    assert_eq!(info.name, "unknown");
    assert_eq!(info.version, "0.0.0");
    assert_eq!(info.protocol_version, "unknown");
    assert!(!info.capabilities.tools);
    assert!(!info.capabilities.resource_subscribe);
}

#[test]
fn tools_list_is_read() {
    let r = json(
        r#"{"tools":[{"name":"a","description":"first","inputSchema":{"type":"object","x":1}},{"description":"no name"},{"name":"b","outputSchema":{"type":"string"}}]}"#,
    );
    let tools = parse_tools_list(&r);
    assert_eq!(tools.len(), 2);
    assert_eq!(tools[0].name, "a");
    assert_eq!(tools[0].description, "first");
    assert!(tools[0].output_schema.is_none());
    assert_eq!(tools[1].name, "b");
    assert_eq!(tools[1].description, "");
    assert_eq!(json_text(&tools[1].input_schema), r#"{"type":"object"}"#);
    assert!(tools[1].output_schema.is_some());
    assert!(parse_tools_list(&json(r#"{"tools":5}"#)).is_empty());
}

#[test]
fn call_tool_params_carry_name_and_arguments() {
    let p = call_tool_params("echo", json(r#"{"text":"hi"}"#));
    assert_eq!(p.get_str("name").map(|s| s.as_str()), Some("echo"));
    assert_eq!(json_text(p.get("arguments").unwrap()), r#"{"text":"hi"}"#);
}

#[test]
fn tool_call_result_joins_text_items() {
    let r = json(
        r#"{"content":[{"type":"text","text":"one"},{"type":"image","data":"x"},{"type":"text","text":"two"}],"isError":true,"structuredContent":{"k":1}}"#,
    );
    let res = parse_tool_call_result(&r);
    assert_eq!(res.content, "one\ntwo");
    assert!(res.is_error);
    assert!(res.structured.is_some());
    let empty = parse_tool_call_result(&json("{}"));
    assert_eq!(empty.content, "");
    assert!(!empty.is_error);
    assert!(empty.structured.is_none());
}

#[test]
fn resources_list_is_read() {
    let r = json(
        r#"{"resources":[{"uri":"file:///a","name":"a","mimeType":"text/plain"},{"uri":"file:///b"},{"uri":"file:///c","name":"c","title":"C"}]}"#,
    );
    let res = parse_resources_list(&r);
    assert_eq!(res.len(), 2);
    assert_eq!(res[0].uri, "file:///a");
    assert_eq!(res[0].mime_type.as_deref(), Some("text/plain"));
    assert_eq!(res[1].name, "c");
    assert_eq!(res[1].title.as_deref(), Some("C"));
}

#[test]
fn resource_contents_default_to_requested_uri() {
    assert_eq!(json_text(&read_resource_params("file:///x")), r#"{"uri":"file:///x"}"#);
    let r = json(r#"{"contents":[{"text":"hello"},{"uri":"file:///other","blob":"AAA="}]}"#);
    let c = parse_resource_contents(&r, "file:///x");
    assert_eq!(c.len(), 2);
    assert_eq!(c[0].uri, "file:///x");
    assert_eq!(c[0].text.as_deref(), Some("hello"));
    assert_eq!(c[1].uri, "file:///other");
    assert_eq!(c[1].blob.as_deref(), Some("AAA="));
}

#[test]
fn prompt_params_and_items() {
    assert_eq!(json_text(&get_prompt_params("p", None)), r#"{"name":"p"}"#);
    let with_args = get_prompt_params("p", Some(json(r#"{"a":"b"}"#)));
    assert_eq!(with_args.get_str("name").map(|s| s.as_str()), Some("p"));
    assert_eq!(json_text(with_args.get("arguments").unwrap()), r#"{"a":"b"}"#);
    let r = json(r#"{"prompts":[{"name":"x"},{"name":"y"}]}"#);
    assert_eq!(result_array_items(&r, "prompts").len(), 2);
    assert!(result_array_items(&r, "messages").is_empty());
}

#[test]
fn request_ids_count_up() {
    let mut ids = RequestIds::new();
    assert_eq!(ids.next_id(), 1);
    assert_eq!(ids.next_id(), 2);
    assert_eq!(ids.next_id(), 3);
}

#[test]
fn request_ids_are_distinct() {
    let mut ids = RequestIds::new();
    let taken: Vec<u64> = (0..50).map(|_| ids.next_id()).collect();
    let expected: Vec<u64> = (1..=50).collect();
    assert_eq!(taken, expected);
}
