use mcp_toolkit::client::{McpServerInfo, McpToolInfo};
use mcp_toolkit::config::McpServerConfig;
use mcp_toolkit::json::{JsonNumber, JsonValue};
use mcp_toolkit::manager::{
    config_from_entry, display_name, not_connected, pin_capabilities, pin_capabilities_at,
    split_display_name, ServerState, ServerTable,
};
use mcp_toolkit::error::McpError;
use mcp_toolkit::manager::should_restart;
use mcp_toolkit::McpSettings;
use mcp_toolkit::registry::builtin::all_entries;
use mcp_toolkit::types::{CapabilityPin, McpPrompt, McpResource, ServerCapabilities};

/// A `serde_json` value in the library's model.
fn from_serde(v: serde_json::Value) -> JsonValue {
    match v {
        serde_json::Value::Null => JsonValue::Null,
        serde_json::Value::Bool(b) => JsonValue::Bool(b),
        serde_json::Value::Number(n) => JsonValue::Number(match (n.as_u64(), n.as_i64()) {
            (Some(u), _) => JsonNumber::PosInt(u),
            (None, Some(i)) => JsonNumber::NegInt(i),
            (None, None) => JsonNumber::Float(n.to_string()),
        }),
        serde_json::Value::String(s) => JsonValue::String(s),
        serde_json::Value::Array(a) => JsonValue::Array(a.into_iter().map(from_serde).collect()),
        serde_json::Value::Object(m) => {
            JsonValue::Object(m.into_iter().map(|(k, x)| (k, from_serde(x))).collect())
        }
    }
}

/// A value of the library's model as a `serde_json` value.
fn to_serde(v: &JsonValue) -> serde_json::Value {
    match v {
        JsonValue::Null => serde_json::Value::Null,
        JsonValue::Bool(b) => serde_json::Value::Bool(*b),
        JsonValue::Number(JsonNumber::PosInt(u)) => serde_json::Value::from(*u),
        JsonValue::Number(JsonNumber::NegInt(i)) => serde_json::Value::from(*i),
        JsonValue::Number(JsonNumber::Float(t)) => serde_json::from_str(t).unwrap(),
        JsonValue::String(s) => serde_json::Value::String(s.clone()),
        JsonValue::Array(a) => serde_json::Value::Array(a.iter().map(to_serde).collect()),
        JsonValue::Object(m) => {
            serde_json::Value::Object(m.iter().map(|(k, x)| (k.clone(), to_serde(x))).collect())
        }
    }
}

fn json(text: &str) -> JsonValue {
    from_serde(serde_json::from_str(text).expect("valid JSON"))
}

fn json_text(v: &JsonValue) -> String {
    to_serde(v).to_string()
}



fn config(name: &str) -> McpServerConfig {
    McpServerConfig {
        name: name.to_string(),
        transport: "stdio".to_string(),
        command: Some("echo".to_string()),
        args: vec![],
        url: None,
        headers: vec![],
        env: vec![],
        enabled: true,
        description: None,
        trust: None,
    }
}

fn tool(name: &str) -> McpToolInfo {
    McpToolInfo {
        name: name.to_string(),
        description: format!("the {} tool", name),
        input_schema: json(r#"{"type":"object"}"#),
        output_schema: None,
    }
}

fn info(tools: bool) -> McpServerInfo {
    McpServerInfo {
        name: "srv".to_string(),
        version: "1.0".to_string(),
        protocol_version: "2024-11-05".to_string(),
        capabilities: ServerCapabilities {
            tools,
            resources: true,
            resource_subscribe: false,
            prompts: false,
            logging: false,
        },
    }
}

fn state(name: &str, tools: Vec<McpToolInfo>) -> ServerState {
    ServerState::connected(config(name), info(true), Some(tools), Some(vec![]), None)
}

#[test]
fn create_manager_from_default_config() {
    let _table = ServerTable::new();
}

#[test]
fn list_tools_empty() {
    let table = ServerTable::new();
    assert!(table.tool_descriptors().is_empty());
}

#[test]
fn status_empty() {
    let table = ServerTable::new();
    assert!(table.statuses(&vec![]).is_empty());
}

#[test]
fn call_tool_not_found() {
    let table = ServerTable::new();
    assert!(table.get("nonexistent").is_none());
    let e = not_connected("nonexistent");
    assert!(matches!(e, McpError::NotFound(_)));
    assert_eq!(e.to_string(), "Not found: Server 'nonexistent' not connected");
}

#[test]
fn insert_get_remove() {
    let mut table = ServerTable::new();
    table.insert("a".to_string(), state("a", vec![tool("t1")]));
    table.insert("b".to_string(), state("b", vec![]));
    table.insert("a".to_string(), state("a", vec![tool("t1"), tool("t2")]));
    assert_eq!(table.len(), 2);
    assert_eq!(table.names(), vec!["a".to_string(), "b".to_string()]);
    assert_eq!(table.get("a").unwrap().tools.len(), 2);
    let removed = table.remove("a").unwrap();
    assert_eq!(removed.tools.len(), 2);
    assert!(table.get("a").is_none());
    assert!(table.get("b").is_some());
    assert!(table.remove("a").is_none());
    let drained = table.drain();
    assert_eq!(drained.len(), 1);
    assert_eq!(table.len(), 0);
}

#[test]
fn descriptors_are_named_server_colon_tool() {
    let mut table = ServerTable::new();
    table.insert("fs".to_string(), state("fs", vec![tool("read"), tool("write")]));
    table.insert("web".to_string(), state("web", vec![tool("fetch")]));
    let ds = table.tool_descriptors();
    let names: Vec<&str> = ds.iter().map(|d| d.display_name.as_str()).collect();
    assert_eq!(names, vec!["fs:read", "fs:write", "web:fetch"]);
    assert_eq!(ds[2].server_name, "web");
    assert_eq!(ds[2].tool_name, "fetch");
    assert_eq!(ds[2].description, "the fetch tool");
    for d in &ds {
        let (s, t) = split_display_name(&d.display_name).unwrap();
        assert_eq!(s, d.server_name);
        assert_eq!(t, d.tool_name);
    }
}

#[test]
fn display_name_split() {
    assert_eq!(display_name("srv", "tool"), "srv:tool");
    let (s, t) = split_display_name("srv:ns:tool").unwrap();
    assert_eq!(s, "srv");
    assert_eq!(t, "ns:tool");
    let e = split_display_name("no-colon").unwrap_err();
    assert!(matches!(e, McpError::Protocol(_)));
    assert_eq!(
        e.to_string(),
        "MCP protocol error: Invalid tool display name 'no-colon' — expected 'server:tool'"
    );
}

#[test]
fn resource_and_prompt_lists() {
    let mut table = ServerTable::new();
    let mut s = state("a", vec![]);
    s.resources = vec![McpResource {
        uri: "file:///x".to_string(),
        name: "x".to_string(),
        title: None,
        description: None,
        mime_type: None,
    }];
    s.prompts = vec![McpPrompt { name: "p".to_string(), description: None, arguments: vec![] }];
    table.insert("a".to_string(), s);
    let rs = table.resource_list();
    assert_eq!(rs.len(), 1);
    assert_eq!(rs[0].0, "a");
    assert_eq!(rs[0].1.uri, "file:///x");
    let ps = table.prompt_list();
    assert_eq!(ps.len(), 1);
    assert_eq!(ps[0].1.name, "p");
}

#[test]
fn statuses_report_each_server() {
    let mut table = ServerTable::new();
    table.insert("a".to_string(), state("a", vec![tool("t")]));
    table.insert("b".to_string(), state("b", vec![]));
    let st = table.statuses(&vec![true, false]);
    assert_eq!(st.len(), 2);
    assert_eq!(st[0].name, "a");
    assert!(st[0].connected);
    assert_eq!(st[0].server_info.as_deref(), Some("srv v1.0"));
    assert_eq!(st[0].tool_count, 1);
    assert_eq!(st[0].restart_count, 0);
    assert_eq!(st[0].transport, "stdio");
    assert!(!st[1].connected);
}

#[test]
fn connected_state_keeps_what_is_offered() {
    let s = ServerState::connected(config("a"), info(false), Some(vec![tool("t")]), None, Some(vec![]));
    assert!(s.tools.is_empty());
    assert!(s.resources.is_empty());
    assert!(s.capability_pin.is_none());
    let s2 = state("a", vec![tool("t")]);
    assert_eq!(s2.tools.len(), 1);
    let pin = s2.capability_pin.unwrap();
    assert_eq!(pin.tool_count, 1);
    assert_eq!(pin.server_name, "a");
}

#[test]
fn fresh_pin_gives_no_warning_and_change_does() {
    let mut table = ServerTable::new();
    table.insert("a".to_string(), state("a", vec![tool("t1"), tool("t2")]));
    assert!(table.capability_warnings().is_empty());
    let mut s = table.remove("a").unwrap();
    s.tools.pop();
    table.insert("a".to_string(), s);
    assert_eq!(
        table.capability_warnings(),
        vec!["Server 'a': tool count changed from 2 to 1".to_string()]
    );
}

#[test]
fn pin_hash_is_sha256_of_tool_names() {
    // sha256 of `["a"]`
    let pin: CapabilityPin = pin_capabilities_at("s", &vec![tool("a")], 42).unwrap();
    assert_eq!(pin.tools_hash, "0eb5b8d6f81bc677da8a08567cc4fa9a06a57e9ec8da85ed73a7f62727996002");
    assert_eq!(pin.pinned_at, 42);
    assert!(pin_capabilities("s", &vec![]).is_none());
    let other = pin_capabilities_at("s", &vec![tool("b")], 42).unwrap();
    assert_ne!(pin.tools_hash, other.tools_hash);
}

#[test]
fn install_config_from_registry_entry() {
    let entry = all_entries().into_iter().find(|e| !e.env_vars.is_empty()).unwrap();
    let c = config_from_entry(&entry);
    assert_eq!(c.name, entry.name);
    assert!(c.enabled);
    assert_eq!(c.description.as_deref(), Some(entry.description.as_str()));
    assert!(c.trust.is_none());
    assert_eq!(c.env.len(), entry.env_vars.len());
    for (k, v) in &c.env {
        assert!(entry.env_vars.contains(k));
        assert_eq!(v, "");
    }
}

#[test]
fn pin_hash_depends_on_names_only() {
    let mut a = tool("x");
    a.description = "one".to_string();
    let mut b = tool("x");
    b.description = "two".to_string();
    b.input_schema = json(r#"{"type":"string"}"#);
    let pa = pin_capabilities_at("s", &vec![a], 1).unwrap();
    let pb = pin_capabilities_at("t", &vec![b], 2).unwrap();
    assert_eq!(pa.tools_hash, pb.tools_hash);
}

#[test]
fn resolve_display_name_errors() {
    let mut table = ServerTable::new();
    table.insert("fs".to_string(), state("fs", vec![tool("read")]));
    let (s, t) = table.resolve_display_name("fs:read").unwrap();
    assert_eq!((s.as_str(), t.as_str()), ("fs", "read"));
    match table.resolve_display_name("web:fetch") {
        Err(McpError::NotFound(m)) => assert_eq!(m, "Server 'web' not connected"),
        _ => panic!("Expected NotFound"),
    }
    assert!(matches!(table.resolve_display_name("fsread"), Err(McpError::Protocol(_))));
}

#[test]
fn same_count_but_other_tools_is_warned() {
    let mut table = ServerTable::new();
    table.insert("a".to_string(), state("a", vec![tool("t1"), tool("t2")]));
    let mut s = table.remove("a").unwrap();
    s.tools[1] = tool("t3");
    table.insert("a".to_string(), s);
    assert_eq!(
        table.capability_warnings(),
        vec!["Server 'a': tool list changed since pinning".to_string()]
    );
    // Same names again: no warning.
    let mut s = table.remove("a").unwrap();
    s.tools[1] = tool("t2");
    table.insert("a".to_string(), s);
    assert!(table.capability_warnings().is_empty());
}

#[test]
fn restarts_are_bounded_and_counted() {
    let mut settings = McpSettings::default();
    assert!(should_restart(&settings, 0, false));
    assert!(should_restart(&settings, 2, false));
    assert!(!should_restart(&settings, 3, false));
    assert!(!should_restart(&settings, 0, true));
    settings.auto_restart = false;
    assert!(!should_restart(&settings, 0, false));

    let mut table = ServerTable::new();
    table.insert("a".to_string(), state("a", vec![]));
    table.insert("b".to_string(), state("b", vec![]));
    table.note_restart("b", 2);
    table.note_restart("zzz", 5);
    assert_eq!(table.get("b").unwrap().restart_count, 2);
    assert_eq!(table.get("a").unwrap().restart_count, 0);
    assert_eq!(table.names(), vec!["a".to_string(), "b".to_string()]);
}

#[test]
fn display_names_distinct() {
    let mut table = ServerTable::new();
    table.insert("a".to_string(), state("a", vec![tool("x"), tool("y")]));
    table.insert("b".to_string(), state("b", vec![tool("x")]));
    let ds = table.tool_descriptors();
    for i in 0..ds.len() {
        for j in 0..ds.len() {
            if i != j {
                assert_ne!(ds[i].display_name, ds[j].display_name);
            }
        }
    }
}
