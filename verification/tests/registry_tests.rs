use mcp_toolkit::json::{JsonNumber, JsonValue};
use mcp_toolkit::registry::builtin::{all_entries, search};
use mcp_toolkit::registry::remote::{
    encode, last_segment, npm_entries_from, npm_entry_from, npm_objects, npm_objects_from_text,
    registry_entries_from, registry_entries_from_text, smithery_entries_from,
    smithery_entries_from_text,
};
use mcp_toolkit::text::to_lower;
use mcp_toolkit::McpError;
use mcp_toolkit::registry::{builtin_entries, merge_ranked, rank_by_trust, RegistryEntry, RegistrySource};

/// A `serde_json` value in the library's model.
fn from_serde(v: serde_json::Value) -> JsonValue {
    match v {
        serde_json::Value::Null => JsonValue::Null,
        serde_json::Value::Bool(b) => JsonValue::Bool(b),
        serde_json::Value::Number(n) => JsonValue::Number(match (n.as_u64(), n.as_i64()) {
            (Some(u), _) => JsonNumber::PosInt(u),
            (None, Some(i)) => JsonNumber::NegInt(i),
            (None, None) => JsonNumber::Float(n.to_string()),
        }),
        serde_json::Value::String(s) => JsonValue::String(s),
        serde_json::Value::Array(a) => JsonValue::Array(a.into_iter().map(from_serde).collect()),
        serde_json::Value::Object(m) => {
            JsonValue::Object(m.into_iter().map(|(k, x)| (k, from_serde(x))).collect())
        }
    }
}

/// A value of the library's model as a `serde_json` value.
fn to_serde(v: &JsonValue) -> serde_json::Value {
    match v {
        JsonValue::Null => serde_json::Value::Null,
        JsonValue::Bool(b) => serde_json::Value::Bool(*b),
        JsonValue::Number(JsonNumber::PosInt(u)) => serde_json::Value::from(*u),
        JsonValue::Number(JsonNumber::NegInt(i)) => serde_json::Value::from(*i),
        JsonValue::Number(JsonNumber::Float(t)) => serde_json::from_str(t).unwrap(),
        JsonValue::String(s) => serde_json::Value::String(s.clone()),
        JsonValue::Array(a) => serde_json::Value::Array(a.iter().map(to_serde).collect()),
        JsonValue::Object(m) => {
            serde_json::Value::Object(m.iter().map(|(k, x)| (k.clone(), to_serde(x))).collect())
        }
    }
}

fn json(text: &str) -> JsonValue {
    from_serde(serde_json::from_str(text).expect("valid JSON"))
}

fn json_text(v: &JsonValue) -> String {
    to_serde(v).to_string()
}



fn entry(name: &str, trust: u16) -> RegistryEntry {
    RegistryEntry {
        name: name.to_string(),
        description: String::new(),
        transport: "stdio".to_string(),
        command: None,
        args: vec![],
        url: None,
        headers: vec![],
        env_vars: vec![],
        keywords: vec![],
        source: RegistrySource::Custom,
        trust_score: trust,
        npm_package: None,
    }
}

#[test]
fn all_entries_has_14() {
    assert_eq!(all_entries().len(), 14);
}

#[test]
fn search_browser() {
    let results = search("browser");
    assert!(!results.is_empty());
    assert!(results.iter().any(|r| r.name == "playwright"));
}

#[test]
fn search_database() {
    let results = search("database");
    assert!(results.iter().any(|r| r.name == "postgres"));
    assert!(results.iter().any(|r| r.name == "sqlite"));
}

#[test]
fn search_no_match() {
    let results = search("xyzzy_nonexistent_12345");
    assert!(results.is_empty());
}

#[test]
fn all_entries_have_trust_score() {
    for entry in all_entries() {
        assert_eq!(f64::from(entry.trust_score) / 1000.0, 1.0);
        assert_eq!(entry.source, RegistrySource::Builtin);
    }
}

#[test]
fn search_is_case_insensitive_and_any_word() {
    let upper = search("BROWSER");
    assert!(upper.iter().any(|r| r.name == "playwright"));
    let two = search("xyzzy_nonexistent browser");
    assert!(two.iter().any(|r| r.name == "playwright"));
    // An empty query has no words and matches nothing.
    assert!(search("   ").is_empty());
}

#[test]
fn builtin_entries_are_all_entries() {
    let a = builtin_entries();
    let b = all_entries();
    assert_eq!(a.len(), b.len());
    for (x, y) in a.iter().zip(b.iter()) {
        assert_eq!(x.name, y.name);
    }
}

#[test]
fn source_names() {
    assert_eq!(RegistrySource::Builtin.to_string(), "builtin");
    assert_eq!(RegistrySource::Smithery.to_string(), "smithery");
    assert_eq!(RegistrySource::Npm.to_string(), "npm");
    assert_eq!(RegistrySource::McpRegistry.to_string(), "mcp-registry");
    assert_eq!(RegistrySource::Custom.to_string(), "custom");
}

#[test]
fn rank_is_highest_trust_first_and_stable() {
    let ranked = rank_by_trust(vec![entry("a", 700), entry("b", 1000), entry("c", 700), entry("d", 800)]);
    let names: Vec<&str> = ranked.iter().map(|e| e.name.as_str()).collect();
    assert_eq!(names, vec!["b", "d", "a", "c"]);
}

#[test]
fn merge_ranks_across_batches() {
    let merged = merge_ranked(vec![vec![entry("x", 700)], vec![entry("y", 1000), entry("z", 700)]]);
    let names: Vec<&str> = merged.iter().map(|e| e.name.as_str()).collect();
    assert_eq!(names, vec!["y", "x", "z"]);
}

#[test]
fn encode_query() {
    assert_eq!(encode("hello world"), "hello+world");
    assert_eq!(encode("a-b_c.d~e"), "a-b_c.d~e");
    assert_eq!(encode("a/b&c"), "a%2Fb%26c");
    assert_eq!(encode("é"), "%C3%A9");
    assert_eq!(encode(""), "");
}

#[test]
fn last_segment_of_names() {
    assert_eq!(last_segment("@scope/pkg", '/'), "pkg");
    assert_eq!(last_segment("plain", '/'), "plain");
    assert_eq!(last_segment("a/", '/'), "");
}

#[test]
fn smithery_answer_is_read() {
    let body = json(
        r#"{"servers":[
            {"qualifiedName":"@acme/files","description":"Files","connections":[{"type":"stdio","command":"node","args":["x.js",3]}]},
            {"qualifiedName":"remote","connections":[{"type":"http","url":"https://r.example/mcp"}]},
            {"qualifiedName":"bare"},
            {"description":"no name"}
        ]}"#,
    );
    let es = smithery_entries_from(&body);
    assert_eq!(es.len(), 3);
    assert_eq!(es[0].name, "files");
    assert_eq!(es[0].npm_package.as_deref(), Some("@acme/files"));
    assert_eq!(es[0].command.as_deref(), Some("node"));
    assert_eq!(es[0].args, vec!["x.js".to_string()]);
    assert_eq!(es[0].trust_score, 700);
    assert_eq!(es[0].source, RegistrySource::Smithery);
    assert_eq!(es[1].transport, "http");
    assert_eq!(es[1].url.as_deref(), Some("https://r.example/mcp"));
    assert!(es[1].command.is_none());
    assert_eq!(es[2].command.as_deref(), Some("npx"));
    assert_eq!(es[2].args, vec!["-y".to_string(), "bare".to_string()]);
    assert!(smithery_entries_from(&json("{}")).is_empty());
}

#[test]
fn npm_package_is_read() {
    let body = json(
        r#"{"objects":[{"package":{"name":"@x/mcp-y","description":"Y","keywords":["mcp",1,"y"]},"score":{"final":0.5}},{"nothing":true}]}"#,
    );
    let objs = npm_objects(&body);
    assert_eq!(objs.len(), 2);
    let e = npm_entry_from(&objs[0], 450).unwrap();
    assert_eq!(e.name, "mcp-y");
    assert_eq!(e.description, "Y");
    assert_eq!(e.args, vec!["-y".to_string(), "@x/mcp-y".to_string()]);
    assert_eq!(e.keywords, vec!["mcp".to_string(), "y".to_string()]);
    assert_eq!(e.trust_score, 450);
    assert_eq!(e.source, RegistrySource::Npm);
    assert!(npm_entry_from(&objs[1], 450).is_none());
    // The trust stays between 100 and 699, below Smithery's 700.
    assert_eq!(npm_entry_from(&objs[0], 5).unwrap().trust_score, 100);
    assert_eq!(npm_entry_from(&objs[0], 800).unwrap().trust_score, 699);
    assert_eq!(npm_entry_from(&objs[0], 699).unwrap().trust_score, 699);
}

#[test]
fn mcp_registry_answer_is_read() {
    let body = json(r#"{"servers":[{"name":"io.github/x","description":"X"},{"id":1}]}"#);
    let es = registry_entries_from(&body);
    assert_eq!(es.len(), 1);
    assert_eq!(es[0].name, "io.github/x");
    assert_eq!(es[0].trust_score, 800);
    assert_eq!(es[0].source, RegistrySource::McpRegistry);
    assert_eq!(es[0].args, vec!["-y".to_string(), "io.github/x".to_string()]);
}

#[test]
fn joined_and_blank_queries() {
    let names = |q: &str| search(q).into_iter().map(|e| e.name).collect::<Vec<_>>();
    let a = names("browser");
    let b = names("database");
    let both = names("browser database");
    let expected: Vec<String> = all_entries()
        .into_iter()
        .map(|e| e.name)
        .filter(|n| a.contains(n) || b.contains(n))
        .collect();
    assert_eq!(both, expected);
    assert!(names("").is_empty());
}

/// Decodes an encoded query: `+` is a space and `%XX` a byte.
fn decode(s: &str) -> Vec<u8> {
    let b = s.as_bytes();
    let mut out = Vec::new();
    let mut i = 0;
    while i < b.len() {
        if b[i] == b'%' && i + 2 < b.len() {
            out.push(u8::from_str_radix(&s[i + 1..i + 3], 16).unwrap());
            i += 3;
        } else if b[i] == b'+' {
            out.push(b' ');
            i += 1;
        } else {
            out.push(b[i]);
            i += 1;
        }
    }
    out
}

#[test]
fn encode_decodes_back() {
    for s in ["hello world", "a+b%c", "é ~x", "", "100% sure?"] {
        let e = encode(s);
        assert!(e.chars().all(|c| c.is_ascii_alphanumeric() || "-_.~+%".contains(c)));
        assert_eq!(decode(&e), s.as_bytes().to_vec());
    }
    assert_eq!(encode("a b/c").len(), 1 + 1 + 1 + 3 + 1);
}

#[test]
fn answer_bodies_are_read_from_text() {
    let smithery = r#"{"servers":[{"qualifiedName":"@acme/weather","displayName":"Weather","description":"Forecasts"}]}"#;
    let entries = smithery_entries_from_text(smithery).expect("JSON");
    assert_eq!(entries.len(), 1);
    assert_eq!(entries[0].trust_score, 700);
    let npm = r#"{"objects":[{"package":{"name":"@acme/mcp-x","description":"x"},"searchScore":12345.6},{"package":{}}]}"#;
    let objects = npm_objects_from_text(npm).expect("JSON");
    assert_eq!(objects.len(), 2);
    let entries = npm_entries_from(&objects, &vec![123, 5]);
    assert_eq!(entries.len(), 1);
    assert_eq!(entries[0].name, "mcp-x");
    assert_eq!(entries[0].npm_package.as_deref(), Some("@acme/mcp-x"));
    assert_eq!(entries[0].trust_score, 123);
    let official = r#"{"servers":[{"name":"io.acme/files","description":"Files"}]}"#;
    let entries = registry_entries_from_text(official).expect("JSON");
    assert_eq!(entries.len(), 1);
    assert_eq!(entries[0].trust_score, 800);
}

#[test]
fn answer_bodies_that_are_not_json_are_parse_errors() {
    for (result, source) in [
        (smithery_entries_from_text("nope").map(|_| ()), "Smithery"),
        (npm_objects_from_text("{").map(|_| ()), "npm"),
        (registry_entries_from_text("").map(|_| ()), "MCP Registry"),
    ] {
        match result {
            Err(McpError::Registry(m)) => {
                let prefix = format!("{} JSON parse error: ", source);
                assert!(m.starts_with(&prefix), "{}", m);
                assert!(m.len() > prefix.len());
            }
            other => panic!("expected a registry error, got {:?}", other.is_ok()),
        }
    }
}

#[test]
fn npm_trust_is_clamped_by_entries_from() {
    let objects = npm_objects(&json(r#"{"objects":[{"package":{"name":"a"}},{"package":{"name":"b"}}]}"#));
    let entries = npm_entries_from(&objects, &vec![0, 5000]);
    assert_eq!(entries.iter().map(|e| e.trust_score).collect::<Vec<_>>(), vec![100, 699]);
}

#[test]
fn lower_casing() {
    assert_eq!(to_lower("Browser AUTOMATION 42"), "browser automation 42");
    assert_eq!(to_lower(""), "");
    assert_eq!(to_lower("ÄRGER Straße"), "ärger straße");
    assert_eq!(to_lower("ὈΔΥΣΣΕΎΣ"), "ὀδυσσεύς");
}

#[test]
fn search_literal_and_mixed_case() {
    let names: Vec<String> = search("BROWSER").into_iter().map(|e| e.name).collect();
    assert!(names.iter().any(|n| n.contains("playwright")), "{:?}", names);
    assert!(search("   \t ").is_empty());
}

#[test]
fn encode_escapes_with_upper_hex() {
    assert_eq!(encode("a/b"), "a%2Fb");
    assert_eq!(encode("é"), "%C3%A9");
    let e = encode("x?y=z&w");
    let bytes = e.as_bytes();
    for (i, b) in bytes.iter().enumerate() {
        if *b == b'%' {
            assert!(bytes[i + 1].is_ascii_hexdigit() && !bytes[i + 1].is_ascii_lowercase());
            assert!(bytes[i + 2].is_ascii_hexdigit() && !bytes[i + 2].is_ascii_lowercase());
        }
    }
}
