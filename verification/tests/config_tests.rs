use mcp_toolkit::config::{
    default_health_interval, default_max_restarts, default_timeout, default_transport,
    default_true, McpConfig, McpServerConfig,
};
use mcp_toolkit::types::TrustLevel;

fn server(name: &str, enabled: bool) -> McpServerConfig {
    McpServerConfig {
        name: name.to_string(),
        transport: "stdio".to_string(),
        command: Some("echo".to_string()),
        args: vec![],
        url: None,
        headers: vec![],
        env: vec![],
        enabled,
        description: None,
        trust: None,
    }
}

#[test]
fn default_config() {
    let config = McpConfig::default();
    assert!(config.settings.auto_connect);
    assert_eq!(config.settings.default_timeout_secs, 30);
    assert!(config.servers.is_empty());
}

#[test]
fn upsert_and_remove_server() {
    let mut config = McpConfig::default();
    let server = server("test", true);

    config.upsert_server(server.clone());
    assert_eq!(config.servers.len(), 1);

    // Update existing
    let mut updated = server;
    updated.description = Some("Updated".to_string());
    config.upsert_server(updated);
    assert_eq!(config.servers.len(), 1);
    assert_eq!(config.servers[0].description.as_deref(), Some("Updated"));

    // Remove
    assert!(config.remove_server("test"));
    assert!(config.servers.is_empty());
    assert!(!config.remove_server("nonexistent"));
}

#[test]
fn default_settings_values() {
    let config = McpConfig::default();
    assert!(config.settings.registry_enabled);
    assert!(config.settings.auto_restart);
    assert_eq!(config.settings.max_restarts, 3);
    assert_eq!(config.settings.health_check_interval_secs, 60);
    assert_eq!(config.settings.default_trust, TrustLevel::Sandboxed);
    assert!(default_true());
    assert_eq!(default_timeout(), 30);
    assert_eq!(default_max_restarts(), 3);
    assert_eq!(default_health_interval(), 60);
    assert_eq!(default_transport(), "stdio");
}

#[test]
fn upsert_then_get_finds_the_server() {
    let mut config = McpConfig::default();
    config.upsert_server(server("a", true));
    config.upsert_server(server("b", false));
    let mut b2 = server("b", true);
    b2.command = Some("cat".to_string());
    config.upsert_server(b2);
    assert_eq!(config.servers.len(), 2);
    assert_eq!(config.servers[0].name, "a");
    assert_eq!(config.servers[1].name, "b");
    assert_eq!(config.get_server("b").unwrap().command.as_deref(), Some("cat"));
    assert_eq!(config.get_server("a").unwrap().command.as_deref(), Some("echo"));
    assert!(config.get_server("c").is_none());
}

#[test]
fn remove_keeps_the_others_in_order() {
    let mut config = McpConfig::default();
    config.upsert_server(server("a", true));
    config.upsert_server(server("b", true));
    config.upsert_server(server("c", true));
    assert!(config.remove_server("b"));
    assert!(config.get_server("b").is_none());
    let names: Vec<&str> = config.servers.iter().map(|s| s.name.as_str()).collect();
    assert_eq!(names, vec!["a", "c"]);
}

#[test]
fn remove_drops_every_entry_of_that_name() {
    let mut config = McpConfig::default();
    config.servers.push(server("dup", true));
    config.servers.push(server("x", true));
    config.servers.push(server("dup", false));
    assert!(config.remove_server("dup"));
    assert_eq!(config.servers.len(), 1);
    assert_eq!(config.servers[0].name, "x");
}

#[test]
fn enabled_servers_keep_order() {
    let mut config = McpConfig::default();
    config.upsert_server(server("a", true));
    config.upsert_server(server("b", false));
    config.upsert_server(server("c", true));
    let names: Vec<&str> = config.enabled_servers().iter().map(|s| s.name.as_str()).collect();
    assert_eq!(names, vec!["a", "c"]);
}
