use griffin::config::{Config, ConfigController, ConfigWatcher, FileEvent};

#[test]
fn default_config_values() {
    let config = Config::default();
    assert_eq!(config.message, "");
    assert_eq!(config.listen_host, "127.0.0.1");
    assert_eq!(config.listen_port, 8080);
    assert_eq!(config.target_host, "127.0.0.1");
    assert_eq!(config.target_port, 3000);
}

#[test]
fn with_message_keeps_defaults() {
    let config = Config::with_message("v1".to_string());
    assert_eq!(config.message, "v1");
    assert_eq!(config.listen_host, "127.0.0.1");
    assert_eq!(config.listen_port, 8080);
    assert_eq!(config.target_host, "127.0.0.1");
    assert_eq!(config.target_port, 3000);
}

#[test]
fn equality_is_by_every_field() {
    let base = Config::default();
    assert!(base == Config::default());
    assert!(base == base.clone());
    assert!(base != Config::with_message("x".to_string()));
    assert!(base != Config { listen_host: "0.0.0.0".to_string(), ..Config::default() });
    assert!(base != Config { listen_port: 8081, ..Config::default() });
    assert!(base != Config { target_host: "backend".to_string(), ..Config::default() });
    assert!(base != Config { target_port: 3001, ..Config::default() });
}

#[test]
fn addresses() {
    let config = Config::default();
    assert_eq!(config.listen_address(), "127.0.0.1:8080");
    assert_eq!(config.target_authority(), "127.0.0.1:3000");
}

#[test]
fn addresses_at_the_edges_of_ports() {
    let config = Config {
        message: String::new(),
        listen_host: "localhost".to_string(),
        listen_port: 0,
        target_host: "".to_string(),
        target_port: 65535,
    };
    assert_eq!(config.listen_address(), "localhost:0");
    assert_eq!(config.target_authority(), ":65535");
    for (port, text) in [(7u16, "h:7"), (10, "h:10"), (99, "h:99"), (100, "h:100"), (1234, "h:1234"), (40404, "h:40404"), (10000, "h:10000")] {
        let config = Config { listen_host: "h".to_string(), listen_port: port, ..Config::default() };
        assert_eq!(config.listen_address(), text);
    }
}

#[test]
fn endpoints_of_default_config() {
    let ends = Config::default().endpoints().unwrap();
    assert_eq!(ends.listen_address, "127.0.0.1:8080");
    assert_eq!(ends.target.as_str(), "127.0.0.1:3000");
    assert_eq!(ends.target.host(), "127.0.0.1");
    assert_eq!(ends.target.port_u16(), Some(3000));
}

#[test]
fn endpoints_follow_the_fields() {
    let config = Config {
        message: String::new(),
        listen_host: "0.0.0.0".to_string(),
        listen_port: 443,
        target_host: "backend.internal".to_string(),
        target_port: 50051,
    };
    let ends = config.endpoints().unwrap();
    assert_eq!(ends.listen_address, "0.0.0.0:443");
    assert_eq!(ends.target.as_str(), "backend.internal:50051");
}

#[test]
fn target_that_is_no_authority_has_no_endpoints() {
    let config = Config { target_host: "not a host".to_string(), ..Config::default() };
    assert!(config.endpoints().is_none());
    let config = Config { target_host: "a/b".to_string(), ..Config::default() };
    assert!(config.endpoints().is_none());
}

#[test]
fn controller_starts_with_initial() {
    let controller = ConfigController::new(Config::with_message("init".to_string()));
    assert_eq!(controller.current().message, "init");
}

#[test]
fn equal_reload_is_no_signal() {
    let mut controller = ConfigController::new(Config::default());
    assert!(!controller.reload(Some(Config::default())));
    assert!(*controller.current() == Config::default());
}

#[test]
fn changed_reload_signals_and_replaces() {
    let mut controller = ConfigController::new(Config::default());
    let next = Config { listen_port: 9090, ..Config::default() };
    assert!(controller.reload(Some(next.clone())));
    assert!(*controller.current() == next);
    assert!(!controller.reload(Some(next.clone())));
    assert!(controller.reload(Some(Config::default())));
    assert_eq!(controller.current().listen_port, 8080);
}

#[test]
fn message_change_is_a_change() {
    let mut controller = ConfigController::new(Config::with_message("v1".to_string()));
    assert!(controller.reload(Some(Config::with_message("v2".to_string()))));
    assert_eq!(controller.current().message, "v2");
}

#[test]
fn unparsable_file_keeps_current() {
    let mut controller = ConfigController::new(Config::with_message("live".to_string()));
    assert!(!controller.reload(None));
    assert_eq!(controller.current().message, "live");
}

#[test]
fn only_data_changes_ask_reload() {
    assert!(ConfigWatcher::asks_reload(Some(FileEvent::ModifyData)));
    assert!(!ConfigWatcher::asks_reload(Some(FileEvent::ModifyOther)));
    assert!(!ConfigWatcher::asks_reload(Some(FileEvent::Access)));
    assert!(!ConfigWatcher::asks_reload(Some(FileEvent::Create)));
    assert!(!ConfigWatcher::asks_reload(Some(FileEvent::Remove)));
    assert!(!ConfigWatcher::asks_reload(Some(FileEvent::Other)));
    assert!(!ConfigWatcher::asks_reload(None));
}
