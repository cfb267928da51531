use proc_manager::app::{finish_connect, ActiveScreen, UiState};
use proc_manager::configuration::ServerConfig;
use proc_manager::screens::ServerInfo;
use proc_manager::servers::{config_for, initial_servers, key_location, ssh_address, KeyLocation};

fn server(name: &str, address: &str) -> ServerConfig {
    ServerConfig { name: name.to_string(), address: address.to_string(), user: "me".to_string(), ssh_key: None }
}

#[test]
fn servers_start_disconnected() {
    let cfg = Some(vec![server("a", "10.0.0.1"), server("b", "host:2222")]);
    let s = initial_servers(&cfg);
    assert_eq!(s.len(), 2);
    assert_eq!(s[1].name, "b");
    assert_eq!(s[1].address, "host:2222");
    assert_eq!(s[0].status, "Disconnected");
    assert!(initial_servers(&None).is_empty());
}

#[test]
fn ssh_address_defaults_to_port_22() {
    assert_eq!(ssh_address(&server("a", "10.0.0.1")), "10.0.0.1:22");
    assert_eq!(ssh_address(&server("b", "host:2222")), "host:2222");
}

#[test]
fn key_paths_are_looked_up_under_home() {
    assert!(matches!(key_location("~/.ssh/id_rsa"), KeyLocation::InHome(p) if p == ".ssh/id_rsa"));
    assert!(matches!(key_location("/Downloads/key.pem"), KeyLocation::InHome(p) if p == "Downloads/key.pem"));
    assert!(matches!(key_location("/etc/key"), KeyLocation::AsGiven));
    assert!(matches!(key_location("~"), KeyLocation::AsGiven));
}

#[test]
fn config_is_found_by_name() {
    let cfg = Some(vec![server("a", "x"), server("b", "y"), server("b", "z")]);
    assert_eq!(config_for(&cfg, "b"), Some(1));
    assert_eq!(config_for(&cfg, "c"), None);
    assert_eq!(config_for(&None, "a"), None);
}

#[test]
fn connection_outcomes() {
    let mut ui = UiState::new(ActiveScreen::ServerList);
    let mut s = ServerInfo { name: "a".to_string(), address: "x".to_string(), status: "Connecting...".to_string() };
    let msg = finish_connect(&mut ui, &mut s, "a", Err("refused".to_string()));
    assert_eq!(msg, "SSH Error: refused");
    assert_eq!(s.status, "Error");
    assert_eq!(ui.active_screen, ActiveScreen::ServerList);
    let msg = finish_connect(&mut ui, &mut s, "a", Ok(()));
    assert_eq!(msg, "Connected to a");
    assert_eq!(s.status, "Connected");
    assert_eq!(ui.active_screen, ActiveScreen::ProcessList);
}
