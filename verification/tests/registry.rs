use std::collections::BTreeSet;
use wsl_port_forwarder::config::{config_path, ensure_valid_port, PortsConfig};

fn set_of(ports: &[u16]) -> BTreeSet<u16> {
    ports.iter().copied().collect()
}

fn sorted(s: BTreeSet<u16>) -> Vec<u16> {
    s.into_iter().collect()
}

#[test]
fn all_ports_is_deduplicated_union() {
    let mut cfg = PortsConfig::default();
    cfg.add_manual_port(80);
    cfg.set_detected_ports(set_of(&[80, 3000]), set_of(&[443]));
    assert_eq!(sorted(cfg.all_ports()), vec![80, 443, 3000]);
}

#[test]
fn add_manual_port_idempotent() {
    let mut cfg = PortsConfig::default();
    assert!(cfg.add_manual_port(8080));
    assert!(!cfg.add_manual_port(8080));
    assert_eq!(sorted(cfg.all_ports()), vec![8080]);
}

#[test]
fn remove_manual_port_reports_presence() {
    let mut cfg = PortsConfig::default();
    cfg.add_manual_port(8080);
    assert!(cfg.remove_manual_port(8080));
    assert!(!cfg.remove_manual_port(8080));
    assert_eq!(sorted(cfg.all_ports()), Vec::<u16>::new());
}

#[test]
fn add_then_remove_restores_manual_set() {
    let mut cfg = PortsConfig::default();
    cfg.add_manual_port(22);
    let before = cfg.manual_ports.clone();
    cfg.add_manual_port(9000);
    cfg.remove_manual_port(9000);
    assert_eq!(cfg.manual_ports, before);
}

#[test]
fn set_detected_fully_replaces() {
    let mut cfg = PortsConfig::default();
    cfg.add_manual_port(22);
    cfg.set_detected_ports(set_of(&[1]), set_of(&[2]));
    assert_eq!(sorted(cfg.all_ports()), vec![1, 2, 22]);
    cfg.set_detected_ports(set_of(&[]), set_of(&[]));
    assert_eq!(sorted(cfg.all_ports()), vec![22]);
}

#[test]
fn zero_port_rejected_before_io() {
    let r = ensure_valid_port(0);
    assert_eq!(r, Err(String::from("port 0 is invalid")));
    assert_eq!(ensure_valid_port(1), Ok(()));
    assert_eq!(ensure_valid_port(65535), Ok(()));
}

#[test]
fn config_path_below_config_dir() {
    assert_eq!(
        config_path("/home/user/.config"),
        String::from("/home/user/.config/wsl-port-forwarder/ports.toml"),
    );
}
