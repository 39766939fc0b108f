use std::collections::BTreeSet;
use wsl_port_forwarder::config::PortsConfig;
use wsl_port_forwarder::daemon::DaemonState;
use wsl_port_forwarder::net::{parse_first_ipv4, parse_ipv4, Ipv4};
use wsl_port_forwarder::windows::{
    add_command, delete_command, ipv4_to_string, RuleSynchronizer, SyncStep,
};

fn set_of(ports: &[u16]) -> BTreeSet<u16> {
    ports.iter().copied().collect()
}

fn ip(a: u8, b: u8, c: u8, d: u8) -> Ipv4 {
    Ipv4 { a, b, c, d }
}

#[test]
fn parse_ipv4_accepts_dotted_quad() {
    assert_eq!(parse_ipv4("172.29.112.1"), Some(ip(172, 29, 112, 1)));
    assert_eq!(parse_ipv4("0.0.0.0"), Some(ip(0, 0, 0, 0)));
    assert_eq!(parse_ipv4("255.255.255.255"), Some(ip(255, 255, 255, 255)));
}

#[test]
fn parse_ipv4_rejects_malformed() {
    assert_eq!(parse_ipv4("1.2.3"), None);
    assert_eq!(parse_ipv4("1.2.3.4.5"), None);
    assert_eq!(parse_ipv4("192.168.1.300"), None);
    assert_eq!(parse_ipv4("01.2.3.4"), None);
    assert_eq!(parse_ipv4(""), None);
    assert_eq!(parse_ipv4("a.b.c.d"), None);
}

#[test]
fn first_ipv4_token_wins() {
    assert_eq!(
        parse_first_ipv4("172.29.112.1 fe80::215:5dff:fe00:1 \n"),
        Some(ip(172, 29, 112, 1)),
    );
    assert_eq!(parse_first_ipv4("junk 10.0.0.5 10.0.0.6"), Some(ip(10, 0, 0, 5)));
    assert_eq!(parse_first_ipv4("01.2.3.4 10.0.0.5"), Some(ip(10, 0, 0, 5)));
    assert_eq!(parse_first_ipv4("no address here"), None);
    assert_eq!(parse_first_ipv4(""), None);
}

#[test]
fn ipv4_spelling() {
    assert_eq!(ipv4_to_string(&ip(172, 29, 112, 1)), String::from("172.29.112.1"));
}

#[test]
fn command_strings_exact() {
    assert_eq!(
        delete_command(80),
        String::from(
            "netsh interface portproxy delete v4tov4 listenport=80 listenaddress=0.0.0.0"
        ),
    );
    assert_eq!(
        add_command(443, &ip(172, 29, 112, 1)),
        String::from(
            "netsh interface portproxy add v4tov4 listenport=443 listenaddress=0.0.0.0 \
             connectport=443 connectaddress=172.29.112.1"
        ),
    );
}

#[test]
fn synchronizer_delete_then_add_in_order() {
    let guest = ip(172, 29, 112, 1);
    let mut sync = RuleSynchronizer::new(guest, vec![80, 443]);
    let mut issued: Vec<(SyncStep, String)> = Vec::new();
    while let Some((step, cmd)) = sync.next_command() {
        issued.push((step, cmd));
        match step {
            SyncStep::Delete => sync.record_delete_issued(),
            SyncStep::Add => sync.record_add_outcome(true),
        }
    }
    assert!(sync.succeeded());
    assert_eq!(
        issued,
        vec![
            (SyncStep::Delete, delete_command(80)),
            (SyncStep::Add, add_command(80, &guest)),
            (SyncStep::Delete, delete_command(443)),
            (SyncStep::Add, add_command(443, &guest)),
        ],
    );
}

#[test]
fn synchronizer_add_failure_halts_before_next_port() {
    let guest = ip(172, 29, 112, 1);
    let mut sync = RuleSynchronizer::new(guest, vec![80, 443]);

    let (step, cmd) = sync.next_command().expect("delete for port 80 expected");
    assert_eq!(step, SyncStep::Delete);
    assert_eq!(cmd, delete_command(80));
    sync.record_delete_issued();

    let (step, cmd) = sync.next_command().expect("add for port 80 expected");
    assert_eq!(step, SyncStep::Add);
    assert_eq!(cmd, add_command(80, &guest));
    sync.record_add_outcome(false);

    assert_eq!(sync.next_command(), None);
    assert!(sync.is_done());
    assert!(!sync.succeeded());
}

#[test]
fn daemon_skips_unchanged_cycle_and_resyncs_on_change() {
    let guest = ip(172, 29, 112, 1);
    let other = ip(172, 29, 112, 2);
    let mut state = DaemonState::new();

    // First cycle: nothing applied yet, so the synchronizer must run.
    assert!(state.needs_sync(&guest, &set_of(&[80, 443])));
    state.record_applied(guest, set_of(&[80, 443]));

    // Identical second cycle: at most one invocation across both cycles.
    assert!(!state.needs_sync(&guest, &set_of(&[80, 443])));

    // A changed address or port set invokes it again.
    assert!(state.needs_sync(&other, &set_of(&[80, 443])));
    assert!(state.needs_sync(&guest, &set_of(&[80])));
    assert!(state.needs_sync(&guest, &set_of(&[80, 443, 8080])));
}

#[test]
fn manual_add_cycle_end_to_end() {
    // Persisted state absent: the registry defaults to empty.
    let mut cfg = PortsConfig::default();

    // Manual add of port 9000; discovery returns empty for both sources.
    assert!(cfg.add_manual_port(9000));
    cfg.set_detected_ports(BTreeSet::new(), BTreeSet::new());

    // What would be persisted afterwards.
    assert_eq!(cfg.manual_ports.iter().copied().collect::<Vec<u16>>(), vec![9000]);
    assert!(cfg.pm2_ports.is_empty());
    assert!(cfg.caddy_ports.is_empty());

    // The NAT primitive receives exactly one delete+add pair for 9000 at
    // the resolved guest address.
    let guest = parse_first_ipv4("172.29.112.1\n").expect("address resolves");
    let ports: Vec<u16> = cfg.all_ports().into_iter().collect();
    let mut sync = RuleSynchronizer::new(guest, ports);
    let mut issued: Vec<String> = Vec::new();
    while let Some((step, cmd)) = sync.next_command() {
        issued.push(cmd);
        match step {
            SyncStep::Delete => sync.record_delete_issued(),
            SyncStep::Add => sync.record_add_outcome(true),
        }
    }
    assert_eq!(issued, vec![delete_command(9000), add_command(9000, &guest)]);
}
