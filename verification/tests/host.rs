use tdview::config::{Config, Source};
use tdview::host::{
    connect_host, connect_taos, dsn, ConnectError, HostData, RegistryError, SessionRegistry,
    DIRECT_PORT,
};

fn source(ip: &str, user: Option<&str>, local_port: Option<usize>) -> Source {
    Source {
        ip: ip.to_string(),
        port: 6030,
        ssh_user: user.map(|u| u.to_string()),
        ssh_password: None,
        local_port,
        db: "robots".to_string(),
    }
}

fn host(ip: &str, handle: Option<u32>, stables: &[&str]) -> HostData<u32> {
    HostData {
        ip: ip.to_string(),
        port: 6030,
        local_port: None,
        ssh_user: None,
        password: None,
        taos: handle,
        db: "robots".to_string(),
        stables: stables.iter().map(|s| s.to_string()).collect(),
    }
}

fn ips(registry: &SessionRegistry<u32>) -> Vec<&str> {
    registry.hosts.iter().map(|h| h.ip.as_str()).collect()
}

#[test]
fn config_lists_its_sources_in_order() {
    let config = Config { sources: vec![source("a", None, None), source("b", None, None)] };
    assert_eq!(config.sources.len(), 2);
    assert_eq!(config.sources[1].ip, "b");
}

#[test]
fn connect_host_without_tunnel() {
    let (host, tunnel) = connect_host::<u32>(source("10.0.0.1", None, None)).unwrap();
    assert!(tunnel.is_none());
    assert_eq!(host.ip, "10.0.0.1");
    assert_eq!(host.port, 6030);
    assert_eq!(host.db, "robots");
    assert!(host.taos.is_none());
    assert!(host.stables.is_empty());
    assert!(host.ssh_user.is_none());
}

#[test]
fn connect_host_with_tunnel_gives_the_arguments_of_the_command() {
    let mut config = source("10.0.0.1", Some("bob"), Some(7000));
    config.ssh_password = Some("SECRET-REDACTED".to_string());
    let (host, tunnel) = connect_host::<u32>(config).unwrap();
    assert_eq!(
        tunnel,
        Some(vec![
            "-NL".to_string(),
            "7000:127.0.0.1:6030".to_string(),
            "bob@10.0.0.1".to_string()
        ])
    );
    assert_eq!(host.local_port, Some(7000));
    assert_eq!(host.ssh_user.as_deref(), Some("bob"));
    assert_eq!(host.password.as_deref(), Some("SECRET-REDACTED"));
}

#[test]
fn connect_host_needs_a_local_port_for_a_tunnel() {
    let out = connect_host::<u32>(source("10.0.0.1", Some("bob"), None));
    assert_eq!(out.err(), Some(ConnectError::MissingLocalPort));
}

#[test]
fn dsn_points_at_the_host_or_at_the_tunnel() {
    assert_eq!(DIRECT_PORT, 6030);
    let direct = host("10.0.0.1", None, &[]);
    assert_eq!(dsn(&direct), Ok("taos://10.0.0.1:6030".to_string()));
    let mut tunneled = host("10.0.0.1", None, &[]);
    tunneled.ssh_user = Some("bob".to_string());
    tunneled.local_port = Some(7000);
    assert_eq!(dsn(&tunneled), Ok("taos://127.0.0.1:7000".to_string()));
    tunneled.local_port = None;
    assert_eq!(dsn(&tunneled), Err(ConnectError::MissingLocalPort));
}

#[test]
fn dsn_ignores_a_local_port_without_tunnel() {
    let mut direct = host("db.example", None, &[]);
    direct.local_port = Some(7000);
    direct.port = 7100;
    assert_eq!(dsn(&direct), Ok("taos://db.example:6030".to_string()));
}

#[test]
fn connect_taos_keeps_the_handle_and_sorts_the_catalog() {
    let mut h = host("a", None, &["old"]);
    connect_taos(&mut h, 17, vec!["st_b".to_string(), "st_a".to_string(), "Z".to_string()]);
    assert_eq!(h.taos, Some(17));
    assert_eq!(h.stables, vec!["Z", "st_a", "st_b"]);
    assert_eq!(h.ip, "a");
    assert_eq!(h.db, "robots");
}

#[test]
fn switch_active_brings_the_host_to_the_front() {
    let mut registry = SessionRegistry::new(vec![host("A", Some(1), &[]), host("B", Some(2), &[])]);
    assert_eq!(registry.active().ip, "A");
    assert_eq!(registry.switch_active(&"B".to_string()), Ok(1));
    assert_eq!(registry.active().ip, "B");
    assert_eq!(registry.active().taos, Some(2));
    assert_eq!(registry.hosts.len(), 2);
    assert_eq!(registry.hosts[1].ip, "A");
    assert_eq!(registry.hosts[1].taos, Some(1));
}

#[test]
fn switch_active_swaps_and_moves_no_other_session() {
    let mut registry = SessionRegistry::new(vec![
        host("A", None, &[]),
        host("B", None, &[]),
        host("C", None, &[]),
        host("D", None, &[]),
    ]);
    assert_eq!(registry.switch_active(&"C".to_string()), Ok(2));
    assert_eq!(ips(&registry), vec!["C", "B", "A", "D"]);
    assert_eq!(registry.switch_active(&"D".to_string()), Ok(3));
    assert_eq!(ips(&registry), vec!["D", "B", "A", "C"]);
    assert_eq!(registry.switch_active(&"D".to_string()), Ok(0));
    assert_eq!(ips(&registry), vec!["D", "B", "A", "C"]);
}

#[test]
fn switch_active_takes_the_first_of_equal_addresses() {
    let mut registry = SessionRegistry::new(vec![
        host("A", Some(1), &[]),
        host("B", Some(2), &[]),
        host("B", Some(3), &[]),
    ]);
    assert_eq!(registry.switch_active(&"B".to_string()), Ok(1));
    assert_eq!(registry.active().taos, Some(2));
    assert_eq!(registry.hosts[2].taos, Some(3));
}

#[test]
fn switch_active_to_an_unknown_host_changes_nothing() {
    let mut registry = SessionRegistry::new(vec![host("A", None, &[]), host("B", None, &[])]);
    assert_eq!(registry.switch_active(&"C".to_string()), Err(RegistryError::UnknownHost));
    assert_eq!(ips(&registry), vec!["A", "B"]);
    let mut empty: SessionRegistry<u32> = SessionRegistry::new(Vec::new());
    assert_eq!(empty.switch_active(&"A".to_string()), Err(RegistryError::UnknownHost));
    assert!(empty.hosts.is_empty());
}

#[test]
fn get_stables_is_the_catalog_of_the_active_host() {
    let mut registry = SessionRegistry::new(vec![
        host("A", None, &["events", "status"]),
        host("B", None, &["other"]),
    ]);
    assert_eq!(registry.get_stables(), vec!["events", "status"]);
    registry.switch_active(&"B".to_string()).unwrap();
    assert_eq!(registry.get_stables(), vec!["other"]);
}

#[test]
fn first_stable_is_the_first_of_the_active_catalog() {
    let mut registry = SessionRegistry::new(vec![
        host("A", None, &["events", "status"]),
        host("B", None, &[]),
    ]);
    assert_eq!(registry.first_stable(), Some("events".to_string()));
    registry.switch_active(&"B".to_string()).unwrap();
    assert_eq!(registry.first_stable(), None);
    let empty: SessionRegistry<u32> = SessionRegistry::new(Vec::new());
    assert_eq!(empty.first_stable(), None);
}
