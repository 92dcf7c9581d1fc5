use std::path::PathBuf;
use std::time::Duration;

use xline_operator::heartbeat::HeartbeatStatus;
use xline_operator::sidecar::config::{Backup, Config};
use xline_operator::sidecar::health::{
    is_reached, Health, DEPLOY_OPERATOR_ROUTE, MEMBER_HEALTH_ROUTE,
};
use xline_operator::shutdown::{Halt, Shutdown};
use xline_operator::sidecar::operator::Operator;
use xline_operator::xline::Member;

fn member(name: &str, addr: &str) -> Member {
    Member { name: name.to_owned(), addr: addr.to_owned() }
}

fn strings(words: &[&str]) -> Vec<String> {
    words.iter().map(|w| (*w).to_owned()).collect()
}

fn config() -> Config {
    Config::new(
        "node1".to_owned(),
        vec![member("node1", "10.0.0.1:8000"), member("node2", "10.0.0.2:8000")],
        "operator:8080".to_owned(),
        "0.0.0.0:8000".to_owned(),
        Duration::from_secs(20),
        Duration::from_secs(10),
        Duration::from_secs(5),
        Some(Backup::PV { path: PathBuf::from("/xline-backup") }),
    )
}

#[test]
fn the_configuration_keeps_what_it_was_given() {
    let c = config();
    assert_eq!(c.name, "node1");
    assert_eq!(c.members, vec![member("node1", "10.0.0.1:8000"), member("node2", "10.0.0.2:8000")]);
    assert_eq!(c.deploy_op_addr, "operator:8080");
    assert_eq!(c.status_listen_addr, "0.0.0.0:8000");
    assert_eq!(c.check_interval, Duration::from_secs(20));
    assert_eq!(c.heartbeat_interval, Duration::from_secs(10));
    assert_eq!(c.client_timeout, Duration::from_secs(5));
    match c.backup {
        Some(Backup::PV { path }) => assert_eq!(path, PathBuf::from("/xline-backup")),
        other => panic!("not a volume: {other:?}"),
    }
}

#[test]
fn a_backup_may_go_to_s3() {
    let c = Config::new(
        "n".to_owned(),
        vec![],
        String::new(),
        String::new(),
        Duration::ZERO,
        Duration::ZERO,
        Duration::ZERO,
        Some(Backup::S3 { path: "bucket/dir".to_owned(), secret: "key".to_owned() }),
    );
    match c.backup {
        Some(Backup::S3 { path, secret }) => {
            assert_eq!(path, "bucket/dir");
            assert_eq!(secret, "key");
        },
        other => panic!("not s3: {other:?}"),
    }
}

#[test]
fn the_sidecar_operator_keeps_its_configuration() {
    let operator = Operator::new(config());
    assert_eq!(operator.config.name, "node1");
    assert_eq!(operator.config.members.len(), 2);
}

#[test]
fn the_first_interrupt_asks_and_the_second_aborts() {
    let (first, asked) = Shutdown::Running.on_interrupt();
    assert_eq!((first, asked), (Shutdown::Graceful, Halt::RequestExit));
    let (second, aborted) = first.on_interrupt();
    assert_eq!((second, aborted), (Shutdown::Forced, Halt::Abort));
    assert_eq!(second.on_interrupt(), (Shutdown::Forced, Halt::Abort));
}

#[test]
fn routes_are_what_operator_and_sidecar_agree_on() {
    assert_eq!(DEPLOY_OPERATOR_ROUTE, "/status");
    assert_eq!(MEMBER_HEALTH_ROUTE, "/health");
}

#[test]
fn health_probes_the_health_route_of_every_member() {
    let c = config();
    let health = Health::new(c.name, c.members, &c.deploy_op_addr);
    assert_eq!(health.id(), "node1");
    assert_eq!(health.deploy_operator_url(), "http://operator:8080/status");
    assert_eq!(
        health.members(),
        &vec![
            member("node1", "http://10.0.0.1:8000/health"),
            member("node2", "http://10.0.0.2:8000/health"),
        ]
    );
}

#[test]
fn health_without_members_probes_nobody() {
    let health = Health::new("solo".to_owned(), vec![], "");
    assert!(health.members().is_empty());
    assert_eq!(health.deploy_operator_url(), "http:///status");
}

#[test]
fn a_sidecar_always_reaches_itself() {
    let health = Health::new("node1".to_owned(), vec![], "operator:8080");
    assert_eq!(
        health.probe(100, strings(&["node2", "node3"])),
        HeartbeatStatus::new("node1".to_owned(), 100, strings(&["node2", "node3", "node1"]))
    );
    assert_eq!(
        health.probe(101, vec![]),
        HeartbeatStatus::new("node1".to_owned(), 101, strings(&["node1"]))
    );
}

#[test]
fn a_sidecar_that_answered_itself_is_not_added_again() {
    let health = Health::new("node1".to_owned(), vec![], "operator:8080");
    assert_eq!(
        health.probe(u64::MAX, strings(&["node2", "node1", "node3"])),
        HeartbeatStatus::new("node1".to_owned(), u64::MAX, strings(&["node2", "node1", "node3"]))
    );
    assert_eq!(
        health.probe(0, strings(&["node1", "node1"])),
        HeartbeatStatus::new("node1".to_owned(), 0, strings(&["node1", "node1"]))
    );
}

#[test]
fn the_sidecar_operator_probes_the_members_of_its_configuration() {
    let health = Operator::new(config()).health();
    assert_eq!(health.id(), "node1");
    assert_eq!(health.deploy_operator_url(), "http://operator:8080/status");
    assert_eq!(
        health.members(),
        &vec![
            member("node1", "http://10.0.0.1:8000/health"),
            member("node2", "http://10.0.0.2:8000/health"),
        ]
    );
}

#[test]
fn any_status_of_the_two_hundreds_counts_as_reached() {
    for status in [200, 201, 204, 250, 299] {
        assert!(is_reached(status));
    }
    for status in [0, 100, 199, 300, 301, 404, 500, 503, u16::MAX] {
        assert!(!is_reached(status));
    }
}
