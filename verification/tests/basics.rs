use std::cmp::Ordering;

use xline_operator::cache::{Suspect, UnreachableCache};
use xline_operator::consts::{
    DEFAULT_BACKUP_DIR, DEFAULT_DATA_DIR, OPERATOR_MONITOR_ROUTE, SIDECAR_BACKUP_ROUTE,
};
use xline_operator::heartbeat::HeartbeatStatus;
use xline_operator::text::{i32_text, same_text, starts_with, u32_text};

#[test]
fn reserved_names_are_fixed() {
    assert_eq!(DEFAULT_BACKUP_DIR, "/xline-backup");
    assert_eq!(DEFAULT_DATA_DIR, "/usr/local/xline/data-dir");
    assert_eq!(OPERATOR_MONITOR_ROUTE, "/monitor");
    assert_eq!(SIDECAR_BACKUP_ROUTE, "/backup");
}

#[test]
fn a_heartbeat_keeps_what_it_was_given() {
    let status = HeartbeatStatus::new("A".to_owned(), 7, vec!["A".to_owned(), "B".to_owned()]);
    assert_eq!(status.id, "A");
    assert_eq!(status.timestamp, 7);
    assert_eq!(status.reachable_ids, vec!["A".to_owned(), "B".to_owned()]);
    assert_eq!(status.clone(), status);
}

#[test]
fn heartbeats_are_ordered_by_timestamp_alone() {
    let early = HeartbeatStatus::new("Z".to_owned(), 1, vec!["Z".to_owned()]);
    let late = HeartbeatStatus::new("A".to_owned(), 2, vec![]);
    let tie = HeartbeatStatus::new("B".to_owned(), 2, vec!["B".to_owned()]);
    assert!(early < late);
    assert!(late > early);
    assert!(early <= late);
    assert_eq!(early.partial_cmp(&late), Some(Ordering::Less));
    assert_eq!(late.partial_cmp(&early), Some(Ordering::Greater));
    assert_eq!(late.partial_cmp(&tie), Some(Ordering::Equal));
    assert!(late <= tie && late >= tie);
    assert_ne!(late, tie);
}

#[test]
fn numbers_are_written_in_base_ten() {
    for n in [0u32, 1, 9, 10, 11, 99, 100, 101, 4096, 1_000_000, u32::MAX] {
        assert_eq!(u32_text(n), n.to_string());
    }
    for i in [0i32, 1, -1, 9, -9, 10, -10, 12345, -12345, i32::MAX, i32::MIN, i32::MIN + 1] {
        assert_eq!(i32_text(i), i.to_string());
    }
    assert_eq!(i32_text(-2147483648), "-2147483648");
    assert_eq!(i32_text(-40), "-40");
}

#[test]
fn prefixes_are_told() {
    assert!(starts_with("/xline-backup/sub", "/xline-backup"));
    assert!(starts_with("/xline-backup", "/xline-backup"));
    assert!(starts_with("abc", ""));
    assert!(starts_with("", ""));
    assert!(!starts_with("", "a"));
    assert!(!starts_with("/xline-backu", "/xline-backup"));
    assert!(!starts_with("x/xline-backup", "/xline-backup"));
    assert!(starts_with("äöü", "äö"));
    assert!(!starts_with("äöü", "äü"));
}

#[test]
fn texts_are_compared_character_by_character() {
    assert!(same_text("", ""));
    assert!(same_text("node-1", "node-1"));
    assert!(!same_text("node-1", "node-2"));
    assert!(!same_text("node-1", "node-10"));
    assert!(!same_text("a", ""));
    assert!(same_text("é", "é"));
}

#[test]
fn the_cache_is_a_map_from_sidecar_to_count() {
    let mut cache = UnreachableCache::new();
    assert_eq!(cache.len(), 0);
    assert_eq!(cache.get("A"), None);
    cache.insert("A".to_owned(), 0);
    cache.insert("B".to_owned(), 5);
    assert_eq!(cache.len(), 2);
    assert_eq!(cache.get("A"), Some(0));
    assert_eq!(cache.get("B"), Some(5));
    cache.insert("A".to_owned(), 1);
    assert_eq!(cache.len(), 2);
    assert_eq!(cache.get("A"), Some(1));
    assert_eq!(
        cache.to_vec(),
        vec![Suspect { id: "A".to_owned(), attempts: 1 }, Suspect { id: "B".to_owned(), attempts: 5 }]
    );
    assert!(cache.remove("A"));
    assert!(!cache.remove("A"));
    assert!(!cache.remove("C"));
    assert_eq!(cache.get("A"), None);
    assert_eq!(cache.get("B"), Some(5));
    assert_eq!(cache.len(), 1);
    assert!(cache.remove("B"));
    assert_eq!(cache.len(), 0);
    assert!(cache.to_vec().is_empty());
}
