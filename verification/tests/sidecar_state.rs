use xline_operator::cache::Suspect;
use xline_operator::heartbeat::HeartbeatStatus;
use xline_operator::sidecar_state::{Action, SidecarState};

fn beat(id: &str, timestamp: u64, reach: &[&str]) -> HeartbeatStatus {
    HeartbeatStatus::new(id.to_owned(), timestamp, reach.iter().map(|r| (*r).to_owned()).collect())
}

fn feed(state: &mut SidecarState, beats: Vec<HeartbeatStatus>) -> Vec<Action> {
    let mut actions = Vec::new();
    for b in beats {
        assert!(state.can_update());
        actions.extend(state.update(b));
    }
    actions
}

fn suspect(id: &str, attempts: usize) -> Suspect {
    Suspect { id: id.to_owned(), attempts }
}

const ALL: [&str; 3] = ["A", "B", "C"];

fn healthy_round(state: &mut SidecarState, t: u64) -> Vec<Action> {
    feed(state, vec![beat("A", t, &ALL), beat("B", t, &ALL), beat("C", t, &ALL)])
}

fn c_is_silent(state: &mut SidecarState, t: u64) -> Vec<Action> {
    feed(state, vec![beat("A", t, &["A"]), beat("B", t, &["B"])])
}

#[test]
fn majority_is_half_rounded_up() {
    for (size, majority) in [(0, 0), (1, 1), (2, 1), (3, 2), (4, 2), (5, 3), (i32::MAX, 1 << 30)] {
        assert_eq!(SidecarState::new(10, Some(size), 2).majority(), majority);
    }
}

#[test]
fn an_unknown_size_counts_as_two() {
    let state = SidecarState::new(10, None, 2);
    assert_eq!(state.majority(), 1);
    assert_eq!(state.heartbeat_period(), 10);
    assert_eq!(state.unreachable_thresh(), 2);
    assert!(state.statuses().is_empty());
    assert!(state.unreachable().is_empty());
}

#[test]
fn all_reachable_means_no_deletion() {
    let mut state = SidecarState::new(10, Some(3), 2);
    assert_eq!(healthy_round(&mut state, 100), vec![]);
    assert!(state.unreachable().is_empty());
    assert_eq!(state.statuses().len(), 3);
}

#[test]
fn a_silent_member_is_deleted_once() {
    let mut state = SidecarState::new(10, Some(3), 2);
    healthy_round(&mut state, 100);
    let actions = c_is_silent(&mut state, 110);
    assert_eq!(actions, vec![Action::DeletePod("C".to_owned())]);
    assert_eq!(state.unreachable(), vec![suspect("C", 0)]);
    assert_eq!(state.attempts("C"), Some(0));
    assert_eq!(state.attempts("A"), None);
}

fn c_is_missed(state: &mut SidecarState, t: u64) -> Vec<Action> {
    feed(state, vec![beat("A", t, &["A", "B"]), beat("B", t, &["A", "B"])])
}

#[test]
fn a_member_in_the_cache_is_counted_and_not_deleted_again() {
    let mut state = SidecarState::new(10, Some(3), 5);
    healthy_round(&mut state, 100);
    assert_eq!(c_is_missed(&mut state, 110), vec![Action::DeletePod("C".to_owned())]);
    assert_eq!(state.unreachable(), vec![suspect("C", 0)]);
    // Each heartbeat that finds C offline counts once: two in a round.
    assert!(state.can_update());
    assert_eq!(state.update(beat("A", 120, &["A", "B"])), vec![]);
    assert_eq!(state.unreachable(), vec![suspect("C", 1)]);
    assert_eq!(state.update(beat("B", 120, &["A", "B"])), vec![]);
    assert_eq!(state.unreachable(), vec![suspect("C", 2)]);
}

#[test]
fn at_the_threshold_the_failure_is_reported_and_the_member_forgotten() {
    let mut state = SidecarState::new(10, Some(3), 2);
    healthy_round(&mut state, 100);
    assert_eq!(c_is_missed(&mut state, 110), vec![Action::DeletePod("C".to_owned())]);
    assert!(state.can_update());
    assert_eq!(state.update(beat("A", 120, &["A", "B"])), vec![]);
    assert_eq!(state.unreachable(), vec![suspect("C", 1)]);
    assert_eq!(state.update(beat("B", 120, &["A", "B"])), vec![Action::RecoveryFailed("C".to_owned())]);
    assert!(state.unreachable().is_empty());
    assert_eq!(state.attempts("C"), None);
    // The member left the cache: found offline again, its pod is deleted again.
    assert_eq!(state.update(beat("A", 130, &["A", "B"])), vec![Action::DeletePod("C".to_owned())]);
    assert_eq!(state.unreachable(), vec![suspect("C", 0)]);
}

#[test]
fn members_that_name_only_themselves_lose_their_majority_with_the_stale_heartbeat() {
    let mut state = SidecarState::new(10, Some(3), 2);
    healthy_round(&mut state, 100);
    assert_eq!(c_is_silent(&mut state, 110), vec![Action::DeletePod("C".to_owned())]);
    assert_eq!(state.unreachable(), vec![suspect("C", 0)]);
    // At 120 the heartbeat of C, taken at 100, counts no more: A and B are each named
    // once, by themselves, which is fewer than the majority of 2.
    assert_eq!(
        state.update(beat("A", 120, &["A"])),
        vec![Action::DeletePod("A".to_owned()), Action::DeletePod("B".to_owned())]
    );
    assert_eq!(state.unreachable(), vec![suspect("C", 1), suspect("A", 0), suspect("B", 0)]);
    assert_eq!(state.update(beat("B", 120, &["B"])), vec![Action::RecoveryFailed("C".to_owned())]);
    assert_eq!(state.unreachable(), vec![suspect("A", 1), suspect("B", 1)]);
    assert_eq!(
        c_is_silent(&mut state, 130),
        vec![
            Action::RecoveryFailed("A".to_owned()),
            Action::RecoveryFailed("B".to_owned()),
            Action::DeletePod("C".to_owned()),
            Action::DeletePod("A".to_owned()),
            Action::DeletePod("B".to_owned()),
        ]
    );
    assert_eq!(state.unreachable(), vec![suspect("C", 1), suspect("A", 0), suspect("B", 0)]);
    // Recovery: everybody reaches everybody again.
    assert_eq!(healthy_round(&mut state, 200), vec![]);
    assert!(state.unreachable().is_empty());
}

#[test]
fn each_heartbeat_of_the_silent_rounds_is_judged_by_itself() {
    let mut state = SidecarState::new(10, Some(3), 2);
    healthy_round(&mut state, 100);
    // A alone reports at 110: A, B and C still count, and only A is named by fewer than two.
    assert!(state.can_update());
    let first = state.update(beat("A", 110, &["A"]));
    assert_eq!(first, vec![]);
    assert!(state.unreachable().is_empty());
    // With B's heartbeat C is named by its own old heartbeat alone.
    let second = state.update(beat("B", 110, &["B"]));
    assert_eq!(second, vec![Action::DeletePod("C".to_owned())]);
    assert_eq!(state.unreachable(), vec![suspect("C", 0)]);
}

#[test]
fn stale_heartbeats_do_not_vote() {
    let mut state = SidecarState::new(10, Some(3), 2);
    let before = feed(&mut state, vec![beat("A", 100, &ALL), beat("B", 100, &ALL)]);
    assert_eq!(before, vec![]);
    let actions = feed(&mut state, vec![beat("A", 200, &["A"])]);
    assert_eq!(actions, vec![]);
    assert!(state.unreachable().is_empty());
    assert_eq!(state.statuses().len(), 2);
    assert_eq!(state.statuses()[0], beat("A", 200, &["A"]));
    assert_eq!(state.statuses()[1], beat("B", 100, &ALL));
}

#[test]
fn a_heartbeat_exactly_one_period_old_still_counts() {
    let mut state = SidecarState::new(10, Some(3), 2);
    feed(&mut state, vec![beat("A", 100, &["A", "B"]), beat("B", 100, &["A", "B"])]);
    // B's heartbeat is 10 behind: it counts, and both are named twice.
    assert_eq!(feed(&mut state, vec![beat("A", 110, &["A", "B"])]), vec![]);
    // One second more and it does not: one heartbeat is no majority.
    assert_eq!(feed(&mut state, vec![beat("A", 111, &["A"])]), vec![]);
    assert!(state.unreachable().is_empty());
}

#[test]
fn a_later_heartbeat_takes_the_place_of_the_earlier_one() {
    let mut state = SidecarState::new(10, Some(1), 2);
    feed(&mut state, vec![beat("A", 100, &["A"]), beat("B", 101, &["B"]), beat("A", 102, &["A", "B"])]);
    assert_eq!(state.statuses().len(), 2);
    assert_eq!(state.statuses()[0], beat("A", 102, &["A", "B"]));
    assert_eq!(state.statuses()[1], beat("B", 101, &["B"]));
}

#[test]
fn an_earlier_timestamp_still_replaces_the_heartbeat_of_its_sidecar() {
    let mut state = SidecarState::new(10, Some(1), 2);
    feed(&mut state, vec![beat("A", 100, &["A"]), beat("A", 50, &["A"])]);
    assert_eq!(state.statuses().len(), 1);
    assert_eq!(state.statuses()[0], beat("A", 50, &["A"]));
}

#[test]
fn members_are_judged_in_the_order_of_their_first_report() {
    let mut state = SidecarState::new(10, Some(3), 2);
    let actions = feed(
        &mut state,
        vec![beat("C", 100, &[]), beat("A", 100, &[]), beat("B", 100, &[])],
    );
    // The first heartbeat alone is no majority; with the second, C and A are judged;
    // with the third B is new, and C and A are counted.
    assert_eq!(
        actions,
        vec![
            Action::DeletePod("C".to_owned()),
            Action::DeletePod("A".to_owned()),
            Action::DeletePod("B".to_owned()),
        ]
    );
    assert_eq!(state.unreachable(), vec![suspect("C", 1), suspect("A", 1), suspect("B", 0)]);
}

#[test]
fn a_name_listed_twice_votes_twice() {
    let mut state = SidecarState::new(10, Some(3), 2);
    let actions = feed(&mut state, vec![beat("A", 100, &["A", "B", "B"]), beat("B", 100, &["A"])]);
    // After B's heartbeat A is named twice and B twice, both by A's word.
    assert_eq!(actions, vec![]);
    assert!(state.unreachable().is_empty());
}

#[test]
fn with_majority_one_a_single_heartbeat_decides() {
    let mut state = SidecarState::new(10, Some(1), 1);
    assert_eq!(feed(&mut state, vec![beat("A", 5, &[])]), vec![Action::DeletePod("A".to_owned())]);
    assert_eq!(state.unreachable(), vec![suspect("A", 0)]);
    assert_eq!(feed(&mut state, vec![beat("A", 6, &[])]), vec![Action::RecoveryFailed("A".to_owned())]);
    assert!(state.unreachable().is_empty());
    // The cycle starts again.
    assert_eq!(feed(&mut state, vec![beat("A", 7, &[])]), vec![Action::DeletePod("A".to_owned())]);
}

#[test]
fn with_majority_zero_nobody_is_offline() {
    let mut state = SidecarState::new(10, Some(0), 1);
    assert_eq!(state.majority(), 0);
    assert_eq!(feed(&mut state, vec![beat("A", 5, &[]), beat("B", 5, &[])]), vec![]);
    assert!(state.unreachable().is_empty());
}

#[test]
fn with_threshold_zero_the_count_goes_on() {
    let mut state = SidecarState::new(10, Some(1), 0);
    assert_eq!(feed(&mut state, vec![beat("A", 5, &[])]), vec![Action::DeletePod("A".to_owned())]);
    for round in 1..=5 {
        assert_eq!(feed(&mut state, vec![beat("A", 5 + round, &[])]), vec![]);
        assert_eq!(state.attempts("A"), Some(round as usize));
    }
    assert!(state.can_update());
}

#[test]
fn timestamps_near_the_end_of_time_do_not_overflow() {
    let mut state = SidecarState::new(u64::MAX, Some(3), 2);
    let actions = feed(
        &mut state,
        vec![beat("A", u64::MAX, &["A", "B"]), beat("B", 0, &["A", "B"]), beat("C", u64::MAX - 1, &[])],
    );
    assert_eq!(actions, vec![Action::DeletePod("C".to_owned())]);
    let mut strict = SidecarState::new(0, Some(3), 2);
    assert_eq!(feed(&mut strict, vec![beat("A", u64::MAX, &["A"]), beat("B", u64::MAX, &["A"])]), vec![
        Action::DeletePod("B".to_owned())
    ]);
}

#[test]
fn a_run_of_heartbeats_is_taken_in_their_order() {
    let beats = vec![
        beat("A", 100, &ALL),
        beat("B", 100, &ALL),
        beat("C", 100, &ALL),
        beat("A", 110, &["A", "B"]),
        beat("B", 110, &["A", "B"]),
        beat("A", 120, &["A", "B"]),
    ];
    let mut at_once = SidecarState::new(10, Some(3), 5);
    let (actions, taken) = at_once.feed(&beats);
    assert_eq!(taken, 6);
    assert_eq!(actions, vec![Action::DeletePod("C".to_owned())]);
    assert_eq!(at_once.unreachable(), vec![suspect("C", 1)]);
    let mut one_by_one = SidecarState::new(10, Some(3), 5);
    let mut collected = Vec::new();
    for b in &beats {
        collected.extend(one_by_one.update(b.clone()));
    }
    assert_eq!(collected, actions);
    assert_eq!(one_by_one.unreachable(), at_once.unreachable());
    assert_eq!(one_by_one.statuses(), at_once.statuses());
    let mut in_two = SidecarState::new(10, Some(3), 5);
    let (first, _) = in_two.feed(&beats[..4].to_vec());
    let (second, _) = in_two.feed(&beats[4..].to_vec());
    assert_eq!([first, second].concat(), actions);
    assert_eq!(in_two.unreachable(), at_once.unreachable());
}

#[test]
fn the_order_of_arrival_decides() {
    let mut forth = SidecarState::new(10, Some(3), 5);
    let (a, _) = forth.feed(&vec![beat("A", 100, &["A"]), beat("B", 100, &["A", "B"])]);
    assert_eq!(a, vec![Action::DeletePod("B".to_owned())]);
    let mut back = SidecarState::new(10, Some(3), 5);
    let (b, _) = back.feed(&vec![beat("B", 100, &["A", "B"]), beat("A", 100, &["A"])]);
    assert_eq!(b, vec![Action::DeletePod("B".to_owned())]);
    assert_eq!(forth.statuses()[0].id, "A");
    assert_eq!(back.statuses()[0].id, "B");
}

#[test]
fn an_empty_run_changes_nothing() {
    let mut state = SidecarState::new(10, Some(3), 2);
    healthy_round(&mut state, 100);
    c_is_silent(&mut state, 110);
    let (actions, taken) = state.feed(&vec![]);
    assert_eq!((actions, taken), (vec![], 0));
    assert_eq!(state.unreachable(), vec![suspect("C", 0)]);
    assert_eq!(state.statuses().len(), 3);
}
