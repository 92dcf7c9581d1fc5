//! The heartbeat that a sidecar sends to the operator.

use std::cmp::Ordering;
use vstd::prelude::*;

verus! {

/// What one sidecar saw in one round of probing.
#[derive(Debug, PartialEq, Eq)]
pub struct HeartbeatStatus {
    /// The sidecar that reports: the name of its pod.
    pub id: String,
    /// When the sidecar probed, in seconds since the epoch, by its own clock.
    pub timestamp: u64,
    /// The sidecars that it reached, itself among them.
    pub reachable_ids: Vec<String>,
}

/// The model of a heartbeat.
pub struct HeartbeatStatusView {
    pub id: Seq<char>,
    pub timestamp: u64,
    pub reachable_ids: Seq<Seq<char>>,
}

impl DeepView for HeartbeatStatus {
    type V = HeartbeatStatusView;

    open spec fn deep_view(&self) -> HeartbeatStatusView {
        HeartbeatStatusView {
            id: self.id@,
            timestamp: self.timestamp,
            reachable_ids: self.reachable_ids.deep_view(),
        }
    }
}

impl Clone for HeartbeatStatus {
    fn clone(&self) -> (res: Self)
        ensures
            res.deep_view() == self.deep_view(),
    {
        HeartbeatStatus {
            id: self.id.clone(),
            timestamp: self.timestamp,
            reachable_ids: self.reachable_ids.clone(),
        }
    }
}

impl HeartbeatStatus {
    /// A heartbeat of the sidecar `id`, taken at `timestamp`, that reached `reachable_ids`.
    pub fn new(id: String, timestamp: u64, reachable_ids: Vec<String>) -> (status: Self)
        ensures
            status.id == id,
            status.timestamp == timestamp,
            status.reachable_ids == reachable_ids,
    {
        Self { id, timestamp, reachable_ids }
    }

}

/// Heartbeats are ordered by their timestamps alone: two heartbeats of one instant
/// are neither before nor after each other, whoever sent them.
impl PartialOrd for HeartbeatStatus {
    fn partial_cmp(&self, other: &Self) -> (order: Option<Ordering>) {
        if self.timestamp < other.timestamp {
            Some(Ordering::Less)
        } else if self.timestamp == other.timestamp {
            Some(Ordering::Equal)
        } else {
            Some(Ordering::Greater)
        }
    }
}

impl vstd::std_specs::cmp::PartialOrdSpecImpl for HeartbeatStatus {
    open spec fn obeys_partial_cmp_spec() -> bool {
        true
    }

    open spec fn partial_cmp_spec(&self, other: &Self) -> Option<Ordering> {
        if self.timestamp < other.timestamp {
            Some(Ordering::Less)
        } else if self.timestamp == other.timestamp {
            Some(Ordering::Equal)
        } else {
            Some(Ordering::Greater)
        }
    }
}

} // verus!
