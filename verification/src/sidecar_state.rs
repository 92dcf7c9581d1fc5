//! The liveness aggregator: from the heartbeats of the sidecars to the pods that are
//! to be deleted.
//!
//! The aggregator is a state machine. [`SidecarState::update`] takes one heartbeat and
//! gives back what is to be done; the caller does it. What happens is stated by
//! [`step`], a function of the state before and of the heartbeat.

use crate::cache::{as_map, distinct_ids, entry_index, lemma_entry, Suspect, UnreachableCache};
use crate::heartbeat::{HeartbeatStatus, HeartbeatStatusView};
use crate::text::same_text;
use clippy_utilities::OverflowArithmetic;
use vstd::prelude::*;

verus! {

/// What the aggregator asks of its caller.
#[derive(Debug, PartialEq, Eq)]
pub enum Action {
    /// Delete the pod of this sidecar, so that Kubernetes makes it anew.
    DeletePod(String),
    /// Report that this sidecar did not come back, however often it was looked for.
    RecoveryFailed(String),
}

/// The model of an action.
pub enum ActionView {
    DeletePod(Seq<char>),
    RecoveryFailed(Seq<char>),
}

impl DeepView for Action {
    type V = ActionView;

    open spec fn deep_view(&self) -> ActionView {
        match self {
            Action::DeletePod(id) => ActionView::DeletePod(id@),
            Action::RecoveryFailed(id) => ActionView::RecoveryFailed(id@),
        }
    }
}

impl Clone for Action {
    fn clone(&self) -> (res: Self)
        ensures
            res.deep_view() == self.deep_view(),
    {
        match self {
            Action::DeletePod(id) => Action::DeletePod(id.clone()),
            Action::RecoveryFailed(id) => Action::RecoveryFailed(id.clone()),
        }
    }
}

/// The model of the aggregator's state.
pub struct SidecarStateView {
    /// The latest heartbeat of each sidecar, in the order in which the sidecars first
    /// reported.
    pub statuses: Seq<HeartbeatStatusView>,
    /// The sidecars taken to be down, each with its count of failed recoveries.
    pub unreachable: Map<Seq<char>, nat>,
    /// How far, in seconds, a heartbeat may lie behind the newest and still count.
    pub heartbeat_period: nat,
    /// The count of failed recoveries at which a sidecar is given up.
    pub unreachable_thresh: nat,
    /// How many sidecars make a majority.
    pub majority: nat,
}

/// The majority of a cluster of `spec_size` members.
pub open spec fn majority_of(spec_size: nat) -> nat {
    (spec_size + 1) / 2
}

/// The size that the aggregator goes by: that of the cluster, or 2 where it could not
/// be read.
pub open spec fn spec_size_of(observed: Option<i32>) -> nat {
    match observed {
        Some(size) => size as nat,
        None => 2,
    }
}

/// `statuses` holds a heartbeat of the sidecar `id`.
pub open spec fn knows(statuses: Seq<HeartbeatStatusView>, id: Seq<char>) -> bool {
    exists|i: int| 0 <= i < statuses.len() && #[trigger] statuses[i].id == id
}

/// Where the heartbeat of `id` stands in `statuses`, if there is one.
pub open spec fn reporter_index(statuses: Seq<HeartbeatStatusView>, id: Seq<char>) -> int {
    choose|i: int| 0 <= i < statuses.len() && #[trigger] statuses[i].id == id
}

/// No sidecar has two heartbeats in `statuses`.
pub open spec fn distinct_reporters(statuses: Seq<HeartbeatStatusView>) -> bool {
    forall|i: int, j: int|
        0 <= i < j < statuses.len() ==> #[trigger] statuses[i].id != #[trigger] statuses[j].id
}

/// `statuses` after `status` came in: it takes the place of the earlier heartbeat of
/// its sidecar, or comes last where the sidecar had not reported before.
pub open spec fn record(
    statuses: Seq<HeartbeatStatusView>,
    status: HeartbeatStatusView,
) -> Seq<HeartbeatStatusView> {
    if knows(statuses, status.id) {
        statuses.update(reporter_index(statuses, status.id), status)
    } else {
        statuses.push(status)
    }
}

/// The newest timestamp among `statuses`; 0 where there is none.
pub open spec fn latest_timestamp(statuses: Seq<HeartbeatStatusView>) -> int
    decreases statuses.len(),
{
    if statuses.len() == 0 {
        0
    } else {
        let rest = latest_timestamp(statuses.drop_last());
        if statuses.last().timestamp > rest {
            statuses.last().timestamp as int
        } else {
            rest
        }
    }
}

/// A heartbeat counts if it lies no more than `period` seconds behind the newest.
pub open spec fn accepted(status: HeartbeatStatusView, latest: int, period: nat) -> bool {
    status.timestamp + period >= latest
}

/// How many of `statuses` count.
pub open spec fn accepted_count(statuses: Seq<HeartbeatStatusView>, latest: int, period: nat) -> nat
    decreases statuses.len(),
{
    if statuses.len() == 0 {
        0
    } else {
        accepted_count(statuses.drop_last(), latest, period) + if accepted(
            statuses.last(),
            latest,
            period,
        ) {
            1nat
        } else {
            0nat
        }
    }
}

/// How often `id` stands in `ids`.
pub open spec fn occurrences(ids: Seq<Seq<char>>, id: Seq<char>) -> nat
    decreases ids.len(),
{
    if ids.len() == 0 {
        0
    } else {
        occurrences(ids.drop_last(), id) + if ids.last() == id {
            1nat
        } else {
            0nat
        }
    }
}

/// How often the heartbeats that count name `id` as reached.
pub open spec fn votes(
    statuses: Seq<HeartbeatStatusView>,
    latest: int,
    period: nat,
    id: Seq<char>,
) -> nat
    decreases statuses.len(),
{
    if statuses.len() == 0 {
        0
    } else {
        votes(statuses.drop_last(), latest, period, id) + if accepted(
            statuses.last(),
            latest,
            period,
        ) {
            occurrences(statuses.last().reachable_ids, id)
        } else {
            0nat
        }
    }
}

/// What follows for one sidecar from whether it is offline.
///
/// An offline sidecar that is not in the cache has its pod deleted and enters the
/// cache with the count 0. One that is in the cache has its count raised by one; where
/// the count thereby reaches the threshold, the failure is reported and the sidecar
/// leaves the cache. A sidecar that is not offline leaves the cache.
pub open spec fn judge_one(
    unreachable: Map<Seq<char>, nat>,
    id: Seq<char>,
    offline: bool,
    thresh: nat,
) -> (Map<Seq<char>, nat>, Seq<ActionView>) {
    if offline {
        if unreachable.contains_key(id) {
            let attempts = unreachable[id] + 1;
            if attempts == thresh {
                (unreachable.remove(id), seq![ActionView::RecoveryFailed(id)])
            } else {
                (unreachable.insert(id, attempts as nat), seq![])
            }
        } else {
            (unreachable.insert(id, 0), seq![ActionView::DeletePod(id)])
        }
    } else {
        (unreachable.remove(id), seq![])
    }
}

/// What follows for the first `k` sidecars of `statuses`, taken in their order.
pub open spec fn judge(
    statuses: Seq<HeartbeatStatusView>,
    k: nat,
    unreachable: Map<Seq<char>, nat>,
    latest: int,
    period: nat,
    majority: nat,
    thresh: nat,
) -> (Map<Seq<char>, nat>, Seq<ActionView>)
    decreases k,
{
    if k == 0 {
        (unreachable, seq![])
    } else {
        let before = judge(statuses, (k - 1) as nat, unreachable, latest, period, majority, thresh);
        let id = statuses[k - 1].id;
        let one = judge_one(before.0, id, votes(statuses, latest, period, id) < majority, thresh);
        (one.0, before.1 + one.1)
    }
}

/// The state after `status` came in, and what is to be done.
///
/// The heartbeat is recorded. If fewer heartbeats count than make a majority, nothing
/// else happens. Otherwise every known sidecar is judged, in the order in which the
/// sidecars first reported: one is offline if the heartbeats that count name it fewer
/// times than make a majority.
pub open spec fn step(state: SidecarStateView, status: HeartbeatStatusView) -> (
    SidecarStateView,
    Seq<ActionView>,
) {
    let statuses = record(state.statuses, status);
    let latest = latest_timestamp(statuses);
    if accepted_count(statuses, latest, state.heartbeat_period) < state.majority {
        (SidecarStateView { statuses, ..state }, seq![])
    } else {
        let judged = judge(
            statuses,
            statuses.len(),
            state.unreachable,
            latest,
            state.heartbeat_period,
            state.majority,
            state.unreachable_thresh,
        );
        (SidecarStateView { statuses, unreachable: judged.0, ..state }, judged.1)
    }
}

/// The state after the heartbeats `statuses` came in one after the other, in their
/// order, and all that is to be done, in the order in which it came up.
pub open spec fn run(state: SidecarStateView, statuses: Seq<HeartbeatStatusView>) -> (
    SidecarStateView,
    Seq<ActionView>,
)
    decreases statuses.len(),
{
    if statuses.len() == 0 {
        (state, seq![])
    } else {
        let before = run(state, statuses.drop_last());
        let last = step(before.0, statuses.last());
        (last.0, before.1 + last.1)
    }
}

/// Every count in the cache lies below `thresh`, where `thresh` is not 0.
pub open spec fn below_thresh(unreachable: Map<Seq<char>, nat>, thresh: nat) -> bool {
    thresh > 0 ==> forall|id: Seq<char>| unreachable.contains_key(id) ==> #[trigger] unreachable[id] < thresh
}

/// Every count in the cache can be raised by one.
pub open spec fn can_count(unreachable: Map<Seq<char>, nat>) -> bool {
    forall|id: Seq<char>| unreachable.contains_key(id) ==> #[trigger] unreachable[id] < usize::MAX
}

/// What holds of every state of the aggregator: no sidecar has two heartbeats, and no
/// count has reached the threshold.
pub open spec fn valid(state: SidecarStateView) -> bool {
    &&& distinct_reporters(state.statuses)
    &&& below_thresh(state.unreachable, state.unreachable_thresh)
}

/// `clippy_utilities::OverflowArithmetic::overflow_add` on `usize`: the sum of the two
/// numbers. The outside function panics where the sum does not fit, so such numbers
/// are not handed to it.
#[verifier::external_body]
fn overflow_add(a: usize, b: usize) -> (sum: usize)
    requires
        a + b <= usize::MAX,
    ensures
        sum == a + b,
{
    a.overflow_add(b)
}

proof fn lemma_occurrences_step(ids: Seq<Seq<char>>, j: int, id: Seq<char>)
    requires
        0 <= j < ids.len(),
    ensures
        occurrences(ids.take(j + 1), id) == occurrences(ids.take(j), id) + if ids[j] == id {
            1nat
        } else {
            0nat
        },
{
    assert(ids.take(j + 1).drop_last() =~= ids.take(j));
}

proof fn lemma_occurrences_grow(ids: Seq<Seq<char>>, j: int, id: Seq<char>)
    requires
        0 <= j <= ids.len(),
    ensures
        occurrences(ids.take(j), id) <= occurrences(ids, id),
    decreases ids.len() - j,
{
    if j == ids.len() {
        assert(ids.take(j) =~= ids);
    } else {
        lemma_occurrences_step(ids, j, id);
        lemma_occurrences_grow(ids, j + 1, id);
    }
}

proof fn lemma_votes_step(
    statuses: Seq<HeartbeatStatusView>,
    i: int,
    latest: int,
    period: nat,
    id: Seq<char>,
)
    requires
        0 <= i < statuses.len(),
    ensures
        votes(statuses.take(i + 1), latest, period, id) == votes(
            statuses.take(i),
            latest,
            period,
            id,
        ) + if accepted(statuses[i], latest, period) {
            occurrences(statuses[i].reachable_ids, id)
        } else {
            0nat
        },
{
    assert(statuses.take(i + 1).drop_last() =~= statuses.take(i));
}

proof fn lemma_votes_grow(
    statuses: Seq<HeartbeatStatusView>,
    i: int,
    latest: int,
    period: nat,
    id: Seq<char>,
)
    requires
        0 <= i <= statuses.len(),
    ensures
        votes(statuses.take(i), latest, period, id) <= votes(statuses, latest, period, id),
    decreases statuses.len() - i,
{
    if i == statuses.len() {
        assert(statuses.take(i) =~= statuses);
    } else {
        lemma_votes_step(statuses, i, latest, period, id);
        lemma_votes_grow(statuses, i + 1, latest, period, id);
    }
}

fn newest(statuses: &Vec<HeartbeatStatus>) -> (latest: u64)
    ensures
        latest == latest_timestamp(statuses.deep_view()),
        forall|i: int| 0 <= i < statuses.len() ==> (#[trigger] statuses[i]).timestamp <= latest,
{
    let mut latest: u64 = 0;
    let mut i: usize = 0;
    while i < statuses.len()
        invariant
            i <= statuses.len(),
            latest == latest_timestamp(statuses.deep_view().take(i as int)),
            forall|j: int| 0 <= j < i ==> (#[trigger] statuses[j]).timestamp <= latest,
        decreases statuses.len() - i,
    {
        assert(statuses.deep_view().take(i + 1).drop_last() =~= statuses.deep_view().take(i as int));
        if statuses[i].timestamp > latest {
            latest = statuses[i].timestamp;
        }
        i += 1;
    }
    assert(statuses.deep_view().take(i as int) =~= statuses.deep_view());
    latest
}

fn is_accepted(status: &HeartbeatStatus, latest: u64, period: u64) -> (counts: bool)
    requires
        status.timestamp <= latest,
    ensures
        counts == accepted(status.deep_view(), latest as int, period as nat),
{
    latest - status.timestamp <= period
}

fn count_accepted(statuses: &Vec<HeartbeatStatus>, latest: u64, period: u64) -> (count: usize)
    requires
        forall|i: int| 0 <= i < statuses.len() ==> (#[trigger] statuses[i]).timestamp <= latest,
    ensures
        count == accepted_count(statuses.deep_view(), latest as int, period as nat),
{
    let mut count: usize = 0;
    let mut i: usize = 0;
    while i < statuses.len()
        invariant
            i <= statuses.len(),
            count <= i,
            count == accepted_count(statuses.deep_view().take(i as int), latest as int, period as nat),
            forall|j: int| 0 <= j < statuses.len() ==> (#[trigger] statuses[j]).timestamp <= latest,
        decreases statuses.len() - i,
    {
        assert(statuses.deep_view().take(i + 1).drop_last() =~= statuses.deep_view().take(i as int));
        if is_accepted(&statuses[i], latest, period) {
            count += 1;
        }
        i += 1;
    }
    assert(statuses.deep_view().take(i as int) =~= statuses.deep_view());
    count
}

/// Counts how often the heartbeats that count name `id`, and stops where the count
/// makes a majority.
fn is_offline(
    statuses: &Vec<HeartbeatStatus>,
    id: &str,
    latest: u64,
    period: u64,
    majority: usize,
) -> (offline: bool)
    requires
        forall|i: int| 0 <= i < statuses.len() ==> (#[trigger] statuses[i]).timestamp <= latest,
    ensures
        offline == (votes(statuses.deep_view(), latest as int, period as nat, id@) < majority),
{
    if majority == 0 {
        return false;
    }
    let ghost all = statuses.deep_view();
    let mut count: usize = 0;
    let mut i: usize = 0;
    while i < statuses.len()
        invariant
            i <= statuses.len(),
            all == statuses.deep_view(),
            count < majority,
            count == votes(all.take(i as int), latest as int, period as nat, id@),
            forall|j: int| 0 <= j < statuses.len() ==> (#[trigger] statuses[j]).timestamp <= latest,
        decreases statuses.len() - i,
    {
        proof {
            lemma_votes_step(all, i as int, latest as int, period as nat, id@);
            lemma_votes_grow(all, i + 1, latest as int, period as nat, id@);
        }
        if is_accepted(&statuses[i], latest, period) {
            let reached: &Vec<String> = &statuses[i].reachable_ids;
            let ghost names = reached.deep_view();
            let ghost base = count as nat;
            assert(names == all[i as int].reachable_ids);
            let mut j: usize = 0;
            while j < reached.len()
                invariant
                    j <= reached.len(),
                    all == statuses.deep_view(),
                    names == reached.deep_view(),
                    count < majority,
                    count == base + occurrences(names.take(j as int), id@),
                    base + occurrences(names, id@) <= votes(
                        all,
                        latest as int,
                        period as nat,
                        id@,
                    ),
                decreases reached.len() - j,
            {
                proof {
                    lemma_occurrences_step(names, j as int, id@);
                    lemma_occurrences_grow(names, j + 1, id@);
                }
                assert(names[j as int] == reached[j as int]@);
                if same_text(reached[j].as_str(), id) {
                    count = overflow_add(count, 1);
                    if count == majority {
                        return false;
                    }
                }
                j += 1;
            }
            assert(names.take(j as int) =~= names);
        }
        i += 1;
    }
    assert(all.take(i as int) =~= all);
    true
}

/// The state of the liveness aggregator.
#[derive(Debug)]
pub struct SidecarState {
    statuses: Vec<HeartbeatStatus>,
    heartbeat_period: u64,
    unreachable: UnreachableCache,
    unreachable_thresh: usize,
    majority: usize,
}

impl View for SidecarState {
    type V = SidecarStateView;

    closed spec fn view(&self) -> SidecarStateView {
        SidecarStateView {
            statuses: self.statuses.deep_view(),
            unreachable: self.unreachable@,
            heartbeat_period: self.heartbeat_period as nat,
            unreachable_thresh: self.unreachable_thresh as nat,
            majority: self.majority as nat,
        }
    }
}

impl SidecarState {
    /// The state is in order. Then its model is valid.
    pub closed spec fn wf(&self) -> bool {
        &&& self.unreachable.wf()
        &&& valid(self@)
    }

    /// A state that is in order has a valid model, whose numbers are those of the machine.
    pub proof fn lemma_wf(&self)
        requires
            self.wf(),
        ensures
            valid(self@),
            self@.heartbeat_period <= u64::MAX,
            self@.unreachable_thresh <= usize::MAX,
            self@.majority <= usize::MAX,
            self@.unreachable.dom().finite(),
            self@.unreachable_thresh > 0 ==> can_count(self@.unreachable),
    {
        self.unreachable.lemma_finite();
    }

    /// The aggregator at its start: no heartbeat yet, nobody taken to be down, and the
    /// majority of a cluster of the size `spec_size`, or of 2 where the size could not be
    /// read.
    pub fn new(heartbeat_period: u64, spec_size: Option<i32>, unreachable_thresh: usize) -> (state:
        Self)
        requires
            spec_size matches Some(size) ==> size >= 0,
        ensures
            state.wf(),
            state@ == (SidecarStateView {
                statuses: seq![],
                unreachable: Map::empty(),
                heartbeat_period: heartbeat_period as nat,
                unreachable_thresh: unreachable_thresh as nat,
                majority: majority_of(spec_size_of(spec_size)),
            }),
    {
        let size: usize = match spec_size {
            Some(size) => size as usize,
            None => 2,
        };
        let statuses: Vec<HeartbeatStatus> = Vec::new();
        assert(statuses.deep_view() =~= Seq::<HeartbeatStatusView>::empty());
        SidecarState {
            statuses,
            heartbeat_period,
            unreachable: UnreachableCache::new(),
            unreachable_thresh,
            majority: overflow_add(size, 1) / 2,
        }
    }

    /// The latest heartbeat of each sidecar, in the order in which the sidecars first
    /// reported.
    pub fn statuses(&self) -> (statuses: &Vec<HeartbeatStatus>)
        ensures
            statuses.deep_view() == self@.statuses,
    {
        &self.statuses
    }

    /// The sidecars taken to be down, each with its count of failed recoveries, in the
    /// order in which they entered the cache.
    pub fn unreachable(&self) -> (suspects: Vec<Suspect>)
        requires
            self.wf(),
        ensures
            distinct_ids(suspects.deep_view()),
            as_map(suspects.deep_view()) == self@.unreachable,
    {
        self.unreachable.to_vec()
    }

    /// The count of failed recoveries of `id`, if it is taken to be down.
    pub fn attempts(&self, id: &str) -> (attempts: Option<usize>)
        requires
            self.wf(),
        ensures
            match attempts {
                Some(n) => self@.unreachable.contains_key(id@) && self@.unreachable[id@] == n,
                None => !self@.unreachable.contains_key(id@),
            },
    {
        self.unreachable.get(id)
    }

    /// How far, in seconds, a heartbeat may lie behind the newest and still count.
    pub fn heartbeat_period(&self) -> (period: u64)
        ensures
            period == self@.heartbeat_period,
    {
        self.heartbeat_period
    }

    /// The count of failed recoveries at which a sidecar is given up.
    pub fn unreachable_thresh(&self) -> (thresh: usize)
        ensures
            thresh == self@.unreachable_thresh,
    {
        self.unreachable_thresh
    }

    /// How many sidecars make a majority.
    pub fn majority(&self) -> (majority: usize)
        ensures
            majority == self@.majority,
    {
        self.majority
    }

    /// Whether every count in the cache can still be raised by one. This is so
    /// whenever the threshold is not 0.
    pub fn can_update(&self) -> (ok: bool)
        requires
            self.wf(),
        ensures
            ok == can_count(self@.unreachable),
            self@.unreachable_thresh > 0 ==> ok,
    {
        let entries = self.unreachable.to_vec();
        let ghost all = entries.deep_view();
        let mut i: usize = 0;
        while i < entries.len()
            invariant
                i <= entries.len(),
                all == entries.deep_view(),
                self.wf(),
                distinct_ids(all),
                as_map(all) == self@.unreachable,
                forall|j: int| 0 <= j < i ==> (#[trigger] all[j]).attempts < usize::MAX,
            decreases entries.len() - i,
        {
            if entries[i].attempts == usize::MAX {
                proof {
                    let id = all[i as int].id;
                    lemma_entry(all, i as int);
                    assert(self@.unreachable.contains_key(id));
                    assert(self@.unreachable[id] == usize::MAX);
                }
                return false;
            }
            i += 1;
        }
        proof {
            assert forall|id: Seq<char>| self@.unreachable.contains_key(id) implies (
            #[trigger] self@.unreachable[id]) < usize::MAX by {
                let j = entry_index(all, id);
                lemma_entry(all, j);
            }
        }
        true
    }

    /// Takes the heartbeat `status` in and says what is to be done.
    ///
    /// Every count in the cache must have room to be raised by one. With a threshold
    /// other than 0 this is always so; with the threshold 0 the counts rise without
    /// end, and `can_update` tells whether there is room left.
    pub fn update(&mut self, status: HeartbeatStatus) -> (actions: Vec<Action>)
        requires
            old(self).wf(),
            can_count(old(self)@.unreachable),
        ensures
            final(self).wf(),
            final(self)@ == step(old(self)@, status.deep_view()).0,
            actions.deep_view() == step(old(self)@, status.deep_view()).1,
    {
        let ghost before = self@;
        let ghost incoming = status.deep_view();
        self.record(status);
        let ghost statuses = self.statuses.deep_view();
        let latest: u64 = newest(&self.statuses);
        let mut actions: Vec<Action> = Vec::new();
        assert(actions.deep_view() =~= Seq::<ActionView>::empty());
        if count_accepted(&self.statuses, latest, self.heartbeat_period) < self.majority {
            return actions;
        }
        let ghost period = self.heartbeat_period as nat;
        let ghost majority = self.majority as nat;
        let ghost thresh = self.unreachable_thresh as nat;
        let n: usize = self.statuses.len();
        let mut i: usize = 0;
        while i < n
            invariant
                i <= n,
                n == self.statuses.len(),
                statuses == self.statuses.deep_view(),
                distinct_reporters(statuses),
                period == self.heartbeat_period,
                majority == self.majority,
                thresh == self.unreachable_thresh,
                latest == latest_timestamp(statuses),
                forall|j: int|
                    0 <= j < self.statuses.len() ==> (#[trigger] self.statuses[j]).timestamp <= latest,
                self.unreachable.wf(),
                below_thresh(self.unreachable@, thresh),
                judge(statuses, i as nat, before.unreachable, latest as int, period, majority, thresh)
                    == (self.unreachable@, actions.deep_view()),
                forall|j: int|
                    i <= j < n ==> {
                        &&& self.unreachable@.contains_key(#[trigger] statuses[j].id)
                            == before.unreachable.contains_key(statuses[j].id)
                        &&& self.unreachable@.contains_key(statuses[j].id)
                            ==> self.unreachable@[statuses[j].id] < usize::MAX
                    },
            decreases n - i,
        {
            let id: String = self.statuses[i].id.clone();
            let ghost cache = self.unreachable@;
            let ghost done = actions.deep_view();
            assert(id@ == statuses[i as int].id);
            let offline: bool = is_offline(
                &self.statuses,
                id.as_str(),
                latest,
                self.heartbeat_period,
                self.majority,
            );
            if offline {
                match self.unreachable.get(id.as_str()) {
                    Some(attempts) => {
                        let raised: usize = overflow_add(attempts, 1);
                        if raised == self.unreachable_thresh {
                            let _ = self.unreachable.remove(id.as_str());
                            actions.push(Action::RecoveryFailed(id));
                            assert(actions.deep_view() =~= done + seq![
                                ActionView::RecoveryFailed(statuses[i as int].id),
                            ]);
                        } else {
                            self.unreachable.insert(id, raised);
                            assert(actions.deep_view() =~= done + Seq::<ActionView>::empty());
                        }
                    },
                    None => {
                        self.unreachable.insert(id.clone(), 0);
                        actions.push(Action::DeletePod(id));
                        assert(actions.deep_view() =~= done + seq![
                            ActionView::DeletePod(statuses[i as int].id),
                        ]);
                    },
                }
            } else {
                let _ = self.unreachable.remove(id.as_str());
                assert(actions.deep_view() =~= done + Seq::<ActionView>::empty());
            }
            proof {
                assert forall|j: int| i + 1 <= j < n implies {
                    &&& self.unreachable@.contains_key(#[trigger] statuses[j].id)
                        == before.unreachable.contains_key(statuses[j].id)
                    &&& self.unreachable@.contains_key(statuses[j].id)
                        ==> self.unreachable@[statuses[j].id] < usize::MAX
                } by {
                    assert(statuses[i as int].id != statuses[j].id);
                    assert(cache.contains_key(statuses[j].id) == before.unreachable.contains_key(
                        statuses[j].id,
                    ));
                }
            }
            i += 1;
        }
        actions
    }

    /// Takes the heartbeats `statuses` in, one after the other in their order, and
    /// says all that is to be done, and how many heartbeats were taken in.
    ///
    /// All are taken in, unless a count in the cache can no more be raised: then the
    /// aggregator stops before the heartbeat at which this is so. It never is where
    /// the threshold is not 0.
    pub fn feed(&mut self, statuses: &Vec<HeartbeatStatus>) -> (result: (Vec<Action>, usize))
        requires
            old(self).wf(),
        ensures
            final(self).wf(),
            result.1 <= statuses.len(),
            final(self)@ == run(old(self)@, statuses.deep_view().take(result.1 as int)).0,
            result.0.deep_view() == run(old(self)@, statuses.deep_view().take(result.1 as int)).1,
            result.1 < statuses.len() ==> !can_count(final(self)@.unreachable),
            old(self)@.unreachable_thresh > 0 ==> result.1 == statuses.len(),
    {
        let ghost before = self@;
        let ghost all = statuses.deep_view();
        let mut actions: Vec<Action> = Vec::new();
        assert(actions.deep_view() =~= Seq::<ActionView>::empty());
        let mut taken: usize = 0;
        while taken < statuses.len()
            invariant
                taken <= statuses.len(),
                all == statuses.deep_view(),
                before == old(self)@,
                self.wf(),
                self@.unreachable_thresh == before.unreachable_thresh,
                self@ == run(before, all.take(taken as int)).0,
                actions.deep_view() == run(before, all.take(taken as int)).1,
            decreases statuses.len() - taken,
        {
            if !self.can_update() {
                return (actions, taken);
            }
            let ghost state = self@;
            let ghost done = actions.deep_view();
            let status: HeartbeatStatus = statuses[taken].clone();
            assert(status.deep_view() == all[taken as int]);
            let mut more: Vec<Action> = self.update(status);
            let ghost new = more.deep_view();
            actions.append(&mut more);
            proof {
                assert(actions.deep_view() =~= done + new);
                assert(all.take(taken + 1).drop_last() =~= all.take(taken as int));
                assert(all.take(taken + 1).last() == all[taken as int]);
                lemma_step_keeps_valid(state, all[taken as int]);
            }
            taken += 1;
        }
        (actions, taken)
    }

    fn record(&mut self, status: HeartbeatStatus)
        requires
            old(self).wf(),
        ensures
            final(self).wf(),
            final(self)@ == (SidecarStateView {
                statuses: record(old(self)@.statuses, status.deep_view()),
                ..old(self)@
            }),
    {
        let ghost before = self.statuses.deep_view();
        let ghost incoming = status.deep_view();
        let mut found: Option<usize> = None;
        let mut i: usize = 0;
        while i < self.statuses.len()
            invariant_except_break
                found is None,
                forall|j: int| 0 <= j < i ==> #[trigger] before[j].id != incoming.id,
            invariant
                i <= self.statuses.len(),
                before == self.statuses.deep_view(),
                incoming == status.deep_view(),
            ensures
                before == self.statuses.deep_view(),
                match found {
                    Some(k) => k < self.statuses.len() && before[k as int].id == incoming.id,
                    None => !knows(before, incoming.id),
                },
            decreases self.statuses.len() - i,
        {
            assert(before[i as int].id == self.statuses[i as int].id@);
            if same_text(self.statuses[i].id.as_str(), status.id.as_str()) {
                found = Some(i);
                break;
            }
            i += 1;
        }
        match found {
            Some(k) => {
                proof {
                    let chosen = reporter_index(before, incoming.id);
                    if chosen < k {
                        assert(before[chosen].id != before[k as int].id);
                    } else if k < chosen {
                        assert(before[k as int].id != before[chosen].id);
                    }
                }
                self.statuses.set(k, status);
                let ghost after = self.statuses.deep_view();
                assert(after =~= before.update(k as int, incoming));
                assert(distinct_reporters(after)) by {
                    assert forall|a: int, b: int| 0 <= a < b < after.len() implies after[a].id
                        != after[b].id by {
                        assert(before[a].id != before[b].id);
                    }
                }
            },
            None => {
                self.statuses.push(status);
                let ghost after = self.statuses.deep_view();
                assert(after =~= before.push(incoming));
                assert(distinct_reporters(after)) by {
                    assert forall|a: int, b: int| 0 <= a < b < after.len() implies after[a].id
                        != after[b].id by {
                        if b < before.len() {
                            assert(before[a].id != before[b].id);
                        } else {
                            assert(before[a].id != incoming.id);
                        }
                    }
                }
            },
        }
    }
}

/// The two caches say the same of the sidecar `id`.
pub open spec fn same_at(a: Map<Seq<char>, nat>, b: Map<Seq<char>, nat>, id: Seq<char>) -> bool {
    &&& a.contains_key(id) == b.contains_key(id)
    &&& a.contains_key(id) ==> a[id] == b[id]
}

/// Enough heartbeats count, after `status` came in, for the sidecars to be judged.
pub open spec fn has_quorum(state: SidecarStateView, status: HeartbeatStatusView) -> bool {
    let statuses = record(state.statuses, status);
    accepted_count(statuses, latest_timestamp(statuses), state.heartbeat_period) >= state.majority
}

/// After `status` came in, the heartbeats that count name `id` fewer times than make a
/// majority.
pub open spec fn is_offline_after(
    state: SidecarStateView,
    status: HeartbeatStatusView,
    id: Seq<char>,
) -> bool {
    let statuses = record(state.statuses, status);
    votes(statuses, latest_timestamp(statuses), state.heartbeat_period, id) < state.majority
}

proof fn lemma_record_keeps_distinct(statuses: Seq<HeartbeatStatusView>, status: HeartbeatStatusView)
    requires
        distinct_reporters(statuses),
    ensures
        distinct_reporters(record(statuses, status)),
        knows(record(statuses, status), status.id),
        forall|id: Seq<char>|
            knows(record(statuses, status), id) <==> knows(statuses, id) || id == status.id,
{
    let after = record(statuses, status);
    if knows(statuses, status.id) {
        let k = reporter_index(statuses, status.id);
        assert forall|a: int, b: int| 0 <= a < b < after.len() implies after[a].id
            != after[b].id by {
            assert(statuses[a].id != statuses[b].id);
        }
        assert(after[k].id == status.id);
        assert forall|id: Seq<char>| knows(after, id) <==> knows(statuses, id) || id
            == status.id by {
            if knows(after, id) {
                let j = reporter_index(after, id);
                assert(statuses[j].id == id);
            }
            if knows(statuses, id) {
                let j = reporter_index(statuses, id);
                assert(after[j].id == id);
            }
        }
    } else {
        assert forall|a: int, b: int| 0 <= a < b < after.len() implies after[a].id
            != after[b].id by {
            if b < statuses.len() {
                assert(statuses[a].id != statuses[b].id);
            } else {
                assert(statuses[a].id != status.id);
            }
        }
        assert(after[statuses.len() as int].id == status.id);
        assert forall|id: Seq<char>| knows(after, id) <==> knows(statuses, id) || id
            == status.id by {
            if knows(after, id) {
                let j = reporter_index(after, id);
                if j < statuses.len() {
                    assert(statuses[j].id == id);
                }
            }
            if knows(statuses, id) {
                let j = reporter_index(statuses, id);
                assert(after[j].id == id);
            }
        }
    }
}

proof fn lemma_judge_keeps_below(
    statuses: Seq<HeartbeatStatusView>,
    k: nat,
    unreachable: Map<Seq<char>, nat>,
    latest: int,
    period: nat,
    majority: nat,
    thresh: nat,
)
    requires
        below_thresh(unreachable, thresh),
    ensures
        below_thresh(judge(statuses, k, unreachable, latest, period, majority, thresh).0, thresh),
        judge(statuses, k, unreachable, latest, period, majority, thresh).1.len() <= k,
    decreases k,
{
    if k > 0 {
        lemma_judge_keeps_below(
            statuses,
            (k - 1) as nat,
            unreachable,
            latest,
            period,
            majority,
            thresh,
        );
    }
}

proof fn lemma_judge_elsewhere(
    statuses: Seq<HeartbeatStatusView>,
    k: nat,
    unreachable: Map<Seq<char>, nat>,
    latest: int,
    period: nat,
    majority: nat,
    thresh: nat,
    id: Seq<char>,
)
    requires
        k <= statuses.len(),
        forall|i: int| 0 <= i < k ==> (#[trigger] statuses[i]).id != id,
    ensures
        same_at(judge(statuses, k, unreachable, latest, period, majority, thresh).0, unreachable, id),
        !judge(statuses, k, unreachable, latest, period, majority, thresh).1.contains(
            ActionView::DeletePod(id),
        ),
        !judge(statuses, k, unreachable, latest, period, majority, thresh).1.contains(
            ActionView::RecoveryFailed(id),
        ),
    decreases k,
{
    if k > 0 {
        lemma_judge_elsewhere(
            statuses,
            (k - 1) as nat,
            unreachable,
            latest,
            period,
            majority,
            thresh,
            id,
        );
        assert(statuses[k - 1].id != id);
    }
}

proof fn lemma_judge_at(
    statuses: Seq<HeartbeatStatusView>,
    k: nat,
    unreachable: Map<Seq<char>, nat>,
    latest: int,
    period: nat,
    majority: nat,
    thresh: nat,
    i: int,
)
    requires
        distinct_reporters(statuses),
        0 <= i < k <= statuses.len(),
    ensures
        ({
            let id = statuses[i].id;
            let one = judge_one(
                unreachable,
                id,
                votes(statuses, latest, period, id) < majority,
                thresh,
            );
            let all = judge(statuses, k, unreachable, latest, period, majority, thresh);
            &&& same_at(all.0, one.0, id)
            &&& all.1.contains(ActionView::DeletePod(id)) == one.1.contains(
                ActionView::DeletePod(id),
            )
            &&& all.1.contains(ActionView::RecoveryFailed(id)) == one.1.contains(
                ActionView::RecoveryFailed(id),
            )
        }),
    decreases k,
{
    let id = statuses[i].id;
    let before = judge(statuses, (k - 1) as nat, unreachable, latest, period, majority, thresh);
    let last = statuses[k - 1].id;
    let step = judge_one(before.0, last, votes(statuses, latest, period, last) < majority, thresh);
    let one = judge_one(unreachable, id, votes(statuses, latest, period, id) < majority, thresh);
    let delete = ActionView::DeletePod(id);
    let failed = ActionView::RecoveryFailed(id);
    if i == k - 1 {
        assert forall|j: int| 0 <= j < k - 1 implies (#[trigger] statuses[j]).id != id by {
            assert(statuses[j].id != statuses[i].id);
        }
        lemma_judge_elsewhere(
            statuses,
            (k - 1) as nat,
            unreachable,
            latest,
            period,
            majority,
            thresh,
            id,
        );
        lemma_contains_add(before.1, step.1, delete);
        lemma_contains_add(before.1, step.1, failed);
        lemma_contains_one(step.1, delete);
        lemma_contains_one(step.1, failed);
        lemma_contains_one(one.1, delete);
        lemma_contains_one(one.1, failed);
    } else {
        lemma_judge_at(
            statuses,
            (k - 1) as nat,
            unreachable,
            latest,
            period,
            majority,
            thresh,
            i,
        );
        assert(statuses[i].id != statuses[k - 1].id);
        lemma_contains_add(before.1, step.1, delete);
        lemma_contains_add(before.1, step.1, failed);
        lemma_contains_one(step.1, delete);
        lemma_contains_one(step.1, failed);
    }
}

proof fn lemma_contains_add(a: Seq<ActionView>, b: Seq<ActionView>, x: ActionView)
    ensures
        (a + b).contains(x) == (a.contains(x) || b.contains(x)),
{
    if a.contains(x) {
        let i = choose|i: int| 0 <= i < a.len() && a[i] == x;
        assert((a + b)[i] == x);
    }
    if b.contains(x) {
        let i = choose|i: int| 0 <= i < b.len() && b[i] == x;
        assert((a + b)[a.len() + i] == x);
    }
    if (a + b).contains(x) {
        let i = choose|i: int| 0 <= i < (a + b).len() && (a + b)[i] == x;
        if i < a.len() {
            assert(a[i] == x);
        } else {
            assert(b[i - a.len()] == x);
        }
    }
}

proof fn lemma_contains_one(a: Seq<ActionView>, x: ActionView)
    requires
        a.len() <= 1,
    ensures
        a.contains(x) == (a.len() == 1 && a[0] == x),
{
    if a.len() == 1 && a[0] == x {
        assert(a.contains(x));
    }
}

/// Every state that the aggregator can reach is valid: a valid state stays valid
/// whatever heartbeat comes in, and no step asks for more than one thing for each
/// known sidecar.
pub proof fn lemma_step_keeps_valid(state: SidecarStateView, status: HeartbeatStatusView)
    requires
        valid(state),
    ensures
        valid(step(state, status).0),
        step(state, status).1.len() <= step(state, status).0.statuses.len(),
        step(state, status).0.heartbeat_period == state.heartbeat_period,
        step(state, status).0.unreachable_thresh == state.unreachable_thresh,
        step(state, status).0.majority == state.majority,
        knows(step(state, status).0.statuses, status.id),
{
    lemma_record_keeps_distinct(state.statuses, status);
    let statuses = record(state.statuses, status);
    lemma_judge_keeps_below(
        statuses,
        statuses.len(),
        state.unreachable,
        latest_timestamp(statuses),
        state.heartbeat_period,
        state.majority,
        state.unreachable_thresh,
    );
}

/// Without enough heartbeats that count, a heartbeat is recorded and nothing else
/// happens: nothing is asked for, and the cache stays as it is.
pub proof fn lemma_no_quorum_no_action(state: SidecarStateView, status: HeartbeatStatusView)
    requires
        !has_quorum(state, status),
    ensures
        step(state, status).1 == Seq::<ActionView>::empty(),
        step(state, status).0.unreachable == state.unreachable,
        step(state, status).0.statuses == record(state.statuses, status),
{
}

/// What a step does to one sidecar `id`.
///
/// With enough heartbeats that count, a known sidecar is judged by itself, as
/// [`judge_one`] says, from what the cache held of it before the step and from
/// whether it is offline; the order in which the sidecars are judged does not show.
/// Of any other sidecar the cache holds after the step what it held before.
pub proof fn lemma_step_by_sidecar(
    state: SidecarStateView,
    status: HeartbeatStatusView,
    id: Seq<char>,
)
    requires
        valid(state),
    ensures
        ({
            let next = step(state, status);
            let known = knows(state.statuses, id) || id == status.id;
            let one = judge_one(
                state.unreachable,
                id,
                is_offline_after(state, status, id),
                state.unreachable_thresh,
            );
            if has_quorum(state, status) && known {
                &&& same_at(next.0.unreachable, one.0, id)
                &&& next.1.contains(ActionView::DeletePod(id)) == one.1.contains(
                    ActionView::DeletePod(id),
                )
                &&& next.1.contains(ActionView::RecoveryFailed(id)) == one.1.contains(
                    ActionView::RecoveryFailed(id),
                )
            } else {
                &&& same_at(next.0.unreachable, state.unreachable, id)
                &&& !next.1.contains(ActionView::DeletePod(id))
                &&& !next.1.contains(ActionView::RecoveryFailed(id))
            }
        }),
{
    lemma_record_keeps_distinct(state.statuses, status);
    let statuses = record(state.statuses, status);
    let latest = latest_timestamp(statuses);
    if has_quorum(state, status) {
        if knows(statuses, id) {
            let i = reporter_index(statuses, id);
            lemma_judge_at(
                statuses,
                statuses.len(),
                state.unreachable,
                latest,
                state.heartbeat_period,
                state.majority,
                state.unreachable_thresh,
                i,
            );
        } else {
            assert forall|i: int| 0 <= i < statuses.len() implies (#[trigger] statuses[i]).id
                != id by {
                if statuses[i].id == id {
                    assert(knows(statuses, id));
                }
            }
            lemma_judge_elsewhere(
                statuses,
                statuses.len(),
                state.unreachable,
                latest,
                state.heartbeat_period,
                state.majority,
                state.unreachable_thresh,
                id,
            );
        }
    }
}

/// A pod is deleted exactly for a known sidecar that is offline and was not in the
/// cache; the sidecar is then in the cache with the count 0. A failed recovery is
/// reported exactly for a known sidecar that is offline and whose count reaches the
/// threshold; the sidecar is then out of the cache. Both ask for enough heartbeats
/// that count.
pub proof fn lemma_when_pods_are_deleted(
    state: SidecarStateView,
    status: HeartbeatStatusView,
    id: Seq<char>,
)
    requires
        valid(state),
    ensures
        step(state, status).1.contains(ActionView::DeletePod(id)) <==> {
            &&& has_quorum(state, status)
            &&& knows(state.statuses, id) || id == status.id
            &&& is_offline_after(state, status, id)
            &&& !state.unreachable.contains_key(id)
        },
        step(state, status).1.contains(ActionView::DeletePod(id)) ==> step(
            state,
            status,
        ).0.unreachable.contains_key(id) && step(state, status).0.unreachable[id] == 0,
        step(state, status).1.contains(ActionView::RecoveryFailed(id)) <==> {
            &&& has_quorum(state, status)
            &&& knows(state.statuses, id) || id == status.id
            &&& is_offline_after(state, status, id)
            &&& state.unreachable.contains_key(id)
            &&& state.unreachable[id] + 1 == state.unreachable_thresh
        },
        step(state, status).1.contains(ActionView::RecoveryFailed(id)) ==> !step(
            state,
            status,
        ).0.unreachable.contains_key(id),
{
    lemma_step_by_sidecar(state, status, id);
    let one = judge_one(
        state.unreachable,
        id,
        is_offline_after(state, status, id),
        state.unreachable_thresh,
    );
    lemma_contains_one(one.1, ActionView::DeletePod(id));
    lemma_contains_one(one.1, ActionView::RecoveryFailed(id));
}

/// A known sidecar that is not offline is out of the cache after a step with enough
/// heartbeats that count: its recovery was seen.
pub proof fn lemma_recovery_clears(
    state: SidecarStateView,
    status: HeartbeatStatusView,
    id: Seq<char>,
)
    requires
        valid(state),
        has_quorum(state, status),
        knows(state.statuses, id) || id == status.id,
        !is_offline_after(state, status, id),
    ensures
        !step(state, status).0.unreachable.contains_key(id),
        !step(state, status).1.contains(ActionView::DeletePod(id)),
        !step(state, status).1.contains(ActionView::RecoveryFailed(id)),
{
    lemma_step_by_sidecar(state, status, id);
}

/// Heartbeats are taken in one by one: to take in two runs of heartbeats one after
/// the other is to take in the one run that they make together.
pub proof fn lemma_run_in_order(
    state: SidecarStateView,
    first: Seq<HeartbeatStatusView>,
    then: Seq<HeartbeatStatusView>,
)
    ensures
        run(state, first + then).0 == run(run(state, first).0, then).0,
        run(state, first + then).1 == run(state, first).1 + run(run(state, first).0, then).1,
        run(state, seq![]) == (state, Seq::<ActionView>::empty()),
    decreases then.len(),
{
    if then.len() == 0 {
        assert(first + then =~= first);
        assert(run(state, first).1 + Seq::<ActionView>::empty() =~= run(state, first).1);
    } else {
        lemma_run_in_order(state, first, then.drop_last());
        assert((first + then).drop_last() =~= first + then.drop_last());
        assert((first + then).last() == then.last());
        let middle = run(state, first);
        let before = run(middle.0, then.drop_last());
        let last = step(before.0, then.last());
        assert(middle.1 + (before.1 + last.1) =~= (middle.1 + before.1) + last.1);
    }
}

/// A single heartbeat taken in as a run is one step, and every state that a run
/// reaches from a valid state is valid.
pub proof fn lemma_run_keeps_valid(state: SidecarStateView, statuses: Seq<HeartbeatStatusView>)
    requires
        valid(state),
    ensures
        valid(run(state, statuses).0),
        statuses.len() == 1 ==> run(state, statuses) == step(state, statuses[0]),
    decreases statuses.len(),
{
    if statuses.len() > 0 {
        lemma_run_keeps_valid(state, statuses.drop_last());
        lemma_step_keeps_valid(run(state, statuses.drop_last()).0, statuses.last());
        if statuses.len() == 1 {
            assert(statuses.drop_last() =~= Seq::<HeartbeatStatusView>::empty());
            assert(Seq::<ActionView>::empty() + step(state, statuses[0]).1 =~= step(
                state,
                statuses[0],
            ).1);
        }
    }
}

/// The heartbeats stand newest first.
pub open spec fn newest_first(statuses: Seq<HeartbeatStatusView>) -> bool {
    forall|i: int, j: int|
        0 <= i <= j < statuses.len() ==> (#[trigger] statuses[i]).timestamp >= (
        #[trigger] statuses[j]).timestamp
}

proof fn lemma_latest_is_a_fold(statuses: Seq<HeartbeatStatusView>)
    ensures
        latest_timestamp(statuses) == statuses.fold_left(
            0int,
            |newest: int, status: HeartbeatStatusView|
                if status.timestamp > newest {
                    status.timestamp as int
                } else {
                    newest
                },
        ),
    decreases statuses.len(),
{
    if statuses.len() > 0 {
        lemma_latest_is_a_fold(statuses.drop_last());
    }
}

proof fn lemma_count_is_a_fold(statuses: Seq<HeartbeatStatusView>, latest: int, period: nat)
    ensures
        accepted_count(statuses, latest, period) == statuses.fold_left(
            0nat,
            |count: nat, status: HeartbeatStatusView|
                count + if accepted(status, latest, period) {
                    1nat
                } else {
                    0nat
                },
        ),
    decreases statuses.len(),
{
    if statuses.len() > 0 {
        lemma_count_is_a_fold(statuses.drop_last(), latest, period);
    }
}

proof fn lemma_votes_are_a_fold(
    statuses: Seq<HeartbeatStatusView>,
    latest: int,
    period: nat,
    id: Seq<char>,
)
    ensures
        votes(statuses, latest, period, id) == statuses.fold_left(
            0nat,
            |count: nat, status: HeartbeatStatusView|
                count + if accepted(status, latest, period) {
                    occurrences(status.reachable_ids, id)
                } else {
                    0nat
                },
        ),
    decreases statuses.len(),
{
    if statuses.len() > 0 {
        lemma_votes_are_a_fold(statuses.drop_last(), latest, period, id);
    }
}

/// How the heartbeats are arranged does not matter for which is the newest
/// timestamp, for how many heartbeats count, or for how often a sidecar is named: two
/// arrangements of the same heartbeats agree in all three.
pub proof fn lemma_arrangement_is_irrelevant(
    one: Seq<HeartbeatStatusView>,
    other: Seq<HeartbeatStatusView>,
    latest: int,
    period: nat,
    id: Seq<char>,
)
    requires
        one.to_multiset() == other.to_multiset(),
    ensures
        latest_timestamp(one) == latest_timestamp(other),
        accepted_count(one, latest, period) == accepted_count(other, latest, period),
        votes(one, latest, period, id) == votes(other, latest, period, id),
{
    let newer = |newest: int, status: HeartbeatStatusView|
        if status.timestamp > newest {
            status.timestamp as int
        } else {
            newest
        };
    let counted = |count: nat, status: HeartbeatStatusView|
        count + if accepted(status, latest, period) {
            1nat
        } else {
            0nat
        };
    let named = |count: nat, status: HeartbeatStatusView|
        count + if accepted(status, latest, period) {
            occurrences(status.reachable_ids, id)
        } else {
            0nat
        };
    lemma_latest_is_a_fold(one);
    lemma_latest_is_a_fold(other);
    lemma_count_is_a_fold(one, latest, period);
    lemma_count_is_a_fold(other, latest, period);
    lemma_votes_are_a_fold(one, latest, period, id);
    lemma_votes_are_a_fold(other, latest, period, id);
    assert(vstd::seq_lib::commutative_foldl(newer));
    assert(vstd::seq_lib::commutative_foldl(counted));
    assert(vstd::seq_lib::commutative_foldl(named));
    vstd::seq_lib::lemma_fold_left_permutation(one, other, newer, 0int);
    vstd::seq_lib::lemma_fold_left_permutation(one, other, counted, 0nat);
    vstd::seq_lib::lemma_fold_left_permutation(one, other, named, 0nat);
}

proof fn lemma_latest_bounds(statuses: Seq<HeartbeatStatusView>)
    ensures
        forall|i: int| 0 <= i < statuses.len() ==> (#[trigger] statuses[i]).timestamp <= latest_timestamp(statuses),
        statuses.len() > 0 ==> exists|i: int|
            0 <= i < statuses.len() && (#[trigger] statuses[i]).timestamp == latest_timestamp(
                statuses,
            ),
        statuses.len() == 0 ==> latest_timestamp(statuses) == 0,
    decreases statuses.len(),
{
    if statuses.len() > 0 {
        let rest = statuses.drop_last();
        lemma_latest_bounds(rest);
        assert forall|i: int| 0 <= i < statuses.len() implies (#[trigger] statuses[i]).timestamp
            <= latest_timestamp(statuses) by {
            if i < rest.len() {
                assert(rest[i].timestamp <= latest_timestamp(rest));
            }
        }
        if statuses.last().timestamp > latest_timestamp(rest) {
            assert(statuses[statuses.len() - 1].timestamp == latest_timestamp(statuses));
        } else if rest.len() > 0 {
            let k = choose|k: int|
                0 <= k < rest.len() && (#[trigger] rest[k]).timestamp == latest_timestamp(rest);
            assert(statuses[k].timestamp == latest_timestamp(statuses));
        } else {
            assert(statuses[0].timestamp == latest_timestamp(statuses));
        }
    }
}

/// The newest timestamp is a timestamp of the heartbeats, and none is newer. Where
/// the heartbeats stand newest first, it is the timestamp of the first, and the
/// heartbeats that count are the first ones: whatever stands before one that counts,
/// counts.
pub proof fn lemma_accepted_window(sorted: Seq<HeartbeatStatusView>, period: nat)
    requires
        sorted.len() > 0,
    ensures
        forall|i: int| 0 <= i < sorted.len() ==> (#[trigger] sorted[i]).timestamp <= latest_timestamp(sorted),
        exists|i: int|
            0 <= i < sorted.len() && (#[trigger] sorted[i]).timestamp == latest_timestamp(sorted),
        newest_first(sorted) ==> latest_timestamp(sorted) == sorted[0].timestamp,
        newest_first(sorted) ==> accepted(sorted[0], latest_timestamp(sorted), period),
        newest_first(sorted) ==> forall|i: int, j: int|
            0 <= i <= j < sorted.len() && accepted(
                #[trigger] sorted[j],
                latest_timestamp(sorted),
                period,
            ) ==> accepted(#[trigger] sorted[i], latest_timestamp(sorted), period),
{
    lemma_latest_bounds(sorted);
    if newest_first(sorted) {
        let k = choose|k: int|
            0 <= k < sorted.len() && (#[trigger] sorted[k]).timestamp == latest_timestamp(sorted);
        assert(sorted[0].timestamp >= sorted[k].timestamp);
        assert(sorted[0].timestamp <= latest_timestamp(sorted));
        assert forall|i: int, j: int|
            0 <= i <= j < sorted.len() && accepted(
                #[trigger] sorted[j],
                latest_timestamp(sorted),
                period,
            ) implies accepted(#[trigger] sorted[i], latest_timestamp(sorted), period) by {
            assert(sorted[i].timestamp >= sorted[j].timestamp);
        }
    }
}

} // verus!
