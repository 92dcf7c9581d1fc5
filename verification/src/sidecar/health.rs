//! What a sidecar probes and what it reports.

use crate::heartbeat::{HeartbeatStatus, HeartbeatStatusView};
use crate::text::same_text;
use crate::xline::{distinct_names, Member, MemberView};
use vstd::prelude::*;
use vstd::string::*;

verus! {

/// The route of the operator that takes heartbeats.
pub const DEPLOY_OPERATOR_ROUTE: &'static str = "/status";

/// The route of a sidecar that answers for its health.
pub const MEMBER_HEALTH_ROUTE: &'static str = "/health";

/// The URL of `route` at the address `addr`.
pub open spec fn url_of(addr: Seq<char>, route: Seq<char>) -> Seq<char> {
    "http://"@ + addr + route
}

/// A member with the URL of its health route in place of its address.
pub open spec fn probe_target_of(member: MemberView) -> MemberView {
    MemberView { name: member.name, addr: url_of(member.addr, MEMBER_HEALTH_ROUTE@) }
}

/// `ids` with `id` behind them, unless `id` is among them.
pub open spec fn with_self(ids: Seq<Seq<char>>, id: Seq<char>) -> Seq<Seq<char>> {
    if ids.contains(id) {
        ids
    } else {
        ids.push(id)
    }
}

/// Whether an answer with the HTTP status `status` shows that the member was reached:
/// any status from 200 to 299 does.
pub fn is_reached(status: u16) -> (reached: bool)
    ensures
        reached == (200 <= status <= 299),
{
    200 <= status && status <= 299
}

/// What a sidecar needs to probe its peers and to report to the operator.
#[derive(Debug)]
pub struct Health {
    id: String,
    members: Vec<Member>,
    deploy_operator_url: String,
}

/// The model of it.
pub struct HealthView {
    /// The sidecar that probes.
    pub id: Seq<char>,
    /// The sidecars to probe, each with the URL of its health route.
    pub members: Seq<MemberView>,
    /// The URL to which heartbeats are sent.
    pub deploy_operator_url: Seq<char>,
}

impl View for Health {
    type V = HealthView;

    closed spec fn view(&self) -> HealthView {
        HealthView {
            id: self.id@,
            members: self.members.deep_view(),
            deploy_operator_url: self.deploy_operator_url@,
        }
    }
}

fn url(addr: &str, route: &str) -> (url: String)
    ensures
        url@ == url_of(addr@, route@),
{
    let mut url: String = String::from_str("http://");
    url.append(addr);
    url.append(route);
    url
}

impl Health {
    /// The sidecar `id`, which probes `members` at their health routes and reports to
    /// the operator at `deploy_operator_addr`.
    pub fn new(id: String, members: Vec<Member>, deploy_operator_addr: &str) -> (health: Self)
        ensures
            health@.id == id@,
            health@.deploy_operator_url == url_of(deploy_operator_addr@, DEPLOY_OPERATOR_ROUTE@),
            health@.members == members.deep_view().map_values(|m: MemberView| probe_target_of(m)),
            distinct_names(members.deep_view()) ==> distinct_names(health@.members),
    {
        let deploy_operator_url: String = url(deploy_operator_addr, DEPLOY_OPERATOR_ROUTE);
        let mut targets: Vec<Member> = Vec::new();
        let mut i: usize = 0;
        while i < members.len()
            invariant
                i <= members.len(),
                targets.len() == i,
                forall|j: int|
                    0 <= j < i ==> (#[trigger] targets[j]).deep_view() == probe_target_of(
                        members[j].deep_view(),
                    ),
            decreases members.len() - i,
        {
            targets.push(
                Member {
                    name: members[i].name.clone(),
                    addr: url(members[i].addr.as_str(), MEMBER_HEALTH_ROUTE),
                },
            );
            i += 1;
        }
        assert(targets.deep_view() =~= members.deep_view().map_values(
            |m: MemberView| probe_target_of(m),
        ));
        Self { id, members: targets, deploy_operator_url }
    }

    /// The sidecar that probes.
    pub fn id(&self) -> (id: &str)
        ensures
            id@ == self@.id,
    {
        self.id.as_str()
    }

    /// The sidecars to probe, each with the URL of its health route.
    pub fn members(&self) -> (members: &Vec<Member>)
        ensures
            members.deep_view() == self@.members,
    {
        &self.members
    }

    /// The URL to which heartbeats are sent.
    pub fn deploy_operator_url(&self) -> (url: &str)
        ensures
            url@ == self@.deploy_operator_url,
    {
        self.deploy_operator_url.as_str()
    }

    /// The heartbeat of a round of probing at `timestamp` in which the sidecars
    /// `reached` answered. The sidecar itself is always among the reached: it is added
    /// behind the others where it is not.
    pub fn probe(&self, timestamp: u64, reached: Vec<String>) -> (status: HeartbeatStatus)
        ensures
            status.deep_view() == (HeartbeatStatusView {
                id: self@.id,
                timestamp: timestamp,
                reachable_ids: with_self(reached.deep_view(), self@.id),
            }),
    {
        let mut reached: Vec<String> = reached;
        let ghost given = reached.deep_view();
        let mut found: bool = false;
        let mut i: usize = 0;
        while i < reached.len() && !found
            invariant
                i <= reached.len(),
                given == reached.deep_view(),
                found ==> given.contains(self.id@),
                !found ==> forall|j: int| 0 <= j < i ==> given[j] != self.id@,
            decreases reached.len() - i + if found { 0int } else { 1int },
        {
            assert(given[i as int] == reached[i as int]@);
            if same_text(reached[i].as_str(), self.id.as_str()) {
                found = true;
            } else {
                i += 1;
            }
        }
        if !found {
            reached.push(self.id.clone());
            assert(reached.deep_view() =~= given.push(self.id@));
        }
        HeartbeatStatus::new(self.id.clone(), timestamp, reached)
    }
}

} // verus!
