//! The operator: its configuration, and what it decides before it starts to reconcile.

use crate::migration::{compare_versions, is_valid_version, is_version, version_number};
use crate::sidecar_state::{majority_of, spec_size_of, SidecarState, SidecarStateView};
use crate::text::same_text;
use std::cmp::Ordering;
use vstd::prelude::*;
use vstd::string::*;

verus! {

/// How long the operator waits for the CRD to be established, in seconds.
pub const CRD_ESTABLISH_TIMEOUT: u64 = 20;

/// The configuration of the operator.
#[derive(Debug)]
pub struct Config {
    /// The one namespace to watch.
    pub namespace: String,
    /// Watch all namespaces; `namespace` is then not looked at.
    pub cluster_wide: bool,
    /// Patch the CRD even where the cluster holds a higher version of it.
    pub create_crd: bool,
    /// The DNS suffix of the Kubernetes cluster.
    pub cluster_suffix: String,
    /// The address on which heartbeats are taken.
    pub listen_addr: String,
    /// How far, in seconds, a heartbeat may lie behind the newest and still count.
    pub heartbeat_period: u64,
    /// How many failed recoveries of a sidecar are counted before it is given up.
    pub unreachable_thresh: usize,
}

/// The namespaces that the operator watches.
#[derive(Debug, PartialEq, Eq)]
pub enum Namespace {
    /// This namespace alone.
    Single(String),
    /// All of them.
    ClusterWide,
}

/// A custom resource definition as the cluster lists it: its name, and the names of
/// its versions in their order.
#[derive(Debug, PartialEq, Eq)]
pub struct CrdEntry {
    pub name: Option<String>,
    pub versions: Vec<String>,
}

/// The model of a listed definition.
pub struct CrdEntryView {
    pub name: Option<Seq<char>>,
    pub versions: Seq<Seq<char>>,
}

impl DeepView for CrdEntry {
    type V = CrdEntryView;

    open spec fn deep_view(&self) -> CrdEntryView {
        CrdEntryView { name: self.name.deep_view(), versions: self.versions.deep_view() }
    }
}

/// One thing that the operator does about its CRD.
#[derive(Debug, PartialEq, Eq, Clone, Copy)]
pub enum CrdStep {
    /// Create the CRD from the definition that the operator holds.
    Create,
    /// Merge the definition that the operator holds into the CRD of the cluster.
    MergePatch,
    /// Wait until the CRD is established, for so many seconds at most.
    AwaitEstablished(u64),
}

/// Why the operator cannot start.
#[derive(Debug, PartialEq, Eq)]
pub enum CrdError {
    /// This string is not a version.
    InvalidVersion(String),
    /// The cluster holds the version `present`, which is higher than `embedded`, the
    /// version of the operator.
    CrdIncompatible { embedded: String, present: String },
    /// The CRD was not established in time.
    CrdEstablishTimeout,
}

/// The model of such an error.
pub enum CrdErrorView {
    InvalidVersion(Seq<char>),
    CrdIncompatible { embedded: Seq<char>, present: Seq<char> },
    CrdEstablishTimeout,
}

impl DeepView for CrdError {
    type V = CrdErrorView;

    open spec fn deep_view(&self) -> CrdErrorView {
        match self {
            CrdError::InvalidVersion(version) => CrdErrorView::InvalidVersion(version@),
            CrdError::CrdIncompatible { embedded, present } => CrdErrorView::CrdIncompatible {
                embedded: embedded@,
                present: present@,
            },
            CrdError::CrdEstablishTimeout => CrdErrorView::CrdEstablishTimeout,
        }
    }
}

impl CrdError {
    /// The error in words.
    pub fn message(&self) -> (message: String)
        ensures
            message@ == match self {
                CrdError::InvalidVersion(version) => "The version "@ + version@
                    + " does not match v<number>"@,
                CrdError::CrdIncompatible { embedded, present } =>
                    "The current XlineCluster CRD version "@ + embedded@
                    + " is not compatible with higher version "@ + present@
                    + " on k8s. Please use the latest xline-operator or set --create_crd to true."@,
                CrdError::CrdEstablishTimeout => "The XlineCluster CRD was not established in time"@,
            },
    {
        match self {
            CrdError::InvalidVersion(version) => {
                let mut message: String = String::from_str("The version ");
                message.append(version.as_str());
                message.append(" does not match v<number>");
                message
            },
            CrdError::CrdIncompatible { embedded, present } => {
                let mut message: String = String::from_str("The current XlineCluster CRD version ");
                message.append(embedded.as_str());
                message.append(" is not compatible with higher version ");
                message.append(present.as_str());
                message.append(
                    " on k8s. Please use the latest xline-operator or set --create_crd to true.",
                );
                message
            },
            CrdError::CrdEstablishTimeout => String::from_str(
                "The XlineCluster CRD was not established in time",
            ),
        }
    }
}

/// The entry at `i` is the last one of `crds` with the name `name`.
pub open spec fn is_last_named(crds: Seq<CrdEntryView>, name: Seq<char>, i: int) -> bool {
    &&& 0 <= i < crds.len()
    &&& crds[i].name == Some(name)
    &&& forall|j: int| i < j < crds.len() ==> (#[trigger] crds[j]).name != Some(name)
}

/// The versions under which the cluster holds the definition `name`, if it holds it.
/// Of two entries with the name the later one counts.
pub open spec fn versions_of(crds: Seq<CrdEntryView>, name: Seq<char>) -> Option<Seq<Seq<char>>> {
    if exists|i: int| is_last_named(crds, name, i) {
        Some(crds[choose|i: int| is_last_named(crds, name, i)].versions)
    } else {
        None
    }
}

/// The string at `i` is the first of `versions` that is not a version.
pub open spec fn is_first_invalid(versions: Seq<Seq<char>>, i: int) -> bool {
    &&& 0 <= i < versions.len()
    &&& !is_version(versions[i])
    &&& forall|j: int| 0 <= j < i ==> is_version(#[trigger] versions[j])
}

/// Every string of `versions` is a version.
pub open spec fn all_valid(versions: Seq<Seq<char>>) -> bool {
    forall|i: int| 0 <= i < versions.len() ==> is_version(#[trigger] versions[i])
}

/// The version at `i` is the first of `versions` that is higher than `embedded`.
pub open spec fn is_first_above(versions: Seq<Seq<char>>, embedded: Seq<char>, i: int) -> bool {
    &&& 0 <= i < versions.len()
    &&& version_number(versions[i]) > version_number(embedded)
    &&& forall|j: int|
        0 <= j < i ==> version_number(#[trigger] versions[j]) <= version_number(embedded)
}

/// `embedded` is higher than every version of `versions`.
pub open spec fn above_all(versions: Seq<Seq<char>>, embedded: Seq<char>) -> bool {
    forall|i: int|
        0 <= i < versions.len() ==> version_number(embedded) > version_number(
            #[trigger] versions[i],
        )
}

/// Some version of `versions` is higher than `embedded`.
pub open spec fn some_above(versions: Seq<Seq<char>>, embedded: Seq<char>) -> bool {
    exists|i: int|
        0 <= i < versions.len() && version_number(#[trigger] versions[i]) > version_number(
            embedded,
        )
}

/// What the operator writes, given the versions `present` under which the cluster
/// holds the CRD, or `None` where it does not hold it.
///
/// Without the CRD the operator creates it. With it, the operator's version and every
/// version of the cluster must be versions. Then the operator patches the CRD if its
/// version is higher than all of the cluster's. If the cluster holds a higher one, the
/// operator patches only where `create_crd` is set, and fails otherwise, naming its
/// own version and the first higher one. Else it writes nothing.
pub open spec fn write_of(embedded: Seq<char>, present: Option<Seq<Seq<char>>>, create_crd: bool)
    -> Result<Seq<CrdStep>, CrdErrorView> {
    match present {
        None => Ok(seq![CrdStep::Create]),
        Some(versions) => if !is_version(embedded) {
            Err(CrdErrorView::InvalidVersion(embedded))
        } else if !all_valid(versions) {
            Err(
                CrdErrorView::InvalidVersion(
                    versions[choose|i: int| is_first_invalid(versions, i)],
                ),
            )
        } else if above_all(versions, embedded) {
            Ok(seq![CrdStep::MergePatch])
        } else if some_above(versions, embedded) {
            if create_crd {
                Ok(seq![CrdStep::MergePatch])
            } else {
                Err(
                    CrdErrorView::CrdIncompatible {
                        embedded: embedded,
                        present: versions[choose|i: int| is_first_above(versions, embedded, i)],
                    },
                )
            }
        } else {
            Ok(seq![])
        },
    }
}

/// What the operator does about its CRD, in order: what it writes, if anything, and
/// then the wait for the CRD to be established.
pub open spec fn crd_steps_of(
    embedded: Seq<char>,
    present: Option<Seq<Seq<char>>>,
    create_crd: bool,
) -> Result<Seq<CrdStep>, CrdErrorView> {
    match write_of(embedded, present, create_crd) {
        Ok(write) => Ok(write + seq![CrdStep::AwaitEstablished(CRD_ESTABLISH_TIMEOUT)]),
        Err(e) => Err(e),
    }
}

/// The model of a result of planning.
pub open spec fn view_steps(result: Result<Vec<CrdStep>, CrdError>) -> Result<
    Seq<CrdStep>,
    CrdErrorView,
> {
    match result {
        Ok(steps) => Ok(steps@),
        Err(e) => Err(e.deep_view()),
    }
}

/// The operator.
#[derive(Debug)]
pub struct Operator {
    /// The configuration of this operator.
    pub config: Config,
}

fn is_newer(a: &str, b: &str) -> (newer: bool)
    requires
        is_version(a@),
        is_version(b@),
    ensures
        newer == (version_number(a@) > version_number(b@)),
{
    match compare_versions(a, b) {
        Ok(Ordering::Greater) => true,
        _ => false,
    }
}

fn first_invalid(versions: &Vec<String>) -> (found: Option<usize>)
    ensures
        match found {
            Some(i) => is_first_invalid(versions.deep_view(), i as int),
            None => all_valid(versions.deep_view()),
        },
{
    let mut i: usize = 0;
    while i < versions.len()
        invariant
            i <= versions.len(),
            forall|j: int| 0 <= j < i ==> is_version(#[trigger] versions.deep_view()[j]),
        decreases versions.len() - i,
    {
        assert(versions.deep_view()[i as int] == versions[i as int]@);
        if !is_valid_version(versions[i].as_str()) {
            return Some(i);
        }
        i += 1;
    }
    None
}

fn is_above_all(versions: &Vec<String>, embedded: &str) -> (above: bool)
    requires
        is_version(embedded@),
        all_valid(versions.deep_view()),
    ensures
        above == above_all(versions.deep_view(), embedded@),
{
    let mut i: usize = 0;
    while i < versions.len()
        invariant
            i <= versions.len(),
            is_version(embedded@),
            all_valid(versions.deep_view()),
            forall|j: int|
                0 <= j < i ==> version_number(embedded@) > version_number(
                    #[trigger] versions.deep_view()[j],
                ),
        decreases versions.len() - i,
    {
        assert(versions.deep_view()[i as int] == versions[i as int]@);
        if !is_newer(embedded, versions[i].as_str()) {
            return false;
        }
        i += 1;
    }
    true
}

fn first_above(versions: &Vec<String>, embedded: &str) -> (found: Option<usize>)
    requires
        is_version(embedded@),
        all_valid(versions.deep_view()),
    ensures
        match found {
            Some(i) => is_first_above(versions.deep_view(), embedded@, i as int),
            None => !some_above(versions.deep_view(), embedded@),
        },
{
    let mut i: usize = 0;
    while i < versions.len()
        invariant
            i <= versions.len(),
            is_version(embedded@),
            all_valid(versions.deep_view()),
            forall|j: int|
                0 <= j < i ==> version_number(#[trigger] versions.deep_view()[j]) <= version_number(
                    embedded@,
                ),
        decreases versions.len() - i,
    {
        assert(versions.deep_view()[i as int] == versions[i as int]@);
        if is_newer(versions[i].as_str(), embedded) {
            return Some(i);
        }
        i += 1;
    }
    None
}

/// The versions under which `crds` holds the definition with the name `crd_name`.
pub fn find_crd<'a>(crds: &'a Vec<CrdEntry>, crd_name: &str) -> (found: Option<&'a Vec<String>>)
    ensures
        found.deep_view() == versions_of(crds.deep_view(), crd_name@),
{
    let mut i: usize = crds.len();
    while i > 0
        invariant
            i <= crds.len(),
            forall|j: int| i <= j < crds.len() ==> (#[trigger] crds.deep_view()[j]).name != Some(crd_name@),
        decreases i,
    {
        i -= 1;
        assert(crds.deep_view()[i as int] == crds[i as int].deep_view());
        if let Some(name) = &crds[i].name {
            if same_text(name.as_str(), crd_name) {
                proof {
                    let all = crds.deep_view();
                    assert(is_last_named(all, crd_name@, i as int));
                    let k = choose|k: int| is_last_named(all, crd_name@, k);
                    assert(k == i) by {
                        if k < i {
                            assert(all[i as int].name != Some(crd_name@));
                        } else if i < k {
                            assert(all[k].name != Some(crd_name@));
                        }
                    }
                }
                return Some(&crds[i].versions);
            }
        }
    }
    proof {
        let all = crds.deep_view();
        assert forall|k: int| !is_last_named(all, crd_name@, k) by {
            if 0 <= k < all.len() {
                assert(all[k].name != Some(crd_name@));
            }
        }
    }
    None
}

/// What becomes of the wait for the CRD: it was established in time, or the operator
/// cannot start.
pub fn crd_established(in_time: bool) -> (result: Result<(), CrdError>)
    ensures
        in_time ==> result is Ok,
        !in_time ==> result == Err::<(), _>(CrdError::CrdEstablishTimeout),
{
    if in_time {
        Ok(())
    } else {
        Err(CrdError::CrdEstablishTimeout)
    }
}

impl Operator {
    /// An operator with the configuration `config`.
    pub fn new(config: Config) -> (operator: Self)
        ensures
            operator.config == config,
    {
        Self { config }
    }

    /// The namespaces to watch: all of them where `cluster_wide` is set, else the one
    /// of the configuration.
    pub fn watch_scope(&self) -> (scope: Namespace)
        ensures
            self.config.cluster_wide ==> scope == Namespace::ClusterWide,
            !self.config.cluster_wide ==> (scope matches Namespace::Single(namespace)
                && namespace@ == self.config.namespace@),
    {
        if self.config.cluster_wide {
            Namespace::ClusterWide
        } else {
            Namespace::Single(self.config.namespace.clone())
        }
    }

    /// The liveness aggregator at its start, for a cluster whose size was read as
    /// `spec_size`, with the heartbeat period and the threshold of the configuration.
    pub fn sidecar_state(&self, spec_size: Option<i32>) -> (state: SidecarState)
        requires
            spec_size matches Some(size) ==> size >= 0,
        ensures
            state.wf(),
            state@ == (SidecarStateView {
                statuses: seq![],
                unreachable: Map::empty(),
                heartbeat_period: self.config.heartbeat_period as nat,
                unreachable_thresh: self.config.unreachable_thresh as nat,
                majority: majority_of(spec_size_of(spec_size)),
            }),
    {
        SidecarState::new(self.config.heartbeat_period, spec_size, self.config.unreachable_thresh)
    }

    /// What the operator does about its CRD before it starts, in order.
    ///
    /// `crds` is what the cluster lists, `crd_name` the name of the operator's CRD and
    /// `embedded` the version of it that the operator holds.
    pub fn prepare_crd(&self, crds: &Vec<CrdEntry>, crd_name: &str, embedded: &str) -> (result:
        Result<Vec<CrdStep>, CrdError>)
        ensures
            view_steps(result) == crd_steps_of(
                embedded@,
                versions_of(crds.deep_view(), crd_name@),
                self.config.create_crd,
            ),
    {
        let mut steps: Vec<CrdStep> = Vec::new();
        match find_crd(crds, crd_name) {
            None => {
                steps.push(CrdStep::Create);
            },
            Some(versions) => {
                let ghost all = versions.deep_view();
                if !is_valid_version(embedded) {
                    return Err(CrdError::InvalidVersion(String::from_str(embedded)));
                }
                if let Some(i) = first_invalid(versions) {
                    proof {
                        let k = choose|k: int| is_first_invalid(all, k);
                        assert(is_first_invalid(all, i as int));
                        assert(k == i);
                        assert(all[k] == versions[i as int]@);
                    }
                    return Err(CrdError::InvalidVersion(versions[i].clone()));
                }
                if is_above_all(versions, embedded) {
                    steps.push(CrdStep::MergePatch);
                } else if let Some(i) = first_above(versions, embedded) {
                    if self.config.create_crd {
                        steps.push(CrdStep::MergePatch);
                    } else {
                        proof {
                            let k = choose|k: int| is_first_above(all, embedded@, k);
                            assert(is_first_above(all, embedded@, i as int));
                            assert(k == i);
                            assert(all[k] == versions[i as int]@);
                        }
                        return Err(
                            CrdError::CrdIncompatible {
                                embedded: String::from_str(embedded),
                                present: versions[i].clone(),
                            },
                        );
                    }
                }
            },
        }
        let ghost write = steps@;
        steps.push(CrdStep::AwaitEstablished(CRD_ESTABLISH_TIMEOUT));
        assert(steps@ =~= write + seq![CrdStep::AwaitEstablished(CRD_ESTABLISH_TIMEOUT)]);
        Ok(steps)
    }
}

/// Without the CRD in the cluster the operator creates it and waits for it.
pub proof fn lemma_absent_crd_is_created(embedded: Seq<char>, create_crd: bool)
    ensures
        crd_steps_of(embedded, None, create_crd) == Ok::<_, CrdErrorView>(
            seq![CrdStep::Create, CrdStep::AwaitEstablished(CRD_ESTABLISH_TIMEOUT)],
        ),
{
    assert(seq![CrdStep::Create] + seq![CrdStep::AwaitEstablished(CRD_ESTABLISH_TIMEOUT)] =~= seq![
        CrdStep::Create,
        CrdStep::AwaitEstablished(CRD_ESTABLISH_TIMEOUT),
    ]);
}

/// An operator whose version is higher than every version of the cluster patches the
/// CRD and waits for it, whether or not `create_crd` is set.
pub proof fn lemma_newer_operator_patches(
    embedded: Seq<char>,
    versions: Seq<Seq<char>>,
    create_crd: bool,
)
    requires
        is_version(embedded),
        all_valid(versions),
        above_all(versions, embedded),
    ensures
        crd_steps_of(embedded, Some(versions), create_crd) == Ok::<_, CrdErrorView>(
            seq![CrdStep::MergePatch, CrdStep::AwaitEstablished(CRD_ESTABLISH_TIMEOUT)],
        ),
{
    assert(seq![CrdStep::MergePatch] + seq![CrdStep::AwaitEstablished(CRD_ESTABLISH_TIMEOUT)]
        =~= seq![CrdStep::MergePatch, CrdStep::AwaitEstablished(CRD_ESTABLISH_TIMEOUT)]);
}

/// Where the cluster holds a higher version and `create_crd` is not set, the operator
/// cannot start: the error names the operator's version and a version of the cluster
/// that is higher, the first such one.
pub proof fn lemma_older_operator_fails(embedded: Seq<char>, versions: Seq<Seq<char>>)
    requires
        is_version(embedded),
        all_valid(versions),
        some_above(versions, embedded),
    ensures
        crd_steps_of(embedded, Some(versions), false) matches Err(
            CrdErrorView::CrdIncompatible { embedded: named, present },
        ) && named == embedded && versions.contains(present) && version_number(present)
            > version_number(embedded),
{
    lemma_first_above_exists(versions, embedded, versions.len() as int);
    let i = choose|i: int| is_first_above(versions, embedded, i);
    assert(is_first_above(versions, embedded, i));
    assert(versions.contains(versions[i]));
    let k = choose|k: int|
        0 <= k < versions.len() && version_number(#[trigger] versions[k]) > version_number(
            embedded,
        );
    assert(!above_all(versions, embedded)) by {
        assert(version_number(versions[k]) > version_number(embedded));
    }
}

/// Where the cluster holds a higher version and `create_crd` is set, the operator
/// patches the CRD all the same, and waits for it.
pub proof fn lemma_forced_operator_patches(embedded: Seq<char>, versions: Seq<Seq<char>>)
    requires
        is_version(embedded),
        all_valid(versions),
        some_above(versions, embedded),
    ensures
        crd_steps_of(embedded, Some(versions), true) == Ok::<_, CrdErrorView>(
            seq![CrdStep::MergePatch, CrdStep::AwaitEstablished(CRD_ESTABLISH_TIMEOUT)],
        ),
{
    assert(seq![CrdStep::MergePatch] + seq![CrdStep::AwaitEstablished(CRD_ESTABLISH_TIMEOUT)]
        =~= seq![CrdStep::MergePatch, CrdStep::AwaitEstablished(CRD_ESTABLISH_TIMEOUT)]);
}

/// Where the cluster holds the operator's version and none that is higher, the
/// operator writes nothing, whether or not `create_crd` is set.
pub proof fn lemma_same_version_writes_nothing(
    embedded: Seq<char>,
    versions: Seq<Seq<char>>,
    create_crd: bool,
)
    requires
        is_version(embedded),
        all_valid(versions),
        !some_above(versions, embedded),
        exists|i: int|
            0 <= i < versions.len() && version_number(#[trigger] versions[i]) == version_number(
                embedded,
            ),
    ensures
        crd_steps_of(embedded, Some(versions), create_crd) == Ok::<_, CrdErrorView>(
            seq![CrdStep::AwaitEstablished(CRD_ESTABLISH_TIMEOUT)],
        ),
{
    let i = choose|i: int|
        0 <= i < versions.len() && version_number(#[trigger] versions[i]) == version_number(
            embedded,
        );
    assert(!above_all(versions, embedded)) by {
        assert(version_number(versions[i]) == version_number(embedded));
    }
    assert(Seq::<CrdStep>::empty() + seq![CrdStep::AwaitEstablished(CRD_ESTABLISH_TIMEOUT)]
        =~= seq![CrdStep::AwaitEstablished(CRD_ESTABLISH_TIMEOUT)]);
}

proof fn lemma_first_above_exists(versions: Seq<Seq<char>>, embedded: Seq<char>, n: int)
    requires
        0 <= n <= versions.len(),
        exists|i: int|
            0 <= i < n && version_number(#[trigger] versions[i]) > version_number(embedded),
    ensures
        exists|i: int| is_first_above(versions, embedded, i),
    decreases n,
{
    let last = n - 1;
    if exists|i: int|
        0 <= i < last && version_number(#[trigger] versions[i]) > version_number(embedded) {
        lemma_first_above_exists(versions, embedded, last);
    } else {
        assert(version_number(versions[last]) > version_number(embedded));
        assert(is_first_above(versions, embedded, last));
    }
}

} // verus!
