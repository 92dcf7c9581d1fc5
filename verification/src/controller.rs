//! The cluster controller: from an observed cluster to the objects that realise it.
//!
//! Everything here is a function of the observed cluster alone. The caller applies
//! the objects that [`ClusterController::reconcile_once`] returns, in their order.

use crate::consts::{DEFAULT_BACKUP_DIR, DEFAULT_DATA_DIR, SIDECAR_BACKUP_ROUTE};
use crate::objects::{
    BackupSpecView, Cluster, ClusterSpec, ClusterSpecView, ClusterView, Container, ContainerPortView, ContainerView, CronJob, CronJobView, IntOrString, IntOrStringView, Label, LabelView, ObjectMeta, ObjectMetaView, OwnerReference, OwnerReferenceView, PersistentVolumeClaim, PersistentVolumeClaimView, Service, ServicePort, ServicePortView, ServiceView, StatefulSet, StatefulSetView, StorageSpec, StorageSpecView, VolumeMount, VolumeMountView,
};
use crate::text::{i32_text, int_text, starts_with};
use vstd::pervasive::unreached;
use vstd::prelude::*;
use vstd::string::*;

verus! {

/// Why a cluster cannot be reconciled.
#[derive(Debug, PartialEq, Eq)]
pub enum Error {
    /// The cluster lacks the field with this path.
    MissingObject(&'static str),
    /// A volume mount of the user lies under this path, which the operator keeps to itself.
    CannotMount(&'static str),
}

/// The model of [`Error`].
pub enum ErrorView {
    MissingObject(Seq<char>),
    CannotMount(Seq<char>),
}

impl DeepView for Error {
    type V = ErrorView;

    open spec fn deep_view(&self) -> ErrorView {
        match self {
            Error::MissingObject(path) => ErrorView::MissingObject(path@),
            Error::CannotMount(path) => ErrorView::CannotMount(path@),
        }
    }
}

impl Error {
    /// The error in words.
    pub fn message(&self) -> (message: String)
        ensures
            message@ == match self {
                Error::MissingObject(path) => "Missing object key "@ + path@ + " in cluster"@,
                Error::CannotMount(path) => "The path "@ + path@
                    + " is internally used in the xline operator and cannot be mounted."@,
            },
    {
        match self {
            Error::MissingObject(path) => {
                let mut message: String = String::from_str("Missing object key ");
                message.append(path);
                message.append(" in cluster");
                message
            },
            Error::CannotMount(path) => {
                let mut message: String = String::from_str("The path ");
                message.append(path);
                message.append(" is internally used in the xline operator and cannot be mounted.");
                message
            },
        }
    }
}

/// The model of a result whose two sides both have one.
pub open spec fn view_result<T: DeepView, E: DeepView>(r: Result<T, E>) -> Result<T::V, E::V> {
    match r {
        Ok(t) => Ok(t.deep_view()),
        Err(e) => Err(e.deep_view()),
    }
}

/// An object that the operator owns under a cluster.
#[derive(Debug, PartialEq, Eq)]
pub enum Child {
    Service(Service),
    StatefulSet(StatefulSet),
    CronJob(CronJob),
}

/// The model of [`Child`].
pub enum ChildView {
    Service(ServiceView),
    StatefulSet(StatefulSetView),
    CronJob(CronJobView),
}

impl DeepView for Child {
    type V = ChildView;

    open spec fn deep_view(&self) -> ChildView {
        match self {
            Child::Service(s) => ChildView::Service(s.deep_view()),
            Child::StatefulSet(s) => ChildView::StatefulSet(s.deep_view()),
            Child::CronJob(c) => ChildView::CronJob(c.deep_view()),
        }
    }
}

/// The labels that every owned object of the cluster `name` carries, and by which its
/// pods are selected.
pub open spec fn app_labels(name: Seq<char>) -> Seq<LabelView> {
    seq![LabelView { key: "app"@, value: name }]
}

/// The reference by which an owned object points at its cluster: the cluster is its
/// controller and cannot be deleted before the object is gone.
pub open spec fn owner_ref_of(cluster: ClusterView) -> OwnerReferenceView
    recommends
        cluster.metadata.name is Some,
        cluster.metadata.uid is Some,
{
    OwnerReferenceView {
        api_version: cluster.api_version,
        kind: cluster.kind,
        name: cluster.metadata.name->0,
        uid: cluster.metadata.uid->0,
        controller: Some(true),
        block_owner_deletion: Some(true),
    }
}

/// The metadata that all owned objects share.
pub open spec fn metadata_of(
    namespace: Seq<char>,
    name: Seq<char>,
    owner_ref: OwnerReferenceView,
) -> ObjectMetaView {
    ObjectMetaView {
        name: Some(name),
        namespace: Some(namespace),
        uid: None,
        labels: Some(app_labels(name)),
        owner_references: Some(seq![owner_ref]),
    }
}

/// Namespace and name of the cluster, in this order.
pub open spec fn id_of(cluster: ClusterView) -> Result<(Seq<char>, Seq<char>), ErrorView> {
    if cluster.metadata.namespace is None {
        Err(ErrorView::MissingObject(".metadata.namespace"@))
    } else if cluster.metadata.name is None {
        Err(ErrorView::MissingObject(".metadata.name"@))
    } else {
        Ok((cluster.metadata.namespace->0, cluster.metadata.name->0))
    }
}

/// The service port that exposes a container port: its name and number.
pub open spec fn service_port_of(port: ContainerPortView) -> ServicePortView {
    ServicePortView { name: port.name, port: port.container_port }
}

/// The ports of the service, one for each port of the container.
pub open spec fn service_ports_of(spec: ClusterSpecView) -> Result<Seq<ServicePortView>, ErrorView> {
    match spec.container.ports {
        Some(ports) if ports.len() > 0 => Ok(ports.map_values(|p: ContainerPortView| service_port_of(p))),
        _ => Err(ErrorView::MissingObject(".spec.container.ports"@)),
    }
}

/// The claim of the backup, where the backup goes to a persistent volume.
pub open spec fn backup_claim_of(spec: ClusterSpecView) -> Seq<PersistentVolumeClaimView> {
    match spec.backup {
        Some(BackupSpecView { storage: StorageSpecView::Pvc { pvc }, .. }) => seq![pvc],
        _ => seq![],
    }
}

/// The claim of the data directory, where there is one.
pub open spec fn data_claim_of(spec: ClusterSpecView) -> Seq<PersistentVolumeClaimView> {
    match spec.data {
        Some(pvc) => seq![pvc],
        None => seq![],
    }
}

/// The claims of the user, in the order given.
pub open spec fn user_claims_of(spec: ClusterSpecView) -> Seq<PersistentVolumeClaimView> {
    match spec.pvcs {
        Some(pvcs) => pvcs,
        None => seq![],
    }
}

/// The volume claim templates: the backup's claim, the data claim, then the user's.
pub open spec fn claims_of(spec: ClusterSpecView) -> Seq<PersistentVolumeClaimView> {
    backup_claim_of(spec) + data_claim_of(spec) + user_claims_of(spec)
}

/// A mount of the volume `name` at `path`, with nothing else set.
pub open spec fn plain_mount(path: Seq<char>, name: Seq<char>) -> VolumeMountView {
    VolumeMountView {
        mount_path: path,
        mount_propagation: None,
        name: name,
        read_only: None,
        sub_path: None,
        sub_path_expr: None,
    }
}

/// The mount of the backup volume, where the backup goes to a persistent volume.
pub open spec fn backup_mount_of(spec: ClusterSpecView) -> Result<Seq<VolumeMountView>, ErrorView> {
    match spec.backup {
        Some(BackupSpecView { storage: StorageSpecView::Pvc { pvc }, .. }) => match pvc.name {
            Some(name) => Ok(seq![plain_mount(DEFAULT_BACKUP_DIR@, name)]),
            None => Err(ErrorView::MissingObject(".spec.backup.pvc.metadata.name"@)),
        },
        _ => Ok(seq![]),
    }
}

/// The mount of the data volume, where a data claim is declared.
pub open spec fn data_mount_of(spec: ClusterSpecView) -> Result<Seq<VolumeMountView>, ErrorView> {
    match spec.data {
        Some(pvc) => match pvc.name {
            Some(name) => Ok(seq![plain_mount(DEFAULT_DATA_DIR@, name)]),
            None => Err(ErrorView::MissingObject(".spec.data.metadata.name"@)),
        },
        None => Ok(seq![]),
    }
}

/// Some mount of `mounts` has a path that begins with `dir`.
pub open spec fn mounts_under(mounts: Seq<VolumeMountView>, dir: Seq<char>) -> bool {
    exists|i: int| 0 <= i < mounts.len() && dir.is_prefix_of(#[trigger] mounts[i].mount_path)
}

/// The mounts that the user gave the container.
pub open spec fn user_mounts_of(spec: ClusterSpecView) -> Seq<VolumeMountView> {
    match spec.container.volume_mounts {
        Some(mounts) => mounts,
        None => seq![],
    }
}

/// The mounts of the Xline container: the user's, then the backup's, then the data's.
///
/// A claim without a name is refused first, the backup's before the data's; then a
/// user mount under the backup directory, then one under the data directory.
pub open spec fn mounts_of(spec: ClusterSpecView) -> Result<Seq<VolumeMountView>, ErrorView> {
    match backup_mount_of(spec) {
        Err(e) => Err(e),
        Ok(backup_mount) => match data_mount_of(spec) {
            Err(e) => Err(e),
            Ok(data_mount) => if mounts_under(user_mounts_of(spec), DEFAULT_BACKUP_DIR@) {
                Err(ErrorView::CannotMount(DEFAULT_BACKUP_DIR@))
            } else if mounts_under(user_mounts_of(spec), DEFAULT_DATA_DIR@) {
                Err(ErrorView::CannotMount(DEFAULT_DATA_DIR@))
            } else {
                Ok(user_mounts_of(spec) + backup_mount + data_mount)
            },
        },
    }
}

/// The headless service of the cluster.
pub open spec fn headless_service_of(
    metadata: ObjectMetaView,
    service_ports: Seq<ServicePortView>,
) -> ServiceView {
    ServiceView {
        metadata: metadata,
        cluster_ip: None,
        ports: Some(service_ports),
        selector: metadata.labels,
    }
}

/// The stateful set of the cluster `name`.
pub open spec fn stateful_set_of(
    name: Seq<char>,
    spec: ClusterSpecView,
    pvcs: Seq<PersistentVolumeClaimView>,
    metadata: ObjectMetaView,
) -> Result<StatefulSetView, ErrorView> {
    match mounts_of(spec) {
        Err(e) => Err(e),
        Ok(mounts) => Ok(
            StatefulSetView {
                metadata: metadata,
                replicas: Some(spec.size),
                selector: metadata.labels,
                service_name: name,
                volume_claim_templates: Some(pvcs),
                max_unavailable: Some(IntOrStringView::String("50%"@)),
                pod_labels: metadata.labels,
                init_containers: Some(seq![]),
                containers: seq![ContainerView { volume_mounts: Some(mounts), ..spec.container }],
            },
        ),
    }
}

/// The shell command that asks one pod of the cluster, chosen at random by the shell,
/// to start a backup.
pub open spec fn trigger_command_of(
    namespace: Seq<char>,
    name: Seq<char>,
    size: int,
    cluster_suffix: Seq<char>,
) -> Seq<char> {
    "curl "@ + name + "-$((RANDOM % "@ + int_text(size) + "))."@ + name + "."@ + namespace
        + ".svc."@ + cluster_suffix + SIDECAR_BACKUP_ROUTE@
}

/// The container of the backup job.
pub open spec fn trigger_container_of(
    namespace: Seq<char>,
    name: Seq<char>,
    size: int,
    cluster_suffix: Seq<char>,
) -> ContainerView {
    ContainerView {
        name: name + "-backup-cronjob"@,
        image: Some("curlimages/curl"@),
        image_pull_policy: Some("IfNotPresent"@),
        command: Some(
            seq!["/bin/sh"@, "-ecx"@, trigger_command_of(namespace, name, size, cluster_suffix)],
        ),
        ports: None,
        volume_mounts: None,
        base: None,
    }
}

/// The cron job that triggers the backup of the cluster.
pub open spec fn backup_cron_job_of(
    namespace: Seq<char>,
    name: Seq<char>,
    size: int,
    cron: Seq<char>,
    metadata: ObjectMetaView,
    cluster_suffix: Seq<char>,
) -> CronJobView {
    CronJobView {
        metadata: metadata,
        concurrency_policy: Some("Forbid"@),
        schedule: cron,
        containers: seq![trigger_container_of(namespace, name, size, cluster_suffix)],
        restart_policy: Some("OnFailure"@),
    }
}

/// The cron job of the cluster, where a backup is declared.
pub open spec fn cron_jobs_of(
    namespace: Seq<char>,
    name: Seq<char>,
    spec: ClusterSpecView,
    metadata: ObjectMetaView,
    cluster_suffix: Seq<char>,
) -> Seq<ChildView> {
    match spec.backup {
        Some(backup) => seq![
            ChildView::CronJob(
                backup_cron_job_of(namespace, name, spec.size as int, backup.cron, metadata, cluster_suffix),
            ),
        ],
        None => seq![],
    }
}

/// The objects that realise `cluster`, in the order in which they are applied: the
/// headless service, the stateful set, and the backup cron job where a backup is
/// declared.
///
/// The cluster is refused, and nothing is to be applied, where it lacks its namespace,
/// its name or its ports, or where its stateful set cannot be built; the first of these
/// that holds gives the error.
pub open spec fn children_of(cluster: ClusterView, cluster_suffix: Seq<char>) -> Result<
    Seq<ChildView>,
    ErrorView,
> {
    match id_of(cluster) {
        Err(e) => Err(e),
        Ok((namespace, name)) => match service_ports_of(cluster.spec) {
            Err(e) => Err(e),
            Ok(service_ports) => {
                let metadata = metadata_of(namespace, name, owner_ref_of(cluster));
                match stateful_set_of(name, cluster.spec, claims_of(cluster.spec), metadata) {
                    Err(e) => Err(e),
                    Ok(set) => Ok(
                        seq![
                            ChildView::Service(headless_service_of(metadata, service_ports)),
                            ChildView::StatefulSet(set),
                        ] + cron_jobs_of(namespace, name, cluster.spec, metadata, cluster_suffix),
                    ),
                }
            },
        },
    }
}

/// The controller of the custom resource `XlineCluster`.
#[derive(Debug)]
pub struct ClusterController {
    /// The DNS suffix of the Kubernetes cluster.
    pub cluster_suffix: String,
}

fn any_mount_under(mounts: &Vec<VolumeMount>, dir: &str) -> (found: bool)
    ensures
        found == mounts_under(mounts.deep_view(), dir@),
{
    let mut i: usize = 0;
    while i < mounts.len()
        invariant
            i <= mounts.len(),
            forall|j: int| 0 <= j < i ==> !dir@.is_prefix_of(#[trigger] mounts.deep_view()[j].mount_path),
        decreases mounts.len() - i,
    {
        if starts_with(mounts[i].mount_path.as_str(), dir) {
            assert(dir@.is_prefix_of(mounts.deep_view()[i as int].mount_path));
            return true;
        }
        i += 1;
    }
    false
}

fn plain_volume_mount(path: &str, name: String) -> (mount: VolumeMount)
    ensures
        mount.deep_view() == plain_mount(path@, name@),
{
    VolumeMount {
        mount_path: String::from_str(path),
        mount_propagation: None,
        name,
        read_only: None,
        sub_path: None,
        sub_path_expr: None,
    }
}

impl ClusterController {
    /// The ports of the headless service: one for each port of the container, with its
    /// name and number.
    ///
    /// A cluster without container ports is refused.
    pub fn extract_service_ports(cluster: &Cluster) -> (result: Result<Vec<ServicePort>, Error>)
        ensures
            view_result(result) == service_ports_of(cluster.spec.deep_view()),
    {
        match &cluster.spec.container.ports {
            Some(ports) => {
                if ports.len() == 0 {
                    return Err(Error::MissingObject(".spec.container.ports"));
                }
                let mut service_ports: Vec<ServicePort> = Vec::new();
                let mut i: usize = 0;
                while i < ports.len()
                    invariant
                        i <= ports.len(),
                        service_ports.len() == i,
                        forall|j: int|
                            0 <= j < i ==> #[trigger] service_ports[j].deep_view() == service_port_of(
                                ports[j].deep_view(),
                            ),
                    decreases ports.len() - i,
                {
                    service_ports.push(
                        ServicePort { name: ports[i].name.clone(), port: ports[i].container_port },
                    );
                    i += 1;
                }
                assert(service_ports.deep_view() =~= ports.deep_view().map_values(
                    |p: ContainerPortView| service_port_of(p),
                ));
                Ok(service_ports)
            },
            None => Err(Error::MissingObject(".spec.container.ports")),
        }
    }

    /// The volume claim templates of the stateful set: the backup's claim where the
    /// backup goes to a persistent volume, the data claim where there is one, then the
    /// user's claims in their order.
    pub fn extract_pvcs(cluster: &Cluster) -> (pvcs: Vec<PersistentVolumeClaim>)
        ensures
            pvcs.deep_view() == claims_of(cluster.spec.deep_view()),
    {
        let mut pvcs: Vec<PersistentVolumeClaim> = Vec::new();
        if let Some(spec) = &cluster.spec.backup {
            if let StorageSpec::Pvc { pvc } = &spec.storage {
                pvcs.push(pvc.clone());
            }
        }
        assert(pvcs.deep_view() =~= backup_claim_of(cluster.spec.deep_view()));
        if let Some(pvc) = &cluster.spec.data {
            pvcs.push(pvc.clone());
        }
        assert(pvcs.deep_view() =~= backup_claim_of(cluster.spec.deep_view()) + data_claim_of(
            cluster.spec.deep_view(),
        ));
        if let Some(spec_pvcs) = &cluster.spec.pvcs {
            let ghost before = pvcs.deep_view();
            let mut i: usize = 0;
            while i < spec_pvcs.len()
                invariant
                    i <= spec_pvcs.len(),
                    pvcs.deep_view() == before + spec_pvcs.deep_view().take(i as int),
                decreases spec_pvcs.len() - i,
            {
                let ghost so_far = pvcs.deep_view();
                pvcs.push(spec_pvcs[i].clone());
                assert(pvcs.deep_view() =~= so_far.push(spec_pvcs[i as int].deep_view()));
                assert(spec_pvcs.deep_view().take(i + 1) =~= spec_pvcs.deep_view().take(i as int).push(
                    spec_pvcs[i as int].deep_view(),
                ));
                i += 1;
            }
            assert(spec_pvcs.deep_view().take(i as int) =~= spec_pvcs.deep_view());
        }
        assert(pvcs.deep_view() =~= claims_of(cluster.spec.deep_view()));
        pvcs
    }

    /// The owner reference that points at the cluster.
    pub fn extract_owner_ref(cluster: &Cluster) -> (owner_ref: OwnerReference)
        requires
            cluster.metadata.name is Some,
            cluster.metadata.uid is Some,
        ensures
            owner_ref.deep_view() == owner_ref_of(cluster.deep_view()),
    {
        let name: String = match &cluster.metadata.name {
            Some(name) => name.clone(),
            None => unreached(),
        };
        let uid: String = match &cluster.metadata.uid {
            Some(uid) => uid.clone(),
            None => unreached(),
        };
        OwnerReference {
            api_version: cluster.api_version.clone(),
            kind: cluster.kind.clone(),
            name,
            uid,
            controller: Some(true),
            block_owner_deletion: Some(true),
        }
    }

    /// Namespace and name of the cluster. The namespace is looked for first.
    pub fn extract_id(cluster: &Cluster) -> (result: Result<(&str, &str), Error>)
        ensures
            match result {
                Ok((namespace, name)) => id_of(cluster.deep_view()) == Ok::<_, ErrorView>(
                    (namespace@, name@),
                ),
                Err(e) => id_of(cluster.deep_view()) == Err::<(Seq<char>, Seq<char>), _>(
                    e.deep_view(),
                ),
            },
    {
        let namespace: &str = match &cluster.metadata.namespace {
            Some(namespace) => namespace.as_str(),
            None => { return Err(Error::MissingObject(".metadata.namespace")); },
        };
        let name: &str = match &cluster.metadata.name {
            Some(name) => name.as_str(),
            None => { return Err(Error::MissingObject(".metadata.name")); },
        };
        Ok((namespace, name))
    }

    /// The metadata that all owned objects share: the cluster's name and namespace, the
    /// label `app` with the cluster's name, and the one owner reference.
    pub fn build_metadata(namespace: &str, name: &str, owner_ref: OwnerReference) -> (metadata:
        ObjectMeta)
        ensures
            metadata.deep_view() == metadata_of(namespace@, name@, owner_ref.deep_view()),
    {
        let mut labels: Vec<Label> = Vec::new();
        labels.push(Label { key: String::from_str("app"), value: String::from_str(name) });
        let mut owner_references: Vec<OwnerReference> = Vec::new();
        let ghost owner = owner_ref.deep_view();
        owner_references.push(owner_ref);
        assert(labels.deep_view() =~= app_labels(name@));
        assert(owner_references.deep_view() =~= seq![owner]);
        ObjectMeta {
            name: Some(String::from_str(name)),
            namespace: Some(String::from_str(namespace)),
            uid: None,
            labels: Some(labels),
            owner_references: Some(owner_references),
        }
    }

    /// The headless service: no cluster IP, the given ports, and the metadata's labels
    /// as selector.
    pub fn headless_service(metadata: &ObjectMeta, service_ports: Vec<ServicePort>) -> (service:
        Service)
        ensures
            service.deep_view() == headless_service_of(
                metadata.deep_view(),
                service_ports.deep_view(),
            ),
    {
        Service {
            metadata: metadata.clone(),
            cluster_ip: None,
            ports: Some(service_ports),
            selector: metadata.labels.clone(),
        }
    }

    /// The mounts of the Xline container: what the user mounted, then the backup volume
    /// at the backup directory, then the data volume at the data directory.
    ///
    /// No user mount may lie under either of the two directories.
    pub fn volume_mounts(spec: &ClusterSpec) -> (result: Result<Vec<VolumeMount>, Error>)
        ensures
            view_result(result) == mounts_of(spec.deep_view()),
    {
        let mut backup_mount: Option<VolumeMount> = None;
        if let Some(backup) = &spec.backup {
            if let StorageSpec::Pvc { pvc } = &backup.storage {
                match &pvc.name {
                    Some(name) => {
                        backup_mount = Some(plain_volume_mount(DEFAULT_BACKUP_DIR, name.clone()));
                    },
                    None => {
                        return Err(Error::MissingObject(".spec.backup.pvc.metadata.name"));
                    },
                }
            }
        }
        let mut data_mount: Option<VolumeMount> = None;
        if let Some(pvc) = &spec.data {
            match &pvc.name {
                Some(name) => {
                    data_mount = Some(plain_volume_mount(DEFAULT_DATA_DIR, name.clone()));
                },
                None => {
                    return Err(Error::MissingObject(".spec.data.metadata.name"));
                },
            }
        }
        let mut mounts: Vec<VolumeMount> = Vec::new();
        if let Some(spec_mounts) = &spec.container.volume_mounts {
            if any_mount_under(spec_mounts, DEFAULT_BACKUP_DIR) {
                return Err(Error::CannotMount(DEFAULT_BACKUP_DIR));
            }
            if any_mount_under(spec_mounts, DEFAULT_DATA_DIR) {
                return Err(Error::CannotMount(DEFAULT_DATA_DIR));
            }
            mounts = spec_mounts.clone();
        }
        assert(mounts.deep_view() =~= user_mounts_of(spec.deep_view()));
        let ghost user = mounts.deep_view();
        let ghost backup = backup_mount_of(spec.deep_view())->Ok_0;
        let ghost data = data_mount_of(spec.deep_view())->Ok_0;
        if let Some(mount) = backup_mount {
            mounts.push(mount);
        }
        assert(mounts.deep_view() =~= user + backup);
        if let Some(mount) = data_mount {
            mounts.push(mount);
        }
        assert(mounts.deep_view() =~= user + backup + data);
        Ok(mounts)
    }

    /// The stateful set of the cluster: as many replicas as the cluster's size, bound to
    /// the headless service of the same name, rolled out with at most half of the pods
    /// down, with the given claims as templates, and with the cluster's container and
    /// its mounts.
    pub fn stateful_set(
        name: &str,
        cluster: &Cluster,
        pvcs: Vec<PersistentVolumeClaim>,
        metadata: &ObjectMeta,
    ) -> (result: Result<StatefulSet, Error>)
        ensures
            view_result(result) == stateful_set_of(
                name@,
                cluster.spec.deep_view(),
                pvcs.deep_view(),
                metadata.deep_view(),
            ),
    {
        let mounts: Vec<VolumeMount> = match Self::volume_mounts(&cluster.spec) {
            Ok(mounts) => mounts,
            Err(e) => { return Err(e); },
        };
        let user: &Container = &cluster.spec.container;
        let container = Container {
            name: user.name.clone(),
            image: user.image.clone(),
            image_pull_policy: user.image_pull_policy.clone(),
            command: user.command.clone(),
            ports: user.ports.clone(),
            volume_mounts: Some(mounts),
            base: user.base,
        };
        let ghost container_view = container.deep_view();
        let mut containers: Vec<Container> = Vec::new();
        containers.push(container);
        assert(containers.deep_view() =~= seq![container_view]);
        let init_containers: Vec<Container> = Vec::new();
        assert(init_containers.deep_view() =~= Seq::<ContainerView>::empty());
        Ok(
            StatefulSet {
                metadata: metadata.clone(),
                replicas: Some(cluster.spec.size),
                selector: metadata.labels.clone(),
                service_name: String::from_str(name),
                volume_claim_templates: Some(pvcs),
                max_unavailable: Some(IntOrString::String(String::from_str("50%"))),
                pod_labels: metadata.labels.clone(),
                init_containers: Some(init_containers),
                containers,
            },
        )
    }

    /// The cron job that triggers the backup: on the schedule `cron`, never two runs at
    /// once, one container that calls the backup route of one pod, started again where
    /// it fails.
    pub fn backup_cron_job(
        &self,
        namespace: &str,
        name: &str,
        size: i32,
        cron: &str,
        metadata: &ObjectMeta,
    ) -> (job: CronJob)
        ensures
            job.deep_view() == backup_cron_job_of(
                namespace@,
                name@,
                size as int,
                cron@,
                metadata.deep_view(),
                self.cluster_suffix@,
            ),
    {
        let mut trigger: String = String::from_str("curl ");
        trigger.append(name);
        trigger.append("-$((RANDOM % ");
        trigger.append(i32_text(size).as_str());
        trigger.append(")).");
        trigger.append(name);
        trigger.append(".");
        trigger.append(namespace);
        trigger.append(".svc.");
        trigger.append(self.cluster_suffix.as_str());
        trigger.append(SIDECAR_BACKUP_ROUTE);
        let mut command: Vec<String> = Vec::new();
        command.push(String::from_str("/bin/sh"));
        command.push(String::from_str("-ecx"));
        command.push(trigger);
        assert(command.deep_view() =~= seq![
            "/bin/sh"@,
            "-ecx"@,
            trigger_command_of(namespace@, name@, size as int, self.cluster_suffix@),
        ]);
        let container = Container {
            name: String::from_str(name).concat("-backup-cronjob"),
            image: Some(String::from_str("curlimages/curl")),
            image_pull_policy: Some(String::from_str("IfNotPresent")),
            command: Some(command),
            ports: None,
            volume_mounts: None,
            base: None,
        };
        let ghost container_view = container.deep_view();
        let mut containers: Vec<Container> = Vec::new();
        containers.push(container);
        assert(containers.deep_view() =~= seq![container_view]);
        CronJob {
            metadata: metadata.clone(),
            concurrency_policy: Some(String::from_str("Forbid")),
            schedule: String::from_str(cron),
            containers,
            restart_policy: Some(String::from_str("OnFailure")),
        }
    }

    /// The objects to apply for `cluster`, in the order in which to apply them.
    ///
    /// The result depends on the cluster and on the DNS suffix alone. Where the cluster
    /// is refused there is nothing to apply. A cluster that has its namespace and its
    /// name must have its uid, as every cluster has that the API server handed out.
    pub fn reconcile_once(&self, cluster: &Cluster) -> (result: Result<Vec<Child>, Error>)
        requires
            cluster.metadata.namespace is Some && cluster.metadata.name is Some
                ==> cluster.metadata.uid is Some,
        ensures
            view_result(result) == children_of(cluster.deep_view(), self.cluster_suffix@),
    {
        let (namespace, name) = match Self::extract_id(cluster) {
            Ok(id) => id,
            Err(e) => { return Err(e); },
        };
        let owner_ref: OwnerReference = Self::extract_owner_ref(cluster);
        let pvcs: Vec<PersistentVolumeClaim> = Self::extract_pvcs(cluster);
        let service_ports: Vec<ServicePort> = match Self::extract_service_ports(cluster) {
            Ok(ports) => ports,
            Err(e) => { return Err(e); },
        };
        let metadata: ObjectMeta = Self::build_metadata(namespace, name, owner_ref);
        let service: Service = Self::headless_service(&metadata, service_ports);
        let set: StatefulSet = match Self::stateful_set(name, cluster, pvcs, &metadata) {
            Ok(set) => set,
            Err(e) => { return Err(e); },
        };
        let ghost service_view = service.deep_view();
        let ghost set_view = set.deep_view();
        let mut children: Vec<Child> = Vec::new();
        children.push(Child::Service(service));
        children.push(Child::StatefulSet(set));
        assert(children.deep_view() =~= seq![
            ChildView::Service(service_view),
            ChildView::StatefulSet(set_view),
        ]);
        if let Some(spec) = &cluster.spec.backup {
            let ghost before = children.deep_view();
            let job: CronJob = self.backup_cron_job(
                namespace,
                name,
                cluster.spec.size,
                spec.cron.as_str(),
                &metadata,
            );
            let ghost job_view = job.deep_view();
            children.push(Child::CronJob(job));
            assert(children.deep_view() =~= before + seq![ChildView::CronJob(job_view)]);
        } else {
            assert(children.deep_view() =~= children.deep_view() + Seq::<ChildView>::empty());
        }
        Ok(children)
    }
}

/// A cluster that declares no backup gets no cron job: its children are the headless
/// service and the stateful set, and nothing else.
pub proof fn lemma_no_backup_no_cron_job(cluster: ClusterView, cluster_suffix: Seq<char>)
    requires
        cluster.spec.backup is None,
    ensures
        children_of(cluster, cluster_suffix) matches Ok(children) ==> {
            &&& children.len() == 2
            &&& children[0] is Service
            &&& children[1] is StatefulSet
            &&& forall|i: int| 0 <= i < children.len() ==> !(#[trigger] children[i] is CronJob)
        },
{
}

/// A cluster that declares a backup gets its cron job, applied last, on the schedule
/// of the backup as it was written.
pub proof fn lemma_backup_has_cron_job(cluster: ClusterView, cluster_suffix: Seq<char>)
    requires
        cluster.spec.backup is Some,
    ensures
        children_of(cluster, cluster_suffix) matches Ok(children) ==> {
            &&& children.len() == 3
            &&& children[0] is Service
            &&& children[1] is StatefulSet
            &&& children[2] matches ChildView::CronJob(job)
            &&& job.schedule == cluster.spec.backup->0.cron
            &&& job.concurrency_policy == Some("Forbid"@)
        },
{
}

/// A cluster that is in order but for a user mount under the backup directory is
/// refused for that mount, and nothing is to be applied. So is one with a user mount
/// under the data directory and none under the backup directory.
///
/// A cluster is in order here if it has its namespace, its name and its ports, and
/// its backup claim and its data claim have their names.
pub proof fn lemma_reserved_mount_is_refused(cluster: ClusterView, cluster_suffix: Seq<char>)
    requires
        id_of(cluster) is Ok,
        service_ports_of(cluster.spec) is Ok,
        backup_mount_of(cluster.spec) is Ok,
        data_mount_of(cluster.spec) is Ok,
    ensures
        mounts_under(user_mounts_of(cluster.spec), DEFAULT_BACKUP_DIR@) ==> children_of(
            cluster,
            cluster_suffix,
        ) == Err::<Seq<ChildView>, _>(ErrorView::CannotMount(DEFAULT_BACKUP_DIR@)),
        !mounts_under(user_mounts_of(cluster.spec), DEFAULT_BACKUP_DIR@) && mounts_under(
            user_mounts_of(cluster.spec),
            DEFAULT_DATA_DIR@,
        ) ==> children_of(cluster, cluster_suffix) == Err::<Seq<ChildView>, _>(
            ErrorView::CannotMount(DEFAULT_DATA_DIR@),
        ),
{
}

/// A cluster with its namespace and its name, but without a container port, is
/// refused for its ports, and nothing is to be applied.
pub proof fn lemma_missing_ports_are_refused(cluster: ClusterView, cluster_suffix: Seq<char>)
    requires
        id_of(cluster) is Ok,
        cluster.spec.container.ports matches Some(ports) ==> ports.len() == 0,
    ensures
        children_of(cluster, cluster_suffix) == Err::<Seq<ChildView>, _>(
            ErrorView::MissingObject(".spec.container.ports"@),
        ),
{
}

/// A cluster is accepted exactly if it has its namespace, its name and at least one
/// port, its backup claim and its data claim have their names, and no user mount lies
/// under the backup directory or the data directory.
pub proof fn lemma_accepted_clusters(cluster: ClusterView, cluster_suffix: Seq<char>)
    ensures
        children_of(cluster, cluster_suffix) is Ok <==> {
            &&& cluster.metadata.namespace is Some
            &&& cluster.metadata.name is Some
            &&& cluster.spec.container.ports matches Some(ports) && ports.len() > 0
            &&& backup_mount_of(cluster.spec) is Ok
            &&& data_mount_of(cluster.spec) is Ok
            &&& !mounts_under(user_mounts_of(cluster.spec), DEFAULT_BACKUP_DIR@)
            &&& !mounts_under(user_mounts_of(cluster.spec), DEFAULT_DATA_DIR@)
        },
{
}

/// Two runs of the builder on the same cluster give the same objects: whatever two
/// results meet the contract of `reconcile_once` for one cluster and one suffix have
/// the same model.
pub proof fn lemma_builder_is_deterministic(
    first: Result<Vec<Child>, Error>,
    second: Result<Vec<Child>, Error>,
    cluster: ClusterView,
    cluster_suffix: Seq<char>,
)
    requires
        view_result(first) == children_of(cluster, cluster_suffix),
        view_result(second) == children_of(cluster, cluster_suffix),
    ensures
        view_result(first) == view_result(second),
{
}

/// The volume claim templates of the stateful set are the backup's claim where the
/// backup goes to a persistent volume, then the data claim where there is one, then
/// the user's claims in the order given.
pub proof fn lemma_claim_order(cluster: ClusterView, cluster_suffix: Seq<char>)
    ensures
        children_of(cluster, cluster_suffix) matches Ok(children) ==> {
            &&& children[1] matches ChildView::StatefulSet(set)
            &&& set.volume_claim_templates == Some(
                backup_claim_of(cluster.spec) + data_claim_of(cluster.spec) + user_claims_of(
                    cluster.spec,
                ),
            )
        },
        backup_claim_of(cluster.spec).len() <= 1,
        data_claim_of(cluster.spec).len() <= 1,
        forall|i: int|
            0 <= i < user_claims_of(cluster.spec).len() ==> #[trigger] claims_of(
                cluster.spec,
            )[backup_claim_of(cluster.spec).len() + data_claim_of(cluster.spec).len() + i]
                == user_claims_of(cluster.spec)[i],
{
}

/// The metadata of a child.
pub open spec fn child_metadata(child: ChildView) -> ObjectMetaView {
    match child {
        ChildView::Service(service) => service.metadata,
        ChildView::StatefulSet(set) => set.metadata,
        ChildView::CronJob(job) => job.metadata,
    }
}

/// Every child carries the same metadata: the name and the namespace of the cluster,
/// the label `app` with the cluster's name, and one owner reference, which points at
/// the cluster as its controller. The service and the stateful set select the pods by
/// that label, and the pods carry it.
pub proof fn lemma_children_share_metadata(cluster: ClusterView, cluster_suffix: Seq<char>)
    ensures
        children_of(cluster, cluster_suffix) matches Ok(children) ==> {
            let metadata = metadata_of(
                cluster.metadata.namespace->0,
                cluster.metadata.name->0,
                owner_ref_of(cluster),
            );
            &&& forall|i: int|
                0 <= i < children.len() ==> child_metadata(#[trigger] children[i]) == metadata
            &&& children[0] matches ChildView::Service(service)
            &&& service.selector == Some(app_labels(cluster.metadata.name->0))
            &&& service.cluster_ip is None
            &&& children[1] matches ChildView::StatefulSet(set)
            &&& set.selector == Some(app_labels(cluster.metadata.name->0))
            &&& set.pod_labels == Some(app_labels(cluster.metadata.name->0))
            &&& set.service_name == cluster.metadata.name->0
            &&& set.replicas == Some(cluster.spec.size)
        },
{
}

} // verus!
