//! The Kubernetes objects that the operator reads and writes, as plain data.
//!
//! Each type keeps the fields that the operator looks at or sets. Every type has a
//! mathematical model, its deep view, in which a string is a sequence of characters
//! and a vector a sequence.

use vstd::prelude::*;

verus! {

/// One label: a key and its value.
#[derive(Debug, PartialEq, Eq)]
pub struct Label {
    pub key: String,
    pub value: String,
}

/// The model of [`Label`].
pub struct LabelView {
    pub key: Seq<char>,
    pub value: Seq<char>,
}

impl DeepView for Label {
    type V = LabelView;

    open spec fn deep_view(&self) -> LabelView {
        LabelView {
            key: self.key@,
            value: self.value@,
        }
    }
}

impl Clone for Label {
    fn clone(&self) -> (res: Self)
        ensures
            res.deep_view() == self.deep_view(),
    {
        Label {
            key: self.key.clone(),
            value: self.value.clone(),
        }
    }
}

/// A reference from an owned object to its owner.
#[derive(Debug, PartialEq, Eq)]
pub struct OwnerReference {
    pub api_version: String,
    pub kind: String,
    pub name: String,
    pub uid: String,
    /// Whether the owner is the managing controller.
    pub controller: Option<bool>,
    /// Whether the owner cannot be deleted before this object is gone.
    pub block_owner_deletion: Option<bool>,
}

/// The model of [`OwnerReference`].
pub struct OwnerReferenceView {
    pub api_version: Seq<char>,
    pub kind: Seq<char>,
    pub name: Seq<char>,
    pub uid: Seq<char>,
    pub controller: Option<bool>,
    pub block_owner_deletion: Option<bool>,
}

impl DeepView for OwnerReference {
    type V = OwnerReferenceView;

    open spec fn deep_view(&self) -> OwnerReferenceView {
        OwnerReferenceView {
            api_version: self.api_version@,
            kind: self.kind@,
            name: self.name@,
            uid: self.uid@,
            controller: self.controller,
            block_owner_deletion: self.block_owner_deletion,
        }
    }
}

impl Clone for OwnerReference {
    fn clone(&self) -> (res: Self)
        ensures
            res.deep_view() == self.deep_view(),
    {
        OwnerReference {
            api_version: self.api_version.clone(),
            kind: self.kind.clone(),
            name: self.name.clone(),
            uid: self.uid.clone(),
            controller: self.controller,
            block_owner_deletion: self.block_owner_deletion,
        }
    }
}

/// The metadata of an object, as far as the operator reads or sets it.
#[derive(Debug, PartialEq, Eq)]
pub struct ObjectMeta {
    pub name: Option<String>,
    pub namespace: Option<String>,
    pub uid: Option<String>,
    pub labels: Option<Vec<Label>>,
    pub owner_references: Option<Vec<OwnerReference>>,
}

/// The model of [`ObjectMeta`].
pub struct ObjectMetaView {
    pub name: Option<Seq<char>>,
    pub namespace: Option<Seq<char>>,
    pub uid: Option<Seq<char>>,
    pub labels: Option<Seq<LabelView>>,
    pub owner_references: Option<Seq<OwnerReferenceView>>,
}

impl DeepView for ObjectMeta {
    type V = ObjectMetaView;

    open spec fn deep_view(&self) -> ObjectMetaView {
        ObjectMetaView {
            name: self.name.deep_view(),
            namespace: self.namespace.deep_view(),
            uid: self.uid.deep_view(),
            labels: self.labels.deep_view(),
            owner_references: self.owner_references.deep_view(),
        }
    }
}

impl Clone for ObjectMeta {
    fn clone(&self) -> (res: Self)
        ensures
            res.deep_view() == self.deep_view(),
    {
        ObjectMeta {
            name: self.name.clone(),
            namespace: self.namespace.clone(),
            uid: self.uid.clone(),
            labels: self.labels.clone(),
            owner_references: self.owner_references.clone(),
        }
    }
}

/// A port that a container exposes.
#[derive(Debug, PartialEq, Eq)]
pub struct ContainerPort {
    pub container_port: i32,
    pub host_ip: Option<String>,
    pub host_port: Option<i32>,
    pub name: Option<String>,
    pub protocol: Option<String>,
}

/// The model of [`ContainerPort`].
pub struct ContainerPortView {
    pub container_port: i32,
    pub host_ip: Option<Seq<char>>,
    pub host_port: Option<i32>,
    pub name: Option<Seq<char>>,
    pub protocol: Option<Seq<char>>,
}

impl DeepView for ContainerPort {
    type V = ContainerPortView;

    open spec fn deep_view(&self) -> ContainerPortView {
        ContainerPortView {
            container_port: self.container_port,
            host_ip: self.host_ip.deep_view(),
            host_port: self.host_port,
            name: self.name.deep_view(),
            protocol: self.protocol.deep_view(),
        }
    }
}

impl Clone for ContainerPort {
    fn clone(&self) -> (res: Self)
        ensures
            res.deep_view() == self.deep_view(),
    {
        ContainerPort {
            container_port: self.container_port,
            host_ip: self.host_ip.clone(),
            host_port: self.host_port,
            name: self.name.clone(),
            protocol: self.protocol.clone(),
        }
    }
}

/// A volume mounted into a container.
#[derive(Debug, PartialEq, Eq)]
pub struct VolumeMount {
    pub mount_path: String,
    pub mount_propagation: Option<String>,
    pub name: String,
    pub read_only: Option<bool>,
    pub sub_path: Option<String>,
    pub sub_path_expr: Option<String>,
}

/// The model of [`VolumeMount`].
pub struct VolumeMountView {
    pub mount_path: Seq<char>,
    pub mount_propagation: Option<Seq<char>>,
    pub name: Seq<char>,
    pub read_only: Option<bool>,
    pub sub_path: Option<Seq<char>>,
    pub sub_path_expr: Option<Seq<char>>,
}

impl DeepView for VolumeMount {
    type V = VolumeMountView;

    open spec fn deep_view(&self) -> VolumeMountView {
        VolumeMountView {
            mount_path: self.mount_path@,
            mount_propagation: self.mount_propagation.deep_view(),
            name: self.name@,
            read_only: self.read_only,
            sub_path: self.sub_path.deep_view(),
            sub_path_expr: self.sub_path_expr.deep_view(),
        }
    }
}

impl Clone for VolumeMount {
    fn clone(&self) -> (res: Self)
        ensures
            res.deep_view() == self.deep_view(),
    {
        VolumeMount {
            mount_path: self.mount_path.clone(),
            mount_propagation: self.mount_propagation.clone(),
            name: self.name.clone(),
            read_only: self.read_only,
            sub_path: self.sub_path.clone(),
            sub_path_expr: self.sub_path_expr.clone(),
        }
    }
}

/// A container, as far as the operator reads or sets it.
///
/// The fields that the operator never touches stay with the caller, who finds them
/// again under the key `base`; a container that the operator makes itself has none.
#[derive(Debug, PartialEq, Eq)]
pub struct Container {
    pub name: String,
    pub image: Option<String>,
    pub image_pull_policy: Option<String>,
    pub command: Option<Vec<String>>,
    pub ports: Option<Vec<ContainerPort>>,
    pub volume_mounts: Option<Vec<VolumeMount>>,
    /// Key of the caller's full container, if there is one.
    pub base: Option<u64>,
}

/// The model of [`Container`].
pub struct ContainerView {
    pub name: Seq<char>,
    pub image: Option<Seq<char>>,
    pub image_pull_policy: Option<Seq<char>>,
    pub command: Option<Seq<Seq<char>>>,
    pub ports: Option<Seq<ContainerPortView>>,
    pub volume_mounts: Option<Seq<VolumeMountView>>,
    pub base: Option<u64>,
}

impl DeepView for Container {
    type V = ContainerView;

    open spec fn deep_view(&self) -> ContainerView {
        ContainerView {
            name: self.name@,
            image: self.image.deep_view(),
            image_pull_policy: self.image_pull_policy.deep_view(),
            command: self.command.deep_view(),
            ports: self.ports.deep_view(),
            volume_mounts: self.volume_mounts.deep_view(),
            base: self.base,
        }
    }
}

impl Clone for Container {
    fn clone(&self) -> (res: Self)
        ensures
            res.deep_view() == self.deep_view(),
    {
        Container {
            name: self.name.clone(),
            image: self.image.clone(),
            image_pull_policy: self.image_pull_policy.clone(),
            command: self.command.clone(),
            ports: self.ports.clone(),
            volume_mounts: self.volume_mounts.clone(),
            base: self.base,
        }
    }
}

/// A volume claim template: its name, and the key under which the caller keeps
/// the claim itself.
#[derive(Debug, PartialEq, Eq)]
pub struct PersistentVolumeClaim {
    /// `.metadata.name` of the claim.
    pub name: Option<String>,
    /// Key of the caller's full claim.
    pub claim: u64,
}

/// The model of [`PersistentVolumeClaim`].
pub struct PersistentVolumeClaimView {
    pub name: Option<Seq<char>>,
    pub claim: u64,
}

impl DeepView for PersistentVolumeClaim {
    type V = PersistentVolumeClaimView;

    open spec fn deep_view(&self) -> PersistentVolumeClaimView {
        PersistentVolumeClaimView {
            name: self.name.deep_view(),
            claim: self.claim,
        }
    }
}

impl Clone for PersistentVolumeClaim {
    fn clone(&self) -> (res: Self)
        ensures
            res.deep_view() == self.deep_view(),
    {
        PersistentVolumeClaim {
            name: self.name.clone(),
            claim: self.claim,
        }
    }
}

/// An integer or a string, as Kubernetes takes for some quantities.
#[derive(Debug, PartialEq, Eq)]
pub enum IntOrString {
    Int(i32),
    String(String),
}

/// The model of [`IntOrString`].
pub enum IntOrStringView {
    Int(i32),
    String(Seq<char>),
}

impl DeepView for IntOrString {
    type V = IntOrStringView;

    open spec fn deep_view(&self) -> IntOrStringView {
        match self {
            IntOrString::Int(i) => IntOrStringView::Int(*i),
            IntOrString::String(s) => IntOrStringView::String(s@),
        }
    }
}

impl Clone for IntOrString {
    fn clone(&self) -> (res: Self)
        ensures
            res.deep_view() == self.deep_view(),
    {
        match self {
            IntOrString::Int(i) => IntOrString::Int(*i),
            IntOrString::String(s) => IntOrString::String(s.clone()),
        }
    }
}

/// Where a backup is stored.
#[derive(Debug, PartialEq, Eq)]
pub enum StorageSpec {
    /// An S3 bucket.
    S3 { bucket: String },
    /// A persistent volume.
    Pvc { pvc: PersistentVolumeClaim },
}

/// The model of [`StorageSpec`].
pub enum StorageSpecView {
    S3 { bucket: Seq<char> },
    Pvc { pvc: PersistentVolumeClaimView },
}

impl DeepView for StorageSpec {
    type V = StorageSpecView;

    open spec fn deep_view(&self) -> StorageSpecView {
        match self {
            StorageSpec::S3 { bucket } => StorageSpecView::S3 { bucket: bucket@ },
            StorageSpec::Pvc { pvc } => StorageSpecView::Pvc { pvc: pvc.deep_view() },
        }
    }
}

impl Clone for StorageSpec {
    fn clone(&self) -> (res: Self)
        ensures
            res.deep_view() == self.deep_view(),
    {
        match self {
            StorageSpec::S3 { bucket } => StorageSpec::S3 { bucket: bucket.clone() },
            StorageSpec::Pvc { pvc } => StorageSpec::Pvc { pvc: pvc.clone() },
        }
    }
}


/// The backup part of a cluster's specification.
#[derive(Debug, PartialEq, Eq)]
pub struct BackupSpec {
    /// Cron schedule of the backup.
    pub cron: String,
    /// Where the backup is stored.
    pub storage: StorageSpec,
}

/// The model of [`BackupSpec`].
pub struct BackupSpecView {
    pub cron: Seq<char>,
    pub storage: StorageSpecView,
}

impl DeepView for BackupSpec {
    type V = BackupSpecView;

    open spec fn deep_view(&self) -> BackupSpecView {
        BackupSpecView {
            cron: self.cron@,
            storage: self.storage.deep_view(),
        }
    }
}

impl Clone for BackupSpec {
    fn clone(&self) -> (res: Self)
        ensures
            res.deep_view() == self.deep_view(),
    {
        BackupSpec {
            cron: self.cron.clone(),
            storage: self.storage.clone(),
        }
    }
}

/// The desired state of an Xline cluster.
#[derive(Debug, PartialEq, Eq)]
pub struct ClusterSpec {
    /// Number of replicas.
    pub size: i32,
    /// The Xline container.
    pub container: Container,
    /// Claim for the data directory.
    pub data: Option<PersistentVolumeClaim>,
    pub backup: Option<BackupSpec>,
    /// Further claims of the user.
    pub pvcs: Option<Vec<PersistentVolumeClaim>>,
}

/// The model of [`ClusterSpec`].
pub struct ClusterSpecView {
    pub size: i32,
    pub container: ContainerView,
    pub data: Option<PersistentVolumeClaimView>,
    pub backup: Option<BackupSpecView>,
    pub pvcs: Option<Seq<PersistentVolumeClaimView>>,
}

impl DeepView for ClusterSpec {
    type V = ClusterSpecView;

    open spec fn deep_view(&self) -> ClusterSpecView {
        ClusterSpecView {
            size: self.size,
            container: self.container.deep_view(),
            data: self.data.deep_view(),
            backup: self.backup.deep_view(),
            pvcs: self.pvcs.deep_view(),
        }
    }
}

impl Clone for ClusterSpec {
    fn clone(&self) -> (res: Self)
        ensures
            res.deep_view() == self.deep_view(),
    {
        ClusterSpec {
            size: self.size,
            container: self.container.clone(),
            data: self.data.clone(),
            backup: self.backup.clone(),
            pvcs: self.pvcs.clone(),
        }
    }
}

/// The custom resource that declares an Xline cluster.
#[derive(Debug, PartialEq, Eq)]
pub struct Cluster {
    pub api_version: String,
    pub kind: String,
    pub metadata: ObjectMeta,
    pub spec: ClusterSpec,
}

/// The model of [`Cluster`].
pub struct ClusterView {
    pub api_version: Seq<char>,
    pub kind: Seq<char>,
    pub metadata: ObjectMetaView,
    pub spec: ClusterSpecView,
}

impl DeepView for Cluster {
    type V = ClusterView;

    open spec fn deep_view(&self) -> ClusterView {
        ClusterView {
            api_version: self.api_version@,
            kind: self.kind@,
            metadata: self.metadata.deep_view(),
            spec: self.spec.deep_view(),
        }
    }
}

impl Clone for Cluster {
    fn clone(&self) -> (res: Self)
        ensures
            res.deep_view() == self.deep_view(),
    {
        Cluster {
            api_version: self.api_version.clone(),
            kind: self.kind.clone(),
            metadata: self.metadata.clone(),
            spec: self.spec.clone(),
        }
    }
}

/// A port of a service.
#[derive(Debug, PartialEq, Eq)]
pub struct ServicePort {
    pub name: Option<String>,
    pub port: i32,
}

/// The model of [`ServicePort`].
pub struct ServicePortView {
    pub name: Option<Seq<char>>,
    pub port: i32,
}

impl DeepView for ServicePort {
    type V = ServicePortView;

    open spec fn deep_view(&self) -> ServicePortView {
        ServicePortView {
            name: self.name.deep_view(),
            port: self.port,
        }
    }
}

impl Clone for ServicePort {
    fn clone(&self) -> (res: Self)
        ensures
            res.deep_view() == self.deep_view(),
    {
        ServicePort {
            name: self.name.clone(),
            port: self.port,
        }
    }
}

/// A service, as far as the operator sets it.
#[derive(Debug, PartialEq, Eq)]
pub struct Service {
    pub metadata: ObjectMeta,
    /// `.spec.clusterIP`; unset for a headless service.
    pub cluster_ip: Option<String>,
    /// `.spec.ports`.
    pub ports: Option<Vec<ServicePort>>,
    /// `.spec.selector`.
    pub selector: Option<Vec<Label>>,
}

/// The model of [`Service`].
pub struct ServiceView {
    pub metadata: ObjectMetaView,
    pub cluster_ip: Option<Seq<char>>,
    pub ports: Option<Seq<ServicePortView>>,
    pub selector: Option<Seq<LabelView>>,
}

impl DeepView for Service {
    type V = ServiceView;

    open spec fn deep_view(&self) -> ServiceView {
        ServiceView {
            metadata: self.metadata.deep_view(),
            cluster_ip: self.cluster_ip.deep_view(),
            ports: self.ports.deep_view(),
            selector: self.selector.deep_view(),
        }
    }
}

impl Clone for Service {
    fn clone(&self) -> (res: Self)
        ensures
            res.deep_view() == self.deep_view(),
    {
        Service {
            metadata: self.metadata.clone(),
            cluster_ip: self.cluster_ip.clone(),
            ports: self.ports.clone(),
            selector: self.selector.clone(),
        }
    }
}

/// A stateful set, as far as the operator sets it.
#[derive(Debug, PartialEq, Eq)]
pub struct StatefulSet {
    pub metadata: ObjectMeta,
    /// `.spec.replicas`.
    pub replicas: Option<i32>,
    /// `.spec.selector.matchLabels`.
    pub selector: Option<Vec<Label>>,
    /// `.spec.serviceName`.
    pub service_name: String,
    /// `.spec.volumeClaimTemplates`.
    pub volume_claim_templates: Option<Vec<PersistentVolumeClaim>>,
    /// `.spec.updateStrategy.rollingUpdate.maxUnavailable`.
    pub max_unavailable: Option<IntOrString>,
    /// `.spec.template.metadata.labels`.
    pub pod_labels: Option<Vec<Label>>,
    /// `.spec.template.spec.initContainers`.
    pub init_containers: Option<Vec<Container>>,
    /// `.spec.template.spec.containers`.
    pub containers: Vec<Container>,
}

/// The model of [`StatefulSet`].
pub struct StatefulSetView {
    pub metadata: ObjectMetaView,
    pub replicas: Option<i32>,
    pub selector: Option<Seq<LabelView>>,
    pub service_name: Seq<char>,
    pub volume_claim_templates: Option<Seq<PersistentVolumeClaimView>>,
    pub max_unavailable: Option<IntOrStringView>,
    pub pod_labels: Option<Seq<LabelView>>,
    pub init_containers: Option<Seq<ContainerView>>,
    pub containers: Seq<ContainerView>,
}

impl DeepView for StatefulSet {
    type V = StatefulSetView;

    open spec fn deep_view(&self) -> StatefulSetView {
        StatefulSetView {
            metadata: self.metadata.deep_view(),
            replicas: self.replicas,
            selector: self.selector.deep_view(),
            service_name: self.service_name@,
            volume_claim_templates: self.volume_claim_templates.deep_view(),
            max_unavailable: self.max_unavailable.deep_view(),
            pod_labels: self.pod_labels.deep_view(),
            init_containers: self.init_containers.deep_view(),
            containers: self.containers.deep_view(),
        }
    }
}

impl Clone for StatefulSet {
    fn clone(&self) -> (res: Self)
        ensures
            res.deep_view() == self.deep_view(),
    {
        StatefulSet {
            metadata: self.metadata.clone(),
            replicas: self.replicas,
            selector: self.selector.clone(),
            service_name: self.service_name.clone(),
            volume_claim_templates: self.volume_claim_templates.clone(),
            max_unavailable: self.max_unavailable.clone(),
            pod_labels: self.pod_labels.clone(),
            init_containers: self.init_containers.clone(),
            containers: self.containers.clone(),
        }
    }
}

/// A cron job, as far as the operator sets it.
#[derive(Debug, PartialEq, Eq)]
pub struct CronJob {
    pub metadata: ObjectMeta,
    /// `.spec.concurrencyPolicy`.
    pub concurrency_policy: Option<String>,
    /// `.spec.schedule`.
    pub schedule: String,
    /// `.spec.jobTemplate.spec.template.spec.containers`.
    pub containers: Vec<Container>,
    /// `.spec.jobTemplate.spec.template.spec.restartPolicy`.
    pub restart_policy: Option<String>,
}

/// The model of [`CronJob`].
pub struct CronJobView {
    pub metadata: ObjectMetaView,
    pub concurrency_policy: Option<Seq<char>>,
    pub schedule: Seq<char>,
    pub containers: Seq<ContainerView>,
    pub restart_policy: Option<Seq<char>>,
}

impl DeepView for CronJob {
    type V = CronJobView;

    open spec fn deep_view(&self) -> CronJobView {
        CronJobView {
            metadata: self.metadata.deep_view(),
            concurrency_policy: self.concurrency_policy.deep_view(),
            schedule: self.schedule@,
            containers: self.containers.deep_view(),
            restart_policy: self.restart_policy.deep_view(),
        }
    }
}

impl Clone for CronJob {
    fn clone(&self) -> (res: Self)
        ensures
            res.deep_view() == self.deep_view(),
    {
        CronJob {
            metadata: self.metadata.clone(),
            concurrency_policy: self.concurrency_policy.clone(),
            schedule: self.schedule.clone(),
            containers: self.containers.clone(),
            restart_policy: self.restart_policy.clone(),
        }
    }
}

} // verus!
