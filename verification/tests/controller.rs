use xline_operator::consts::{DEFAULT_BACKUP_DIR, DEFAULT_DATA_DIR};
use xline_operator::controller::{Child, ClusterController, Error};
use xline_operator::objects::{
    BackupSpec, Cluster, ClusterSpec, Container, ContainerPort, CronJob, IntOrString, Label,
    ObjectMeta, OwnerReference, PersistentVolumeClaim, Service, ServicePort, StatefulSet,
    StorageSpec, VolumeMount,
};

fn port(name: &str, number: i32) -> ContainerPort {
    ContainerPort {
        container_port: number,
        host_ip: None,
        host_port: None,
        name: Some(name.to_owned()),
        protocol: None,
    }
}

fn mount(name: &str, path: &str) -> VolumeMount {
    VolumeMount {
        mount_path: path.to_owned(),
        mount_propagation: None,
        name: name.to_owned(),
        read_only: Some(true),
        sub_path: None,
        sub_path_expr: None,
    }
}

fn claim(name: &str, key: u64) -> PersistentVolumeClaim {
    PersistentVolumeClaim { name: Some(name.to_owned()), claim: key }
}

fn cluster() -> Cluster {
    Cluster {
        api_version: "xlineoperator.xline.cloud/v1alpha".to_owned(),
        kind: "XlineCluster".to_owned(),
        metadata: ObjectMeta {
            name: Some("my-xline".to_owned()),
            namespace: Some("prod".to_owned()),
            uid: Some("uid-1".to_owned()),
            labels: None,
            owner_references: None,
        },
        spec: ClusterSpec {
            size: 3,
            container: Container {
                name: "xline".to_owned(),
                image: Some("datenlord/xline".to_owned()),
                image_pull_policy: None,
                command: None,
                ports: Some(vec![port("client", 2379), port("peer", 2380)]),
                volume_mounts: None,
                base: Some(7),
            },
            data: None,
            backup: None,
            pvcs: None,
        },
    }
}

fn controller() -> ClusterController {
    ClusterController { cluster_suffix: "cluster.local".to_owned() }
}

fn labels() -> Vec<Label> {
    vec![Label { key: "app".to_owned(), value: "my-xline".to_owned() }]
}

fn owner() -> OwnerReference {
    OwnerReference {
        api_version: "xlineoperator.xline.cloud/v1alpha".to_owned(),
        kind: "XlineCluster".to_owned(),
        name: "my-xline".to_owned(),
        uid: "uid-1".to_owned(),
        controller: Some(true),
        block_owner_deletion: Some(true),
    }
}

fn metadata() -> ObjectMeta {
    ObjectMeta {
        name: Some("my-xline".to_owned()),
        namespace: Some("prod".to_owned()),
        uid: None,
        labels: Some(labels()),
        owner_references: Some(vec![owner()]),
    }
}

fn pvc_backup(cron: &str, pvc: PersistentVolumeClaim) -> BackupSpec {
    BackupSpec { cron: cron.to_owned(), storage: StorageSpec::Pvc { pvc } }
}

fn s3_backup(cron: &str) -> BackupSpec {
    BackupSpec { cron: cron.to_owned(), storage: StorageSpec::S3 { bucket: "bucket".to_owned() } }
}

#[test]
fn id_is_namespace_then_name() {
    let c = cluster();
    assert_eq!(ClusterController::extract_id(&c), Ok(("prod", "my-xline")));
}

#[test]
fn missing_namespace_is_reported_before_missing_name() {
    let mut c = cluster();
    c.metadata.namespace = None;
    assert_eq!(ClusterController::extract_id(&c), Err(Error::MissingObject(".metadata.namespace")));
    c.metadata.name = None;
    assert_eq!(ClusterController::extract_id(&c), Err(Error::MissingObject(".metadata.namespace")));
    c.metadata.namespace = Some("prod".to_owned());
    assert_eq!(ClusterController::extract_id(&c), Err(Error::MissingObject(".metadata.name")));
}

#[test]
fn owner_reference_points_at_the_cluster_as_controller() {
    assert_eq!(ClusterController::extract_owner_ref(&cluster()), owner());
}

#[test]
fn metadata_carries_name_namespace_label_and_owner() {
    assert_eq!(ClusterController::build_metadata("prod", "my-xline", owner()), metadata());
}

#[test]
fn service_ports_mirror_container_ports() {
    let ports = ClusterController::extract_service_ports(&cluster()).unwrap();
    assert_eq!(
        ports,
        vec![
            ServicePort { name: Some("client".to_owned()), port: 2379 },
            ServicePort { name: Some("peer".to_owned()), port: 2380 },
        ]
    );
}

#[test]
fn a_port_without_name_keeps_none() {
    let mut c = cluster();
    c.spec.container.ports = Some(vec![ContainerPort {
        container_port: 1,
        host_ip: Some("10.0.0.1".to_owned()),
        host_port: Some(99),
        name: None,
        protocol: Some("UDP".to_owned()),
    }]);
    assert_eq!(
        ClusterController::extract_service_ports(&c),
        Ok(vec![ServicePort { name: None, port: 1 }])
    );
}

#[test]
fn empty_ports_are_a_missing_object() {
    let mut c = cluster();
    c.spec.container.ports = Some(vec![]);
    assert_eq!(
        ClusterController::extract_service_ports(&c),
        Err(Error::MissingObject(".spec.container.ports"))
    );
    assert_eq!(
        controller().reconcile_once(&c),
        Err(Error::MissingObject(".spec.container.ports"))
    );
}

#[test]
fn absent_ports_are_a_missing_object() {
    let mut c = cluster();
    c.spec.container.ports = None;
    assert_eq!(
        ClusterController::extract_service_ports(&c),
        Err(Error::MissingObject(".spec.container.ports"))
    );
    assert_eq!(
        controller().reconcile_once(&c),
        Err(Error::MissingObject(".spec.container.ports"))
    );
}

#[test]
fn claims_come_backup_then_data_then_user() {
    let mut c = cluster();
    c.spec.backup = Some(pvc_backup("* * * * *", claim("backup", 1)));
    c.spec.data = Some(claim("data", 2));
    c.spec.pvcs = Some(vec![claim("u1", 3), claim("u0", 4), claim("u1", 5)]);
    assert_eq!(
        ClusterController::extract_pvcs(&c),
        vec![claim("backup", 1), claim("data", 2), claim("u1", 3), claim("u0", 4), claim("u1", 5)]
    );
}

#[test]
fn claims_leave_out_what_is_not_declared() {
    let mut c = cluster();
    assert_eq!(ClusterController::extract_pvcs(&c), vec![]);
    c.spec.backup = Some(s3_backup("* * * * *"));
    c.spec.pvcs = Some(vec![claim("u", 3)]);
    assert_eq!(ClusterController::extract_pvcs(&c), vec![claim("u", 3)]);
    c.spec.data = Some(claim("data", 2));
    assert_eq!(ClusterController::extract_pvcs(&c), vec![claim("data", 2), claim("u", 3)]);
    c.spec.pvcs = None;
    c.spec.data = None;
    c.spec.backup = Some(pvc_backup("* * * * *", claim("backup", 1)));
    assert_eq!(ClusterController::extract_pvcs(&c), vec![claim("backup", 1)]);
}

#[test]
fn headless_service_has_no_cluster_ip_and_selects_by_label() {
    let ports = vec![ServicePort { name: Some("client".to_owned()), port: 2379 }];
    let service = ClusterController::headless_service(&metadata(), ports);
    assert_eq!(
        service,
        Service {
            metadata: metadata(),
            cluster_ip: None,
            ports: Some(vec![ServicePort { name: Some("client".to_owned()), port: 2379 }]),
            selector: Some(labels()),
        }
    );
}

#[test]
fn mounts_are_user_then_backup_then_data() {
    let mut c = cluster();
    c.spec.container.volume_mounts = Some(vec![mount("conf", "/etc/xline"), mount("tmp", "/tmp")]);
    c.spec.backup = Some(pvc_backup("* * * * *", claim("backup", 1)));
    c.spec.data = Some(claim("data", 2));
    let plain = |name: &str, path: &str| VolumeMount {
        mount_path: path.to_owned(),
        mount_propagation: None,
        name: name.to_owned(),
        read_only: None,
        sub_path: None,
        sub_path_expr: None,
    };
    assert_eq!(
        ClusterController::volume_mounts(&c.spec),
        Ok(vec![
            mount("conf", "/etc/xline"),
            mount("tmp", "/tmp"),
            plain("backup", "/xline-backup"),
            plain("data", "/usr/local/xline/data-dir"),
        ])
    );
}

#[test]
fn mounts_without_any_are_an_empty_list() {
    assert_eq!(ClusterController::volume_mounts(&cluster().spec), Ok(vec![]));
    let mut c = cluster();
    c.spec.backup = Some(s3_backup("* * * * *"));
    assert_eq!(ClusterController::volume_mounts(&c.spec), Ok(vec![]));
}

#[test]
fn a_mount_under_the_backup_directory_is_refused() {
    let mut c = cluster();
    c.spec.container.volume_mounts =
        Some(vec![mount("ok", "/var"), mount("bad", "/xline-backup/sub")]);
    assert_eq!(ClusterController::volume_mounts(&c.spec), Err(Error::CannotMount(DEFAULT_BACKUP_DIR)));
    assert_eq!(controller().reconcile_once(&c), Err(Error::CannotMount("/xline-backup")));
}

#[test]
fn a_mount_at_the_backup_directory_or_with_it_as_prefix_is_refused() {
    let mut c = cluster();
    c.spec.container.volume_mounts = Some(vec![mount("bad", "/xline-backup")]);
    assert_eq!(ClusterController::volume_mounts(&c.spec), Err(Error::CannotMount("/xline-backup")));
    c.spec.container.volume_mounts = Some(vec![mount("bad", "/xline-backups")]);
    assert_eq!(ClusterController::volume_mounts(&c.spec), Err(Error::CannotMount("/xline-backup")));
    c.spec.container.volume_mounts = Some(vec![mount("fine", "/xline-backu")]);
    assert!(ClusterController::volume_mounts(&c.spec).is_ok());
    c.spec.container.volume_mounts = Some(vec![mount("fine", "/data/xline-backup")]);
    assert!(ClusterController::volume_mounts(&c.spec).is_ok());
}

#[test]
fn a_mount_under_the_data_directory_is_refused() {
    let mut c = cluster();
    c.spec.container.volume_mounts = Some(vec![mount("bad", "/usr/local/xline/data-dir/wal")]);
    assert_eq!(ClusterController::volume_mounts(&c.spec), Err(Error::CannotMount(DEFAULT_DATA_DIR)));
    assert_eq!(
        controller().reconcile_once(&c),
        Err(Error::CannotMount("/usr/local/xline/data-dir"))
    );
}

#[test]
fn the_backup_directory_is_looked_for_before_the_data_directory() {
    let mut c = cluster();
    c.spec.container.volume_mounts = Some(vec![
        mount("data", "/usr/local/xline/data-dir"),
        mount("backup", "/xline-backup"),
    ]);
    assert_eq!(ClusterController::volume_mounts(&c.spec), Err(Error::CannotMount("/xline-backup")));
}

#[test]
fn a_claim_without_name_is_reported_before_a_reserved_mount() {
    let mut c = cluster();
    c.spec.container.volume_mounts = Some(vec![mount("bad", "/xline-backup")]);
    c.spec.data = Some(PersistentVolumeClaim { name: None, claim: 2 });
    assert_eq!(
        ClusterController::volume_mounts(&c.spec),
        Err(Error::MissingObject(".spec.data.metadata.name"))
    );
    c.spec.backup = Some(pvc_backup("* * * * *", PersistentVolumeClaim { name: None, claim: 1 }));
    assert_eq!(
        ClusterController::volume_mounts(&c.spec),
        Err(Error::MissingObject(".spec.backup.pvc.metadata.name"))
    );
    assert_eq!(
        controller().reconcile_once(&c),
        Err(Error::MissingObject(".spec.backup.pvc.metadata.name"))
    );
}

#[test]
fn missing_ports_are_reported_before_a_reserved_mount() {
    let mut c = cluster();
    c.spec.container.volume_mounts = Some(vec![mount("bad", "/xline-backup")]);
    c.spec.container.ports = Some(vec![]);
    assert_eq!(
        controller().reconcile_once(&c),
        Err(Error::MissingObject(".spec.container.ports"))
    );
}

#[test]
fn stateful_set_is_built_from_the_cluster() {
    let mut c = cluster();
    c.spec.container.volume_mounts = Some(vec![mount("conf", "/etc/xline")]);
    c.spec.data = Some(claim("data", 2));
    let pvcs = ClusterController::extract_pvcs(&c);
    let set = ClusterController::stateful_set("my-xline", &c, pvcs, &metadata()).unwrap();
    assert_eq!(
        set,
        StatefulSet {
            metadata: metadata(),
            replicas: Some(3),
            selector: Some(labels()),
            service_name: "my-xline".to_owned(),
            volume_claim_templates: Some(vec![claim("data", 2)]),
            max_unavailable: Some(IntOrString::String("50%".to_owned())),
            pod_labels: Some(labels()),
            init_containers: Some(vec![]),
            containers: vec![Container {
                name: "xline".to_owned(),
                image: Some("datenlord/xline".to_owned()),
                image_pull_policy: None,
                command: None,
                ports: Some(vec![port("client", 2379), port("peer", 2380)]),
                volume_mounts: Some(vec![
                    mount("conf", "/etc/xline"),
                    VolumeMount {
                        mount_path: "/usr/local/xline/data-dir".to_owned(),
                        mount_propagation: None,
                        name: "data".to_owned(),
                        read_only: None,
                        sub_path: None,
                        sub_path_expr: None,
                    },
                ]),
                base: Some(7),
            }],
        }
    );
}

#[test]
fn backup_cron_job_calls_one_pod_at_random() {
    let job = controller().backup_cron_job("prod", "my-xline", 3, "0 3 * * *", &metadata());
    assert_eq!(
        job,
        CronJob {
            metadata: metadata(),
            concurrency_policy: Some("Forbid".to_owned()),
            schedule: "0 3 * * *".to_owned(),
            containers: vec![Container {
                name: "my-xline-backup-cronjob".to_owned(),
                image: Some("curlimages/curl".to_owned()),
                image_pull_policy: Some("IfNotPresent".to_owned()),
                command: Some(vec![
                    "/bin/sh".to_owned(),
                    "-ecx".to_owned(),
                    "curl my-xline-$((RANDOM % 3)).my-xline.prod.svc.cluster.local/backup"
                        .to_owned(),
                ]),
                ports: None,
                volume_mounts: None,
                base: None,
            }],
            restart_policy: Some("OnFailure".to_owned()),
        }
    );
}

#[test]
fn backup_cron_job_writes_the_size_as_a_number() {
    let c = ClusterController { cluster_suffix: "k8s.example".to_owned() };
    for (size, text) in [(0, "0"), (10, "10"), (-7, "-7"), (i32::MAX, "2147483647"), (i32::MIN, "-2147483648")] {
        let job = c.backup_cron_job("ns", "x", size, "@daily", &metadata());
        let command = job.containers[0].command.clone().unwrap();
        assert_eq!(command[2], format!("curl x-$((RANDOM % {text})).x.ns.svc.k8s.example/backup"));
        assert_eq!(command[2], format!("curl x-$((RANDOM % {size})).x.ns.svc.k8s.example/backup"));
    }
}

#[test]
fn without_backup_no_cron_job_is_made() {
    let mut c = cluster();
    c.spec.data = Some(claim("data", 2));
    let children = controller().reconcile_once(&c).unwrap();
    assert_eq!(children.len(), 2);
    assert!(matches!(children[0], Child::Service(_)));
    assert!(matches!(children[1], Child::StatefulSet(_)));
    assert!(!children.iter().any(|child| matches!(child, Child::CronJob(_))));
}

#[test]
fn with_backup_the_cron_job_comes_last() {
    for backup in [s3_backup("*/5 * * * *"), pvc_backup("*/5 * * * *", claim("backup", 1))] {
        let mut c = cluster();
        c.spec.backup = Some(backup);
        let children = controller().reconcile_once(&c).unwrap();
        assert_eq!(children.len(), 3);
        assert!(matches!(children[0], Child::Service(_)));
        assert!(matches!(children[1], Child::StatefulSet(_)));
        match &children[2] {
            Child::CronJob(job) => {
                assert_eq!(job.schedule, "*/5 * * * *");
                assert_eq!(job.metadata, metadata());
            },
            other => panic!("no cron job: {other:?}"),
        }
    }
}

#[test]
fn reconcile_gives_the_children_that_the_parts_give() {
    let mut c = cluster();
    c.spec.backup = Some(pvc_backup("0 0 * * *", claim("backup", 1)));
    c.spec.pvcs = Some(vec![claim("extra", 9)]);
    let children = controller().reconcile_once(&c).unwrap();
    let ports = ClusterController::extract_service_ports(&c).unwrap();
    let pvcs = ClusterController::extract_pvcs(&c);
    assert_eq!(
        children,
        vec![
            Child::Service(ClusterController::headless_service(&metadata(), ports)),
            Child::StatefulSet(
                ClusterController::stateful_set("my-xline", &c, pvcs, &metadata()).unwrap()
            ),
            Child::CronJob(controller().backup_cron_job("prod", "my-xline", 3, "0 0 * * *", &metadata())),
        ]
    );
    match &children[1] {
        Child::StatefulSet(set) => {
            assert_eq!(
                set.volume_claim_templates,
                Some(vec![claim("backup", 1), claim("extra", 9)])
            );
        },
        other => panic!("no stateful set: {other:?}"),
    }
}

#[test]
fn the_same_cluster_gives_the_same_children() {
    let mut c = cluster();
    c.spec.backup = Some(pvc_backup("0 0 * * *", claim("backup", 1)));
    c.spec.data = Some(claim("data", 2));
    c.spec.container.volume_mounts = Some(vec![mount("conf", "/etc/xline")]);
    let first = controller().reconcile_once(&c);
    let second = controller().reconcile_once(&c);
    assert!(first.is_ok());
    assert_eq!(first, second);
    assert_eq!(format!("{first:?}"), format!("{second:?}"));
    let copy = c.clone();
    assert_eq!(controller().reconcile_once(&copy), first);
}

#[test]
fn every_child_carries_the_same_metadata() {
    let mut c = cluster();
    c.spec.backup = Some(s3_backup("0 0 * * *"));
    for child in controller().reconcile_once(&c).unwrap() {
        let found = match child {
            Child::Service(service) => service.metadata,
            Child::StatefulSet(set) => set.metadata,
            Child::CronJob(job) => job.metadata,
        };
        assert_eq!(found, metadata());
    }
}

#[test]
fn errors_read_as_sentences() {
    assert_eq!(
        Error::MissingObject(".spec.container.ports").message(),
        "Missing object key .spec.container.ports in cluster"
    );
    assert_eq!(
        Error::CannotMount("/xline-backup").message(),
        "The path /xline-backup is internally used in the xline operator and cannot be mounted."
    );
}
