use xline_operator::operator::{
    crd_established, find_crd, Config, CrdEntry, CrdError, CrdStep, Namespace, Operator,
    CRD_ESTABLISH_TIMEOUT,
};

const CRD: &str = "xlineclusters.xlineoperator.xline.cloud";

fn config(create_crd: bool) -> Config {
    Config {
        namespace: "default".to_owned(),
        cluster_wide: false,
        create_crd,
        cluster_suffix: "cluster.local".to_owned(),
        listen_addr: "0.0.0.0:8080".to_owned(),
        heartbeat_period: 10,
        unreachable_thresh: 2,
    }
}

fn entry(name: &str, versions: &[&str]) -> CrdEntry {
    CrdEntry { name: Some(name.to_owned()), versions: versions.iter().map(|v| (*v).to_owned()).collect() }
}

fn plan(create_crd: bool, present: &[&str], embedded: &str) -> Result<Vec<CrdStep>, CrdError> {
    let crds = vec![entry("others.example.com", &["v9"]), entry(CRD, present)];
    Operator::new(config(create_crd)).prepare_crd(&crds, CRD, embedded)
}

fn patch_and_wait() -> Vec<CrdStep> {
    vec![CrdStep::MergePatch, CrdStep::AwaitEstablished(20)]
}

#[test]
fn the_wait_for_the_crd_is_twenty_seconds() {
    assert_eq!(CRD_ESTABLISH_TIMEOUT, 20);
}

#[test]
fn an_absent_crd_is_created() {
    let crds = vec![entry("others.example.com", &["v9"])];
    for create_crd in [false, true] {
        let steps = Operator::new(config(create_crd)).prepare_crd(&crds, CRD, "v1");
        assert_eq!(steps, Ok(vec![CrdStep::Create, CrdStep::AwaitEstablished(20)]));
    }
    let steps = Operator::new(config(false)).prepare_crd(&vec![], CRD, "not a version");
    assert_eq!(steps, Ok(vec![CrdStep::Create, CrdStep::AwaitEstablished(20)]));
}

#[test]
fn a_newer_operator_patches_and_waits() {
    assert_eq!(plan(false, &["v1", "v2"], "v3"), Ok(patch_and_wait()));
    assert_eq!(plan(true, &["v1", "v2"], "v3"), Ok(patch_and_wait()));
    assert_eq!(plan(false, &["v9"], "v10"), Ok(patch_and_wait()));
}

#[test]
fn a_crd_without_versions_is_patched() {
    assert_eq!(plan(false, &[], "v1"), Ok(patch_and_wait()));
}

#[test]
fn a_higher_version_in_the_cluster_stops_the_operator() {
    assert_eq!(
        plan(false, &["v1", "v3", "v2", "v4"], "v2"),
        Err(CrdError::CrdIncompatible { embedded: "v2".to_owned(), present: "v3".to_owned() })
    );
    assert_eq!(
        plan(false, &["v10"], "v9"),
        Err(CrdError::CrdIncompatible { embedded: "v9".to_owned(), present: "v10".to_owned() })
    );
}

#[test]
fn the_incompatibility_names_both_versions() {
    let message = plan(false, &["v1", "v3"], "v2").unwrap_err().message();
    assert_eq!(
        message,
        "The current XlineCluster CRD version v2 is not compatible with higher version v3 on k8s. \
         Please use the latest xline-operator or set --create_crd to true."
    );
}

#[test]
fn create_crd_forces_the_patch() {
    assert_eq!(plan(true, &["v1", "v3", "v2", "v4"], "v2"), Ok(patch_and_wait()));
    assert_eq!(plan(true, &["v10"], "v9"), Ok(patch_and_wait()));
}

#[test]
fn the_same_version_writes_nothing() {
    assert_eq!(plan(false, &["v1", "v2"], "v2"), Ok(vec![CrdStep::AwaitEstablished(20)]));
    assert_eq!(plan(true, &["v1", "v2"], "v2"), Ok(vec![CrdStep::AwaitEstablished(20)]));
    assert_eq!(plan(false, &["v02"], "v2"), Ok(vec![CrdStep::AwaitEstablished(20)]));
}

#[test]
fn an_invalid_version_stops_the_operator() {
    assert_eq!(plan(false, &["v1"], "1"), Err(CrdError::InvalidVersion("1".to_owned())));
    assert_eq!(plan(true, &["v1", "vx", "v9", ""], "v1"), Err(CrdError::InvalidVersion("vx".to_owned())));
    assert_eq!(plan(false, &["v9", "v1beta1"], "v1"), Err(CrdError::InvalidVersion("v1beta1".to_owned())));
    assert_eq!(plan(false, &["x"], "y"), Err(CrdError::InvalidVersion("y".to_owned())));
    assert_eq!(
        CrdError::InvalidVersion("vx".to_owned()).message(),
        "The version vx does not match v<number>"
    );
}

#[test]
fn the_last_entry_with_the_name_counts() {
    let crds = vec![
        entry(CRD, &["v1"]),
        CrdEntry { name: None, versions: vec!["v7".to_owned()] },
        entry(CRD, &["v2", "v3"]),
        entry("others.example.com", &["v9"]),
    ];
    assert_eq!(find_crd(&crds, CRD), Some(&vec!["v2".to_owned(), "v3".to_owned()]));
    assert_eq!(find_crd(&crds, "others.example.com"), Some(&vec!["v9".to_owned()]));
    assert_eq!(find_crd(&crds, "missing"), None);
    assert_eq!(find_crd(&vec![], CRD), None);
}

#[test]
fn a_crd_not_established_in_time_stops_the_operator() {
    assert_eq!(crd_established(true), Ok(()));
    assert_eq!(crd_established(false), Err(CrdError::CrdEstablishTimeout));
    assert_eq!(
        CrdError::CrdEstablishTimeout.message(),
        "The XlineCluster CRD was not established in time"
    );
}

#[test]
fn the_operator_watches_one_namespace_or_all() {
    let single = Operator::new(config(false));
    assert_eq!(single.watch_scope(), Namespace::Single("default".to_owned()));
    let mut wide = config(false);
    wide.cluster_wide = true;
    wide.namespace = "ignored".to_owned();
    assert_eq!(Operator::new(wide).watch_scope(), Namespace::ClusterWide);
}

#[test]
fn the_operator_keeps_its_configuration() {
    let operator = Operator::new(config(true));
    assert!(operator.config.create_crd);
    assert_eq!(operator.config.cluster_suffix, "cluster.local");
    assert_eq!(operator.config.listen_addr, "0.0.0.0:8080");
}

#[test]
fn the_aggregator_starts_from_the_configuration() {
    let mut c = config(false);
    c.heartbeat_period = 30;
    c.unreachable_thresh = 4;
    let state = Operator::new(c).sidecar_state(Some(5));
    assert_eq!(state.heartbeat_period(), 30);
    assert_eq!(state.unreachable_thresh(), 4);
    assert_eq!(state.majority(), 3);
    let fallback = Operator::new(config(false)).sidecar_state(None);
    assert_eq!(fallback.majority(), 1);
}
