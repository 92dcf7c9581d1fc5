//! The configuration of a sidecar.

use crate::xline::{distinct_names, Member};
use std::path::PathBuf;
use std::time::Duration;
use vstd::prelude::*;

verus! {

/// `std::path::PathBuf`, which the library only carries: nothing is said of a path.
#[verifier::external_type_specification]
#[verifier::external_body]
pub struct ExPathBuf(PathBuf);

/// Where a sidecar stores backups.
#[derive(Debug)]
#[non_exhaustive]
#[allow(inconsistent_fields)]
pub enum Backup {
    /// In S3.
    S3 {
        /// The path in S3.
        path: String,
        /// The secret for S3.
        secret: String,
    },
    /// On a persistent volume.
    PV {
        /// Where the volume is mounted.
        path: PathBuf,
    },
}

/// The configuration of a sidecar.
#[derive(Debug)]
#[non_exhaustive]
pub struct Config {
    /// The name of this node.
    pub name: String,
    /// The sidecars of the cluster, each with its address.
    pub members: Vec<Member>,
    /// The address of the operator that takes the heartbeats.
    pub deploy_op_addr: String,
    /// The address on which this sidecar answers for its health.
    pub status_listen_addr: String,
    /// How often the health of the cluster is checked.
    pub check_interval: Duration,
    /// How often a heartbeat is sent.
    pub heartbeat_interval: Duration,
    /// How long the HTTP client waits for an answer.
    pub client_timeout: Duration,
    /// Where backups are stored, if any are made.
    pub backup: Option<Backup>,
}

impl Config {
    /// The configuration is in order: no two members have the same name.
    pub open spec fn wf(&self) -> bool {
        distinct_names(self.members.deep_view())
    }

    /// A configuration with the given values.
    #[must_use]
    #[inline]
    pub fn new(
        name: String,
        members: Vec<Member>,
        deploy_op_addr: String,
        status_listen_addr: String,
        check_interval: Duration,
        heartbeat_interval: Duration,
        client_timeout: Duration,
        backup: Option<Backup>,
    ) -> (config: Self)
        ensures
            config.name == name,
            config.members == members,
            config.deploy_op_addr == deploy_op_addr,
            config.status_listen_addr == status_listen_addr,
            config.check_interval == check_interval,
            config.heartbeat_interval == heartbeat_interval,
            config.client_timeout == client_timeout,
            config.backup == backup,
            distinct_names(members.deep_view()) ==> config.wf(),
    {
        Self {
            name,
            members,
            deploy_op_addr,
            status_listen_addr,
            check_interval,
            heartbeat_interval,
            client_timeout,
            backup,
        }
    }
}

} // verus!
