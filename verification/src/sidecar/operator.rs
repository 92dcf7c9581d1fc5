//! The sidecar operator.

use crate::sidecar::config::Config;
use crate::sidecar::health::{probe_target_of, url_of, Health, DEPLOY_OPERATOR_ROUTE};
use crate::xline::{distinct_names, MemberView};
use vstd::prelude::*;

verus! {

/// The sidecar operator.
#[derive(Debug)]
pub struct Operator {
    /// The configuration of this operator.
    pub config: Config,
}

impl Operator {
    /// An operator with the configuration `config`.
    #[must_use]
    #[inline]
    pub fn new(config: Config) -> (operator: Self)
        ensures
            operator.config == config,
    {
        Self { config }
    }

    /// What this sidecar probes and where it reports: it goes by the name of its node,
    /// probes the members of its configuration and reports to the operator of its
    /// configuration.
    pub fn health(&self) -> (health: Health)
        ensures
            health@.id == self.config.name@,
            health@.deploy_operator_url == url_of(
                self.config.deploy_op_addr@,
                DEPLOY_OPERATOR_ROUTE@,
            ),
            health@.members == self.config.members.deep_view().map_values(
                |m: MemberView| probe_target_of(m),
            ),
            self.config.wf() ==> distinct_names(health@.members),
    {
        Health::new(
            self.config.name.clone(),
            self.config.members.clone(),
            self.config.deploy_op_addr.as_str(),
        )
    }
}

} // verus!
