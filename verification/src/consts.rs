//! Names that the operator and the sidecar must agree on.

use vstd::prelude::*;

verus! {

/// Where a backup volume is mounted in the container. No user mount may lie under it.
pub const DEFAULT_BACKUP_DIR: &'static str = "/xline-backup";

/// Where Xline keeps its data in the container. No user mount may lie under it.
pub const DEFAULT_DATA_DIR: &'static str = "/usr/local/xline/data-dir";

/// The route under which the operator takes heartbeats.
pub const OPERATOR_MONITOR_ROUTE: &'static str = "/monitor";

/// The route under which a sidecar starts a backup.
pub const SIDECAR_BACKUP_ROUTE: &'static str = "/backup";

} // verus!
