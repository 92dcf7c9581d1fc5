//! The logic of a Kubernetes operator for Xline clusters, and of the sidecar that runs
//! beside each node: what they decide, stated and proved. Whoever uses this library
//! talks to Kubernetes and to the network, and does what the library decides.

pub mod cache;
pub mod consts;
pub mod controller;
pub mod heartbeat;
pub mod migration;
pub mod objects;
pub mod operator;
pub mod shutdown;
pub mod sidecar;
pub mod sidecar_state;
pub mod text;
pub mod xline;
