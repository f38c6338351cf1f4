//! Finds the ConfigMaps and Secrets of a Kubernetes namespace that no workload,
//! Ingress or ServiceAccount refers to.
//!
//! The cluster's objects come in as plain values (see `pod_spec` and `objects`);
//! the reference extraction and the reduction of the candidate name sets are
//! verified against set-level specifications.

pub mod candidates;
pub mod error;
pub mod input;
pub mod laws;
pub mod objects;
pub mod orphans;
pub mod pod_spec;
pub mod references;
