use vstd::prelude::*;

verus! {

/// The kinds of object that are listed to find orphans.
#[derive(Clone, Copy, Debug, PartialEq, Eq, Structural)]
pub enum ResourceKind {
    ConfigMap,
    Secret,
    Deployment,
    ReplicaSet,
    StatefulSet,
    DaemonSet,
    Job,
    CronJob,
    ReplicationController,
    Pod,
    Ingress,
    ServiceAccount,
}

/// Why no orphan report could be made.
#[derive(Debug, PartialEq, Eq)]
pub enum Error {
    /// Listing the objects of `kind` failed: a network failure, a denied
    /// authorization or an undecodable answer. `message` describes it.
    KubeError { kind: ResourceKind, message: String },
}

} // verus!
