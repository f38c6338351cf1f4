use vstd::prelude::*;

use crate::objects::{ConfigMap, Ingress, Secret, ServiceAccount};
use crate::orphans::{
    all_pod_specs, config_map_names, config_map_orphans, config_maps_referenced_by, first_failure,
    inventory_of, pod_specs_of, secret_names, secret_orphans, secrets_of_ingresses,
    secrets_of_service_accounts, secrets_referenced_by, Inventory, Listings, ROOT_CA_CERT,
};
use crate::pod_spec::{
    CronJob, DaemonSet, Deployment, Job, Pod, PodSpec, ReplicaSet, ReplicationController,
    ResourceWithPodSpec, StatefulSet,
};
use crate::references::{
    carries_name, ingress_references_secret, ingress_secrets, pod_spec_config_maps, pod_spec_references_config_map,
    pod_spec_references_secret, pod_spec_secrets, service_account_references_secret,
    service_account_secrets,
};

verus! {

/// One of the inventory's workloads or Pods carries the pod spec `p`.
pub open spec fn carried_pod_spec(inv: Inventory, p: PodSpec) -> bool {
    ||| exists|i: int| 0 <= i < inv.deployments.len() && #[trigger] inv.deployments@[i].pod_template() == Some(p)
    ||| exists|i: int| 0 <= i < inv.replica_sets.len() && #[trigger] inv.replica_sets@[i].pod_template() == Some(p)
    ||| exists|i: int| 0 <= i < inv.stateful_sets.len() && #[trigger] inv.stateful_sets@[i].pod_template() == Some(p)
    ||| exists|i: int| 0 <= i < inv.daemon_sets.len() && #[trigger] inv.daemon_sets@[i].pod_template() == Some(p)
    ||| exists|i: int| 0 <= i < inv.jobs.len() && #[trigger] inv.jobs@[i].pod_template() == Some(p)
    ||| exists|i: int| 0 <= i < inv.cron_jobs.len() && #[trigger] inv.cron_jobs@[i].pod_template() == Some(p)
    ||| exists|i: int|
        0 <= i < inv.replication_controllers.len() && #[trigger] inv.replication_controllers@[i].pod_template() == Some(p)
    ||| exists|i: int| 0 <= i < inv.pods.len() && #[trigger] inv.pods@[i].pod_template() == Some(p)
}

proof fn lemma_concat_contains<A>(a: Seq<A>, b: Seq<A>, x: A)
    ensures
        (a + b).contains(x) <==> a.contains(x) || b.contains(x),
{
    if a.contains(x) {
        let k = choose|k: int| 0 <= k < a.len() && a[k] == x;
        assert((a + b)[k] == x);
    }
    if b.contains(x) {
        let k = choose|k: int| 0 <= k < b.len() && b[k] == x;
        assert((a + b)[a.len() + k] == x);
    }
    if (a + b).contains(x) {
        let k = choose|k: int| 0 <= k < (a + b).len() && (a + b)[k] == x;
        if k < a.len() {
            assert(a[k] == x);
        } else {
            assert(b[k - a.len()] == x);
        }
    }
}

proof fn lemma_pod_specs_of_contains<T: ResourceWithPodSpec>(resources: Seq<T>, p: PodSpec)
    ensures
        pod_specs_of(resources).contains(p) <==> exists|i: int|
            0 <= i < resources.len() && #[trigger] resources[i].pod_template() == Some(p),
    decreases resources.len(),
{
    if resources.len() > 0 {
        let init = resources.drop_last();
        lemma_pod_specs_of_contains(init, p);
        let rest = pod_specs_of(init);
        let last = resources.last();
        if exists|i: int| 0 <= i < resources.len() && #[trigger] resources[i].pod_template() == Some(p) {
            let i = choose|i: int| 0 <= i < resources.len() && #[trigger] resources[i].pod_template() == Some(p);
            if i < resources.len() - 1 {
                assert(init[i] == resources[i]);
                let k = choose|k: int| 0 <= k < rest.len() && rest[k] == p;
                match last.pod_template() {
                    Some(q) => assert(rest.push(q)[k] == p),
                    None => {},
                }
            } else {
                assert(rest.push(p)[rest.len() as int] == p);
            }
        }
        if pod_specs_of(resources).contains(p) {
            match last.pod_template() {
                Some(q) => {
                    let k = choose|k: int| 0 <= k < rest.len() + 1 && rest.push(q)[k] == p;
                    if k < rest.len() {
                        assert(rest[k] == p);
                        let i = choose|i: int| 0 <= i < init.len() && #[trigger] init[i].pod_template() == Some(p);
                        assert(resources[i] == init[i]);
                    } else {
                        assert(resources[resources.len() - 1].pod_template() == Some(p));
                    }
                },
                None => {
                    let i = choose|i: int| 0 <= i < init.len() && #[trigger] init[i].pod_template() == Some(p);
                    assert(resources[i] == init[i]);
                },
            }
        }
    }
}

/// The pod specs that the orphan search scans are exactly those that the
/// inventory's workloads and Pods carry.
pub proof fn lemma_all_pod_specs_contains(inv: Inventory, p: PodSpec)
    ensures
        all_pod_specs(inv).contains(p) <==> carried_pod_spec(inv, p),
{
    let d = pod_specs_of(inv.deployments@);
    let rs = pod_specs_of(inv.replica_sets@);
    let ss = pod_specs_of(inv.stateful_sets@);
    let ds = pod_specs_of(inv.daemon_sets@);
    let j = pod_specs_of(inv.jobs@);
    let cj = pod_specs_of(inv.cron_jobs@);
    let rc = pod_specs_of(inv.replication_controllers@);
    let po = pod_specs_of(inv.pods@);
    lemma_concat_contains(d, rs, p);
    lemma_concat_contains(d + rs, ss, p);
    lemma_concat_contains(d + rs + ss, ds, p);
    lemma_concat_contains(d + rs + ss + ds, j, p);
    lemma_concat_contains(d + rs + ss + ds + j, cj, p);
    lemma_concat_contains(d + rs + ss + ds + j + cj, rc, p);
    lemma_concat_contains(d + rs + ss + ds + j + cj + rc, po, p);
    lemma_pod_specs_of_contains(inv.deployments@, p);
    lemma_pod_specs_of_contains(inv.replica_sets@, p);
    lemma_pod_specs_of_contains(inv.stateful_sets@, p);
    lemma_pod_specs_of_contains(inv.daemon_sets@, p);
    lemma_pod_specs_of_contains(inv.jobs@, p);
    lemma_pod_specs_of_contains(inv.cron_jobs@, p);
    lemma_pod_specs_of_contains(inv.replication_controllers@, p);
    lemma_pod_specs_of_contains(inv.pods@, p);
}

/// A ConfigMap or Secret that a pod spec of any workload or Pod refers to (in
/// `envFrom`, in a variable's `valueFrom`, or in a volume) is never reported
/// as an orphan.
pub proof fn lemma_referenced_by_pod_spec_not_orphaned(inv: Inventory, p: PodSpec, n: Seq<char>)
    requires
        carried_pod_spec(inv, p),
    ensures
        pod_spec_references_config_map(p, n) ==> !config_map_orphans(inv).contains(n),
        pod_spec_references_secret(p, n) ==> !secret_orphans(inv).contains(n),
{
    lemma_all_pod_specs_contains(inv, p);
    let specs = all_pod_specs(inv);
    let k = choose|k: int| 0 <= k < specs.len() && specs[k] == p;
    if pod_spec_references_config_map(p, n) {
        assert(config_maps_referenced_by(specs).contains(n));
    }
    if pod_spec_references_secret(p, n) {
        assert(secrets_referenced_by(specs).contains(n));
    }
}

/// A Secret that an Ingress TLS entry, or a ServiceAccount's image pull
/// secrets or mountable secrets, name is never reported as an orphan.
pub proof fn lemma_referenced_by_ingress_or_service_account_not_orphaned(inv: Inventory, n: Seq<char>)
    ensures
        (exists|i: int| 0 <= i < inv.ingresses.len() && ingress_references_secret(#[trigger] inv.ingresses@[i], n))
            ==> !secret_orphans(inv).contains(n),
        (exists|i: int|
            0 <= i < inv.service_accounts.len() && service_account_references_secret(#[trigger] inv.service_accounts@[i], n))
            ==> !secret_orphans(inv).contains(n),
{
}

/// The root CA certificate's ConfigMap is never reported as an orphan, even
/// where nothing refers to it.
pub proof fn lemma_root_ca_cert_never_orphaned(inv: Inventory)
    ensures
        !config_map_orphans(inv).contains(ROOT_CA_CERT@),
{
}


/// Two inventories hold the same objects of each kind, whatever the order in
/// which they were listed.
pub open spec fn same_objects(a: Inventory, b: Inventory) -> bool {
    &&& a.config_maps@.to_set() == b.config_maps@.to_set()
    &&& a.secrets@.to_set() == b.secrets@.to_set()
    &&& a.deployments@.to_set() == b.deployments@.to_set()
    &&& a.replica_sets@.to_set() == b.replica_sets@.to_set()
    &&& a.stateful_sets@.to_set() == b.stateful_sets@.to_set()
    &&& a.daemon_sets@.to_set() == b.daemon_sets@.to_set()
    &&& a.jobs@.to_set() == b.jobs@.to_set()
    &&& a.cron_jobs@.to_set() == b.cron_jobs@.to_set()
    &&& a.replication_controllers@.to_set() == b.replication_controllers@.to_set()
    &&& a.pods@.to_set() == b.pods@.to_set()
    &&& a.ingresses@.to_set() == b.ingresses@.to_set()
    &&& a.service_accounts@.to_set() == b.service_accounts@.to_set()
}

proof fn lemma_some_element<A>(s1: Seq<A>, s2: Seq<A>, f: spec_fn(A) -> bool)
    requires
        s1.to_set() == s2.to_set(),
    ensures
        (exists|i: int| 0 <= i < s1.len() && f(#[trigger] s1[i])) <==> (exists|j: int| 0 <= j < s2.len() && f(#[trigger] s2[j])),
{
    if exists|i: int| 0 <= i < s1.len() && f(#[trigger] s1[i]) {
        let i = choose|i: int| 0 <= i < s1.len() && f(#[trigger] s1[i]);
        assert(s1.to_set().contains(s1[i]));
        assert(s2.contains(s1[i]));
    }
    if exists|j: int| 0 <= j < s2.len() && f(#[trigger] s2[j]) {
        let j = choose|j: int| 0 <= j < s2.len() && f(#[trigger] s2[j]);
        assert(s2.to_set().contains(s2[j]));
        assert(s1.contains(s2[j]));
    }
}

proof fn lemma_same_objects_same_pod_specs(a: Inventory, b: Inventory, p: PodSpec)
    requires
        same_objects(a, b),
    ensures
        carried_pod_spec(a, p) <==> carried_pod_spec(b, p),
{
    lemma_some_element(a.deployments@, b.deployments@, |w: Deployment| w.pod_template() == Some(p));
    lemma_some_element(a.replica_sets@, b.replica_sets@, |w: ReplicaSet| w.pod_template() == Some(p));
    lemma_some_element(a.stateful_sets@, b.stateful_sets@, |w: StatefulSet| w.pod_template() == Some(p));
    lemma_some_element(a.daemon_sets@, b.daemon_sets@, |w: DaemonSet| w.pod_template() == Some(p));
    lemma_some_element(a.jobs@, b.jobs@, |w: Job| w.pod_template() == Some(p));
    lemma_some_element(a.cron_jobs@, b.cron_jobs@, |w: CronJob| w.pod_template() == Some(p));
    lemma_some_element(
        a.replication_controllers@,
        b.replication_controllers@,
        |w: ReplicationController| w.pod_template() == Some(p),
    );
    lemma_some_element(a.pods@, b.pods@, |w: Pod| w.pod_template() == Some(p));
}

proof fn lemma_same_objects_same_references(a: Inventory, b: Inventory)
    requires
        same_objects(a, b),
    ensures
        config_maps_referenced_by(all_pod_specs(a)) == config_maps_referenced_by(all_pod_specs(b)),
        secrets_referenced_by(all_pod_specs(a)) == secrets_referenced_by(all_pod_specs(b)),
{
    let sa = all_pod_specs(a);
    let sb = all_pod_specs(b);
    assert forall|i: int| 0 <= i < sa.len() implies sb.contains(#[trigger] sa[i]) by {
        lemma_all_pod_specs_contains(a, sa[i]);
        lemma_same_objects_same_pod_specs(a, b, sa[i]);
        lemma_all_pod_specs_contains(b, sa[i]);
    }
    assert forall|i: int| 0 <= i < sb.len() implies sa.contains(#[trigger] sb[i]) by {
        lemma_all_pod_specs_contains(b, sb[i]);
        lemma_same_objects_same_pod_specs(a, b, sb[i]);
        lemma_all_pod_specs_contains(a, sb[i]);
    }
    assert(sa.to_set() =~= sb.to_set());
    assert forall|n: Seq<char>| config_maps_referenced_by(sa).contains(n) <==> config_maps_referenced_by(sb).contains(n) by {
        lemma_some_element(sa, sb, |p: PodSpec| pod_spec_references_config_map(p, n));
    }
    assert forall|n: Seq<char>| secrets_referenced_by(sa).contains(n) <==> secrets_referenced_by(sb).contains(n) by {
        lemma_some_element(sa, sb, |p: PodSpec| pod_spec_references_secret(p, n));
    }
    assert(config_maps_referenced_by(sa) =~= config_maps_referenced_by(sb));
    assert(secrets_referenced_by(sa) =~= secrets_referenced_by(sb));
}

/// Inventories that hold the same objects, listed in any order, have the same
/// orphans.
pub proof fn lemma_same_objects_same_orphans(a: Inventory, b: Inventory)
    requires
        same_objects(a, b),
    ensures
        config_map_orphans(a) == config_map_orphans(b),
        secret_orphans(a) == secret_orphans(b),
{
    lemma_same_objects_same_references(a, b);
    assert forall|n: Seq<char>| config_map_names(a.config_maps@).contains(n) <==> config_map_names(b.config_maps@).contains(n) by {
        lemma_some_element(a.config_maps@, b.config_maps@, |c: ConfigMap| carries_name(c.name, n));
    }
    assert forall|n: Seq<char>| secret_names(a.secrets@).contains(n) <==> secret_names(b.secrets@).contains(n) by {
        lemma_some_element(a.secrets@, b.secrets@, |c: Secret| carries_name(c.name, n));
    }
    assert forall|n: Seq<char>| secrets_of_ingresses(a.ingresses@).contains(n) <==> secrets_of_ingresses(b.ingresses@).contains(n) by {
        lemma_some_element(a.ingresses@, b.ingresses@, |g: Ingress| ingress_references_secret(g, n));
    }
    assert forall|n: Seq<char>|
        secrets_of_service_accounts(a.service_accounts@).contains(n) <==> secrets_of_service_accounts(b.service_accounts@).contains(n) by {
        lemma_some_element(a.service_accounts@, b.service_accounts@, |sa: ServiceAccount| service_account_references_secret(sa, n));
    }
    assert(config_map_names(a.config_maps@) =~= config_map_names(b.config_maps@));
    assert(secret_names(a.secrets@) =~= secret_names(b.secrets@));
    assert(secrets_of_ingresses(a.ingresses@) =~= secrets_of_ingresses(b.ingresses@));
    assert(secrets_of_service_accounts(a.service_accounts@) =~= secrets_of_service_accounts(b.service_accounts@));
}

/// Asking twice about an unchanged namespace gives the same report, also where
/// the listings come back in another order.
pub proof fn lemma_find_orphans_idempotent(first: Listings, second: Listings)
    requires
        first_failure(first) is None,
        first_failure(second) is None,
        same_objects(inventory_of(first), inventory_of(second)),
    ensures
        config_map_orphans(inventory_of(first)) == config_map_orphans(inventory_of(second)),
        secret_orphans(inventory_of(first)) == secret_orphans(inventory_of(second)),
{
    lemma_same_objects_same_orphans(inventory_of(first), inventory_of(second));
}


/// The candidates left after removing the names of each batch in turn, in the
/// order of `batches`.
pub open spec fn reduce(candidates: Set<Seq<char>>, batches: Seq<Set<Seq<char>>>) -> Set<Seq<char>>
    decreases batches.len(),
{
    if batches.len() == 0 {
        candidates
    } else {
        reduce(candidates, batches.drop_last()).difference(batches.last())
    }
}

/// Every name of some batch.
pub open spec fn union_of(batches: Seq<Set<Seq<char>>>) -> Set<Seq<char>> {
    Set::new(|n: Seq<char>| exists|i: int| 0 <= i < batches.len() && #[trigger] batches[i].contains(n))
}

/// Removing batch after batch removes their union.
pub proof fn lemma_reduce_removes_union(candidates: Set<Seq<char>>, batches: Seq<Set<Seq<char>>>)
    ensures
        reduce(candidates, batches) == candidates.difference(union_of(batches)),
    decreases batches.len(),
{
    if batches.len() == 0 {
        assert(candidates.difference(union_of(batches)) =~= candidates);
    } else {
        let init = batches.drop_last();
        lemma_reduce_removes_union(candidates, init);
        assert forall|n: Seq<char>| #[trigger] union_of(batches).contains(n) <==> union_of(init).contains(n) || batches.last().contains(n) by {
            if union_of(batches).contains(n) {
                let i = choose|i: int| 0 <= i < batches.len() && #[trigger] batches[i].contains(n);
                if i < init.len() {
                    assert(init[i] == batches[i]);
                }
            }
            if union_of(init).contains(n) {
                let i = choose|i: int| 0 <= i < init.len() && #[trigger] init[i].contains(n);
                assert(batches[i] == init[i]);
            }
        }
        assert(reduce(candidates, batches) =~= candidates.difference(union_of(batches)));
    }
}

/// Removing the batches in any order, any permutation of them, as when the
/// objects are scanned in parallel, leaves the same candidates.
pub proof fn lemma_reduce_order_independent(
    candidates: Set<Seq<char>>,
    batches: Seq<Set<Seq<char>>>,
    reordered: Seq<Set<Seq<char>>>,
)
    requires
        reordered.to_multiset() == batches.to_multiset(),
    ensures
        reduce(candidates, reordered) == reduce(candidates, batches),
{
    lemma_reduce_removes_union(candidates, batches);
    lemma_reduce_removes_union(candidates, reordered);
    batches.to_multiset_ensures();
    reordered.to_multiset_ensures();
    assert forall|n: Seq<char>| union_of(batches).contains(n) <==> union_of(reordered).contains(n) by {
        if union_of(batches).contains(n) {
            let i = choose|i: int| 0 <= i < batches.len() && #[trigger] batches[i].contains(n);
            assert(batches.contains(batches[i]));
            assert(batches.to_multiset().count(batches[i]) > 0);
            assert(reordered.to_multiset().count(batches[i]) > 0);
            let j = choose|j: int| 0 <= j < reordered.len() && reordered[j] == batches[i];
            assert(reordered[j].contains(n));
        }
        if union_of(reordered).contains(n) {
            let i = choose|i: int| 0 <= i < reordered.len() && #[trigger] reordered[i].contains(n);
            assert(reordered.contains(reordered[i]));
            assert(reordered.to_multiset().count(reordered[i]) > 0);
            assert(batches.to_multiset().count(reordered[i]) > 0);
            let j = choose|j: int| 0 <= j < batches.len() && batches[j] == reordered[i];
            assert(batches[j].contains(n));
        }
    }
    assert(union_of(batches) =~= union_of(reordered));
}

/// The ConfigMap names that each scanned pod spec refers to, one batch per pod spec.
pub open spec fn config_map_batches(inv: Inventory) -> Seq<Set<Seq<char>>> {
    all_pod_specs(inv).map_values(|p: PodSpec| pod_spec_config_maps(p))
}

/// The Secret names that each pod spec, Ingress and ServiceAccount refers to,
/// one batch per object.
pub open spec fn secret_batches(inv: Inventory) -> Seq<Set<Seq<char>>> {
    all_pod_specs(inv).map_values(|p: PodSpec| pod_spec_secrets(p))
        + inv.ingresses@.map_values(|g: Ingress| ingress_secrets(g))
        + inv.service_accounts@.map_values(|sa: ServiceAccount| service_account_secrets(sa))
}

proof fn lemma_union_of_concat(a: Seq<Set<Seq<char>>>, b: Seq<Set<Seq<char>>>)
    ensures
        union_of(a + b) == union_of(a).union(union_of(b)),
{
    assert forall|n: Seq<char>| #[trigger] union_of(a + b).contains(n) <==> union_of(a).contains(n) || union_of(b).contains(n) by {
        if union_of(a + b).contains(n) {
            let i = choose|i: int| 0 <= i < (a + b).len() && #[trigger] (a + b)[i].contains(n);
            if i < a.len() {
                assert(a[i] == (a + b)[i]);
            } else {
                assert(b[i - a.len()] == (a + b)[i]);
            }
        }
        if union_of(a).contains(n) {
            let i = choose|i: int| 0 <= i < a.len() && #[trigger] a[i].contains(n);
            assert((a + b)[i] == a[i]);
        }
        if union_of(b).contains(n) {
            let i = choose|i: int| 0 <= i < b.len() && #[trigger] b[i].contains(n);
            assert((a + b)[a.len() + i] == b[i]);
        }
    }
    assert(union_of(a + b) =~= union_of(a).union(union_of(b)));
}

/// Scanning the objects one at a time, in any order, gives the orphan sets
/// that `find_orphans` reports: any permutation of the per-object batches of
/// ConfigMap names, and of Secret names, removed from the listed names.
pub proof fn lemma_any_scan_order_gives_orphans(
    inv: Inventory,
    config_map_order: Seq<Set<Seq<char>>>,
    secret_order: Seq<Set<Seq<char>>>,
)
    requires
        config_map_order.to_multiset() == config_map_batches(inv).to_multiset(),
        secret_order.to_multiset() == secret_batches(inv).to_multiset(),
    ensures
        reduce(config_map_names(inv.config_maps@), config_map_order).remove(ROOT_CA_CERT@) == config_map_orphans(inv),
        reduce(secret_names(inv.secrets@), secret_order) == secret_orphans(inv),
{
    let specs = all_pod_specs(inv);
    let cm_names = config_map_names(inv.config_maps@);
    let s_names = secret_names(inv.secrets@);
    lemma_reduce_order_independent(cm_names, config_map_batches(inv), config_map_order);
    lemma_reduce_removes_union(cm_names, config_map_batches(inv));
    assert(union_of(config_map_batches(inv)) =~= config_maps_referenced_by(specs)) by {
        let b = config_map_batches(inv);
        assert forall|n: Seq<char>| union_of(b).contains(n) implies config_maps_referenced_by(specs).contains(n) by {
            let i = choose|i: int| 0 <= i < b.len() && #[trigger] b[i].contains(n);
            assert(pod_spec_references_config_map(specs[i], n));
        }
        assert forall|n: Seq<char>| config_maps_referenced_by(specs).contains(n) implies union_of(b).contains(n) by {
            let i = choose|i: int| 0 <= i < specs.len() && pod_spec_references_config_map(#[trigger] specs[i], n);
            assert(b[i].contains(n));
        }
    }

    let pods_b = specs.map_values(|p: PodSpec| pod_spec_secrets(p));
    let ingress_b = inv.ingresses@.map_values(|g: Ingress| ingress_secrets(g));
    let sa_b = inv.service_accounts@.map_values(|sa: ServiceAccount| service_account_secrets(sa));
    lemma_reduce_order_independent(s_names, secret_batches(inv), secret_order);
    lemma_reduce_removes_union(s_names, secret_batches(inv));
    lemma_union_of_concat(pods_b, ingress_b);
    lemma_union_of_concat(pods_b + ingress_b, sa_b);
    assert(union_of(pods_b) =~= secrets_referenced_by(specs)) by {
        assert forall|n: Seq<char>| union_of(pods_b).contains(n) implies secrets_referenced_by(specs).contains(n) by {
            let i = choose|i: int| 0 <= i < pods_b.len() && #[trigger] pods_b[i].contains(n);
            assert(pod_spec_references_secret(specs[i], n));
        }
        assert forall|n: Seq<char>| secrets_referenced_by(specs).contains(n) implies union_of(pods_b).contains(n) by {
            let i = choose|i: int| 0 <= i < specs.len() && pod_spec_references_secret(#[trigger] specs[i], n);
            assert(pods_b[i].contains(n));
        }
    }
    assert(union_of(ingress_b) =~= secrets_of_ingresses(inv.ingresses@)) by {
        assert forall|n: Seq<char>| union_of(ingress_b).contains(n) implies secrets_of_ingresses(inv.ingresses@).contains(n) by {
            let i = choose|i: int| 0 <= i < ingress_b.len() && #[trigger] ingress_b[i].contains(n);
            assert(ingress_references_secret(inv.ingresses@[i], n));
        }
        assert forall|n: Seq<char>| secrets_of_ingresses(inv.ingresses@).contains(n) implies union_of(ingress_b).contains(n) by {
            let i = choose|i: int| 0 <= i < inv.ingresses@.len() && ingress_references_secret(#[trigger] inv.ingresses@[i], n);
            assert(ingress_b[i].contains(n));
        }
    }
    assert(union_of(sa_b) =~= secrets_of_service_accounts(inv.service_accounts@)) by {
        assert forall|n: Seq<char>| union_of(sa_b).contains(n) implies secrets_of_service_accounts(inv.service_accounts@).contains(n) by {
            let i = choose|i: int| 0 <= i < sa_b.len() && #[trigger] sa_b[i].contains(n);
            assert(service_account_references_secret(inv.service_accounts@[i], n));
        }
        assert forall|n: Seq<char>| secrets_of_service_accounts(inv.service_accounts@).contains(n) implies union_of(sa_b).contains(n) by {
            let i = choose|i: int|
                0 <= i < inv.service_accounts@.len() && service_account_references_secret(#[trigger] inv.service_accounts@[i], n);
            assert(sa_b[i].contains(n));
        }
    }
    assert(reduce(s_names, secret_order) =~= secret_orphans(inv));
}

} // verus!
