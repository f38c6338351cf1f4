use vstd::prelude::*;

use crate::candidates::CandidateSet;
use crate::error::Error;
use crate::objects::{ConfigMap, Ingress, Secret, ServiceAccount};
use crate::pod_spec::{
    CronJob, DaemonSet, Deployment, Job, Pod, PodSpec, ReplicaSet, ReplicationController,
    ResourceWithPodSpec, StatefulSet,
};
use crate::references::{
    carries_name, find_references_in_ingress, find_references_in_podspec,
    find_references_in_service_account, ingress_references_secret, pod_spec_references_config_map,
    pod_spec_references_secret, service_account_references_secret,
};

verus! {

/// The ConfigMap that the cluster puts into every namespace for its root CA
/// certificate. It never counts as an orphan.
pub const ROOT_CA_CERT: &'static str = "kube-root-ca.crt";

/// Every object of the namespace that takes part in finding orphans.
pub struct Inventory {
    pub config_maps: Vec<ConfigMap>,
    pub secrets: Vec<Secret>,
    pub deployments: Vec<Deployment>,
    pub replica_sets: Vec<ReplicaSet>,
    pub stateful_sets: Vec<StatefulSet>,
    pub daemon_sets: Vec<DaemonSet>,
    pub jobs: Vec<Job>,
    pub cron_jobs: Vec<CronJob>,
    pub replication_controllers: Vec<ReplicationController>,
    pub pods: Vec<Pod>,
    pub ingresses: Vec<Ingress>,
    pub service_accounts: Vec<ServiceAccount>,
}

/// The outcome of listing each kind of object in the namespace.
pub struct Listings {
    pub config_maps: Result<Vec<ConfigMap>, Error>,
    pub secrets: Result<Vec<Secret>, Error>,
    pub deployments: Result<Vec<Deployment>, Error>,
    pub replica_sets: Result<Vec<ReplicaSet>, Error>,
    pub stateful_sets: Result<Vec<StatefulSet>, Error>,
    pub daemon_sets: Result<Vec<DaemonSet>, Error>,
    pub jobs: Result<Vec<Job>, Error>,
    pub cron_jobs: Result<Vec<CronJob>, Error>,
    pub replication_controllers: Result<Vec<ReplicationController>, Error>,
    pub pods: Result<Vec<Pod>, Error>,
    pub ingresses: Result<Vec<Ingress>, Error>,
    pub service_accounts: Result<Vec<ServiceAccount>, Error>,
}

/// The ConfigMaps and the Secrets that nothing refers to.
pub struct Orphans {
    pub configmaps: CandidateSet,
    pub secrets: CandidateSet,
}

impl Orphans {
    pub fn new(configmaps: CandidateSet, secrets: CandidateSet) -> (r: Orphans)
        ensures
            r.configmaps@ == configmaps@,
            r.secrets@ == secrets@,
    {
        Orphans { configmaps, secrets }
    }
}

/// The names of the ConfigMaps.
pub open spec fn config_map_names(cms: Seq<ConfigMap>) -> Set<Seq<char>> {
    Set::new(|n: Seq<char>| exists|i: int| 0 <= i < cms.len() && carries_name(#[trigger] cms[i].name, n))
}

/// The names of the Secrets.
pub open spec fn secret_names(secrets: Seq<Secret>) -> Set<Seq<char>> {
    Set::new(|n: Seq<char>| exists|i: int| 0 <= i < secrets.len() && carries_name(#[trigger] secrets[i].name, n))
}

/// The pod specs that the resources carry, in their order; a resource whose
/// chain to a pod spec is broken contributes none.
pub open spec fn pod_specs_of<T: ResourceWithPodSpec>(resources: Seq<T>) -> Seq<PodSpec>
    decreases resources.len(),
{
    if resources.len() == 0 {
        Seq::empty()
    } else {
        let rest = pod_specs_of(resources.drop_last());
        match resources.last().pod_template() {
            Some(p) => rest.push(p),
            None => rest,
        }
    }
}

/// The pod specs of all eight kinds of resource that carry one.
pub open spec fn all_pod_specs(inv: Inventory) -> Seq<PodSpec> {
    pod_specs_of(inv.deployments@) + pod_specs_of(inv.replica_sets@) + pod_specs_of(inv.stateful_sets@)
        + pod_specs_of(inv.daemon_sets@) + pod_specs_of(inv.jobs@) + pod_specs_of(inv.cron_jobs@)
        + pod_specs_of(inv.replication_controllers@) + pod_specs_of(inv.pods@)
}

/// The ConfigMap names that some of the pod specs refer to.
pub open spec fn config_maps_referenced_by(specs: Seq<PodSpec>) -> Set<Seq<char>> {
    Set::new(|n: Seq<char>| exists|i: int| 0 <= i < specs.len() && pod_spec_references_config_map(#[trigger] specs[i], n))
}

/// The Secret names that some of the pod specs refer to.
pub open spec fn secrets_referenced_by(specs: Seq<PodSpec>) -> Set<Seq<char>> {
    Set::new(|n: Seq<char>| exists|i: int| 0 <= i < specs.len() && pod_spec_references_secret(#[trigger] specs[i], n))
}

/// The Secret names that some of the Ingresses refer to.
pub open spec fn secrets_of_ingresses(ingresses: Seq<Ingress>) -> Set<Seq<char>> {
    Set::new(|n: Seq<char>| exists|i: int| 0 <= i < ingresses.len() && ingress_references_secret(#[trigger] ingresses[i], n))
}

/// The Secret names that some of the ServiceAccounts refer to.
pub open spec fn secrets_of_service_accounts(sas: Seq<ServiceAccount>) -> Set<Seq<char>> {
    Set::new(|n: Seq<char>| exists|i: int| 0 <= i < sas.len() && service_account_references_secret(#[trigger] sas[i], n))
}

/// The orphaned ConfigMaps: those that no pod spec refers to, save the root CA
/// certificate's.
pub open spec fn config_map_orphans(inv: Inventory) -> Set<Seq<char>> {
    config_map_names(inv.config_maps@).difference(config_maps_referenced_by(all_pod_specs(inv))).remove(
        ROOT_CA_CERT@,
    )
}

/// The orphaned Secrets: those that no pod spec, Ingress or ServiceAccount
/// refers to.
pub open spec fn secret_orphans(inv: Inventory) -> Set<Seq<char>> {
    secret_names(inv.secrets@).difference(secrets_referenced_by(all_pod_specs(inv))).difference(
        secrets_of_ingresses(inv.ingresses@),
    ).difference(secrets_of_service_accounts(inv.service_accounts@))
}

/// Appends to `pod_specs` the pod spec of each of `extensions` that carries one,
/// in order.
pub fn extend_with<'a, T: ResourceWithPodSpec>(pod_specs: &mut Vec<&'a PodSpec>, extensions: &'a [T])
    ensures
        final(pod_specs)@.map_values(|p: &PodSpec| *p) == old(pod_specs)@.map_values(|p: &PodSpec| *p)
            + pod_specs_of(extensions@),
{
    let mut i: usize = 0;
    while i < extensions.len()
        invariant
            i <= extensions@.len(),
            pod_specs@.map_values(|p: &PodSpec| *p) == old(pod_specs)@.map_values(|p: &PodSpec| *p)
                + pod_specs_of(extensions@.take(i as int)),
        decreases extensions@.len() - i,
    {
        let ghost prefix = extensions@.take(i as int + 1);
        assert(prefix.drop_last() =~= extensions@.take(i as int));
        assert(prefix.last() == extensions@[i as int]);
        let ghost before = pod_specs@;
        match extensions[i].pod_template_spec() {
            Some(p) => {
                pod_specs.push(p);
                assert(pod_specs@.map_values(|p: &PodSpec| *p) =~= before.map_values(|p: &PodSpec| *p).push(*p));
            },
            None => {},
        }
        assert(pod_specs@.map_values(|p: &PodSpec| *p) =~= old(pod_specs)@.map_values(|p: &PodSpec| *p)
            + pod_specs_of(prefix));
        i = i + 1;
    }
    assert(extensions@.take(extensions@.len() as int) =~= extensions@);
}


/// The names of the ConfigMaps, as the starting candidate set.
fn config_map_candidates(cms: &Vec<ConfigMap>) -> (r: CandidateSet)
    ensures
        r@ == config_map_names(cms@),
{
    let mut r = CandidateSet::new();
    let mut i: usize = 0;
    while i < cms.len()
        invariant
            i <= cms.len(),
            r@ == Set::new(|n: Seq<char>| exists|j: int| 0 <= j < i && carries_name(#[trigger] cms@[j].name, n)),
        decreases cms.len() - i,
    {
        match &cms[i].name {
            Some(name) => {
                r.insert(name.clone());
            },
            None => {},
        }
        assert(r@ =~= Set::new(|n: Seq<char>| exists|j: int| 0 <= j < i + 1 && carries_name(#[trigger] cms@[j].name, n)));
        i = i + 1;
    }
    assert(r@ =~= config_map_names(cms@));
    r
}

/// The names of the Secrets, as the starting candidate set.
fn secret_candidates(secrets: &Vec<Secret>) -> (r: CandidateSet)
    ensures
        r@ == secret_names(secrets@),
{
    let mut r = CandidateSet::new();
    let mut i: usize = 0;
    while i < secrets.len()
        invariant
            i <= secrets.len(),
            r@ == Set::new(|n: Seq<char>| exists|j: int| 0 <= j < i && carries_name(#[trigger] secrets@[j].name, n)),
        decreases secrets.len() - i,
    {
        match &secrets[i].name {
            Some(name) => {
                r.insert(name.clone());
            },
            None => {},
        }
        assert(r@ =~= Set::new(|n: Seq<char>| exists|j: int| 0 <= j < i + 1 && carries_name(#[trigger] secrets@[j].name, n)));
        i = i + 1;
    }
    assert(r@ =~= secret_names(secrets@));
    r
}

/// The orphans among the objects of `inventory`: the ConfigMaps that no pod
/// spec refers to, but for the root CA certificate's, and the Secrets that no
/// pod spec, Ingress or ServiceAccount refers to.
pub fn find_orphans_in(inventory: &Inventory) -> (r: Orphans)
    ensures
        r.configmaps@ == config_map_orphans(*inventory),
        r.secrets@ == secret_orphans(*inventory),
{
    let mut config_maps = config_map_candidates(&inventory.config_maps);
    let mut secrets = secret_candidates(&inventory.secrets);

    let mut pod_specs: Vec<&PodSpec> = Vec::new();
    extend_with(&mut pod_specs, inventory.deployments.as_slice());
    extend_with(&mut pod_specs, inventory.replica_sets.as_slice());
    extend_with(&mut pod_specs, inventory.stateful_sets.as_slice());
    extend_with(&mut pod_specs, inventory.daemon_sets.as_slice());
    extend_with(&mut pod_specs, inventory.jobs.as_slice());
    extend_with(&mut pod_specs, inventory.cron_jobs.as_slice());
    extend_with(&mut pod_specs, inventory.replication_controllers.as_slice());
    extend_with(&mut pod_specs, inventory.pods.as_slice());
    let ghost specs = pod_specs@.map_values(|p: &PodSpec| *p);
    assert(specs =~= all_pod_specs(*inventory));

    let ghost cm0 = config_maps@;
    let ghost s0 = secrets@;
    let mut i: usize = 0;
    while i < pod_specs.len()
        invariant
            i <= pod_specs.len(),
            specs == pod_specs@.map_values(|p: &PodSpec| *p),
            config_maps@ == cm0.difference(Set::new(|n: Seq<char>|
                exists|j: int| 0 <= j < i && pod_spec_references_config_map(#[trigger] specs[j], n))),
            secrets@ == s0.difference(Set::new(|n: Seq<char>|
                exists|j: int| 0 <= j < i && pod_spec_references_secret(#[trigger] specs[j], n))),
        decreases pod_specs.len() - i,
    {
        find_references_in_podspec(pod_specs[i], &mut config_maps, &mut secrets);
        assert(specs[i as int] == *pod_specs@[i as int]);
        assert(config_maps@ =~= cm0.difference(Set::new(|n: Seq<char>|
            exists|j: int| 0 <= j < i + 1 && pod_spec_references_config_map(#[trigger] specs[j], n))));
        assert(secrets@ =~= s0.difference(Set::new(|n: Seq<char>|
            exists|j: int| 0 <= j < i + 1 && pod_spec_references_secret(#[trigger] specs[j], n))));
        i = i + 1;
    }
    assert(config_maps@ =~= cm0.difference(config_maps_referenced_by(specs)));
    assert(secrets@ =~= s0.difference(secrets_referenced_by(specs)));

    let ghost s1 = secrets@;
    let mut i: usize = 0;
    while i < inventory.ingresses.len()
        invariant
            i <= inventory.ingresses.len(),
            secrets@ == s1.difference(Set::new(|n: Seq<char>|
                exists|j: int| 0 <= j < i && ingress_references_secret(#[trigger] inventory.ingresses@[j], n))),
        decreases inventory.ingresses.len() - i,
    {
        find_references_in_ingress(&inventory.ingresses[i], &mut secrets);
        assert(secrets@ =~= s1.difference(Set::new(|n: Seq<char>|
            exists|j: int| 0 <= j < i + 1 && ingress_references_secret(#[trigger] inventory.ingresses@[j], n))));
        i = i + 1;
    }
    assert(secrets@ =~= s1.difference(secrets_of_ingresses(inventory.ingresses@)));

    let ghost s2 = secrets@;
    let mut i: usize = 0;
    while i < inventory.service_accounts.len()
        invariant
            i <= inventory.service_accounts.len(),
            secrets@ == s2.difference(Set::new(|n: Seq<char>|
                exists|j: int| 0 <= j < i && service_account_references_secret(#[trigger] inventory.service_accounts@[j], n))),
        decreases inventory.service_accounts.len() - i,
    {
        find_references_in_service_account(&inventory.service_accounts[i], &mut secrets);
        assert(secrets@ =~= s2.difference(Set::new(|n: Seq<char>|
            exists|j: int| 0 <= j < i + 1 && service_account_references_secret(#[trigger] inventory.service_accounts@[j], n))));
        i = i + 1;
    }
    assert(secrets@ =~= s2.difference(secrets_of_service_accounts(inventory.service_accounts@)));

    config_maps.remove(ROOT_CA_CERT);
    Orphans::new(config_maps, secrets)
}


/// The error of the first kind, in the order of `Listings`' fields, whose
/// listing failed; `None` when every listing succeeded.
pub open spec fn first_failure(l: Listings) -> Option<Error> {
    if l.config_maps is Err {
        Some(l.config_maps->Err_0)
    } else if l.secrets is Err {
        Some(l.secrets->Err_0)
    } else if l.deployments is Err {
        Some(l.deployments->Err_0)
    } else if l.replica_sets is Err {
        Some(l.replica_sets->Err_0)
    } else if l.stateful_sets is Err {
        Some(l.stateful_sets->Err_0)
    } else if l.daemon_sets is Err {
        Some(l.daemon_sets->Err_0)
    } else if l.jobs is Err {
        Some(l.jobs->Err_0)
    } else if l.cron_jobs is Err {
        Some(l.cron_jobs->Err_0)
    } else if l.replication_controllers is Err {
        Some(l.replication_controllers->Err_0)
    } else if l.pods is Err {
        Some(l.pods->Err_0)
    } else if l.ingresses is Err {
        Some(l.ingresses->Err_0)
    } else if l.service_accounts is Err {
        Some(l.service_accounts->Err_0)
    } else {
        None
    }
}

/// The objects that the listings hold, where they succeeded.
pub open spec fn inventory_of(l: Listings) -> Inventory {
    Inventory {
        config_maps: l.config_maps->Ok_0,
        secrets: l.secrets->Ok_0,
        deployments: l.deployments->Ok_0,
        replica_sets: l.replica_sets->Ok_0,
        stateful_sets: l.stateful_sets->Ok_0,
        daemon_sets: l.daemon_sets->Ok_0,
        jobs: l.jobs->Ok_0,
        cron_jobs: l.cron_jobs->Ok_0,
        replication_controllers: l.replication_controllers->Ok_0,
        pods: l.pods->Ok_0,
        ingresses: l.ingresses->Ok_0,
        service_accounts: l.service_accounts->Ok_0,
    }
}

/// The orphans of the namespace whose objects `listings` holds. If listing
/// any kind failed, no report is made: the result is the error of the first
/// failed kind, in the order of `Listings`' fields.
pub fn find_orphans(listings: Listings) -> (r: Result<Orphans, Error>)
    ensures
        match r {
            Ok(o) => {
                &&& first_failure(listings) is None
                &&& o.configmaps@ == config_map_orphans(inventory_of(listings))
                &&& o.secrets@ == secret_orphans(inventory_of(listings))
            },
            Err(e) => first_failure(listings) == Some(e),
        },
{
    let Listings {
        config_maps,
        secrets,
        deployments,
        replica_sets,
        stateful_sets,
        daemon_sets,
        jobs,
        cron_jobs,
        replication_controllers,
        pods,
        ingresses,
        service_accounts,
    } = listings;
    let config_maps = match config_maps {
        Ok(v) => v,
        Err(e) => return Err(e),
    };
    let secrets = match secrets {
        Ok(v) => v,
        Err(e) => return Err(e),
    };
    let deployments = match deployments {
        Ok(v) => v,
        Err(e) => return Err(e),
    };
    let replica_sets = match replica_sets {
        Ok(v) => v,
        Err(e) => return Err(e),
    };
    let stateful_sets = match stateful_sets {
        Ok(v) => v,
        Err(e) => return Err(e),
    };
    let daemon_sets = match daemon_sets {
        Ok(v) => v,
        Err(e) => return Err(e),
    };
    let jobs = match jobs {
        Ok(v) => v,
        Err(e) => return Err(e),
    };
    let cron_jobs = match cron_jobs {
        Ok(v) => v,
        Err(e) => return Err(e),
    };
    let replication_controllers = match replication_controllers {
        Ok(v) => v,
        Err(e) => return Err(e),
    };
    let pods = match pods {
        Ok(v) => v,
        Err(e) => return Err(e),
    };
    let ingresses = match ingresses {
        Ok(v) => v,
        Err(e) => return Err(e),
    };
    let service_accounts = match service_accounts {
        Ok(v) => v,
        Err(e) => return Err(e),
    };
    let inventory = Inventory {
        config_maps,
        secrets,
        deployments,
        replica_sets,
        stateful_sets,
        daemon_sets,
        jobs,
        cron_jobs,
        replication_controllers,
        pods,
        ingresses,
        service_accounts,
    };
    Ok(find_orphans_in(&inventory))
}

} // verus!
