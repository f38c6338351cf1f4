use vstd::prelude::*;

use crate::candidates::CandidateSet;
use crate::objects::{Ingress, ServiceAccount};
use crate::pod_spec::{Container, EnvVar, LocalObjectReference, PodSpec};

verus! {

/// The optional name is present and is `n`.
pub open spec fn carries_name(name: Option<String>, n: Seq<char>) -> bool {
    match name {
        Some(s) => s@ == n,
        None => false,
    }
}

/// `r` is present and carries the name `n`.
pub open spec fn names_object(r: Option<LocalObjectReference>, n: Seq<char>) -> bool {
    match r {
        Some(x) => carries_name(x.name, n),
        None => false,
    }
}

/// The variable takes a value from one key of the ConfigMap named `n`.
pub open spec fn env_var_references_config_map(v: EnvVar, n: Seq<char>) -> bool {
    match v.value_from {
        Some(src) => names_object(src.config_map_key_ref, n),
        None => false,
    }
}

/// The variable takes a value from one key of the Secret named `n`.
pub open spec fn env_var_references_secret(v: EnvVar, n: Seq<char>) -> bool {
    match v.value_from {
        Some(src) => names_object(src.secret_key_ref, n),
        None => false,
    }
}

/// The container names the ConfigMap `n` in an `envFrom` entry or in an
/// environment variable's `valueFrom`.
pub open spec fn container_references_config_map(c: Container, n: Seq<char>) -> bool {
    ||| exists|i: int| 0 <= i < c.env_from.len() && names_object(#[trigger] c.env_from@[i].config_map_ref, n)
    ||| exists|i: int| 0 <= i < c.env.len() && env_var_references_config_map(#[trigger] c.env@[i], n)
}

/// The container names the Secret `n` in an `envFrom` entry or in an
/// environment variable's `valueFrom`.
pub open spec fn container_references_secret(c: Container, n: Seq<char>) -> bool {
    ||| exists|i: int| 0 <= i < c.env_from.len() && names_object(#[trigger] c.env_from@[i].secret_ref, n)
    ||| exists|i: int| 0 <= i < c.env.len() && env_var_references_secret(#[trigger] c.env@[i], n)
}

/// Some container of the pod spec, or one of its volumes, names the ConfigMap `n`.
pub open spec fn pod_spec_references_config_map(p: PodSpec, n: Seq<char>) -> bool {
    ||| exists|i: int| 0 <= i < p.containers.len() && container_references_config_map(#[trigger] p.containers@[i], n)
    ||| exists|i: int| 0 <= i < p.volumes.len() && names_object(#[trigger] p.volumes@[i].config_map, n)
}

/// Some container of the pod spec, or one of its volumes, names the Secret `n`.
pub open spec fn pod_spec_references_secret(p: PodSpec, n: Seq<char>) -> bool {
    ||| exists|i: int| 0 <= i < p.containers.len() && container_references_secret(#[trigger] p.containers@[i], n)
    ||| exists|i: int| 0 <= i < p.volumes.len() && names_object(#[trigger] p.volumes@[i].secret, n)
}

/// The ConfigMap names that a pod spec refers to.
pub open spec fn pod_spec_config_maps(p: PodSpec) -> Set<Seq<char>> {
    Set::new(|n: Seq<char>| pod_spec_references_config_map(p, n))
}

/// The Secret names that a pod spec refers to.
pub open spec fn pod_spec_secrets(p: PodSpec) -> Set<Seq<char>> {
    Set::new(|n: Seq<char>| pod_spec_references_secret(p, n))
}

/// The name that `r` carries, as a set of zero or one names.
pub open spec fn named_by(r: Option<LocalObjectReference>) -> Set<Seq<char>> {
    Set::new(|n: Seq<char>| names_object(r, n))
}

/// Removes `name` from `names`, if it is present.
fn remove_name(name: &Option<String>, names: &mut CandidateSet)
    ensures
        final(names)@ == old(names)@.difference(Set::new(|n: Seq<char>| carries_name(*name, n))),
{
    match name {
        Some(s) => {
            names.remove(s.as_str());
        },
        None => {},
    }
    assert(names@ =~= old(names)@.difference(Set::new(|n: Seq<char>| carries_name(*name, n))));
}

/// Removes from `names` the name that `r` carries, if any.
fn remove_named(r: &Option<LocalObjectReference>, names: &mut CandidateSet)
    ensures
        final(names)@ == old(names)@.difference(named_by(*r)),
{
    match r {
        Some(x) => {
            remove_name(&x.name, names);
        },
        None => {},
    }
    assert(names@ =~= old(names)@.difference(named_by(*r)));
}


/// The ConfigMap names that a container refers to.
pub open spec fn container_config_maps(c: Container) -> Set<Seq<char>> {
    Set::new(|n: Seq<char>| container_references_config_map(c, n))
}

/// The Secret names that a container refers to.
pub open spec fn container_secrets(c: Container) -> Set<Seq<char>> {
    Set::new(|n: Seq<char>| container_references_secret(c, n))
}

/// Removes from the candidate sets every name that the container refers to.
fn scan_container(c: &Container, config_maps: &mut CandidateSet, secrets: &mut CandidateSet)
    ensures
        final(config_maps)@ == old(config_maps)@.difference(container_config_maps(*c)),
        final(secrets)@ == old(secrets)@.difference(container_secrets(*c)),
{
    let ghost cm0 = config_maps@;
    let ghost s0 = secrets@;
    let mut i: usize = 0;
    while i < c.env_from.len()
        invariant
            i <= c.env_from.len(),
            config_maps@ == cm0.difference(Set::new(|n: Seq<char>|
                exists|j: int| 0 <= j < i && names_object(#[trigger] c.env_from@[j].config_map_ref, n))),
            secrets@ == s0.difference(Set::new(|n: Seq<char>|
                exists|j: int| 0 <= j < i && names_object(#[trigger] c.env_from@[j].secret_ref, n))),
        decreases c.env_from.len() - i,
    {
        let ghost cm1 = config_maps@;
        let ghost s1 = secrets@;
        remove_named(&c.env_from[i].config_map_ref, config_maps);
        remove_named(&c.env_from[i].secret_ref, secrets);
        assert(config_maps@ =~= cm0.difference(Set::new(|n: Seq<char>|
            exists|j: int| 0 <= j < i + 1 && names_object(#[trigger] c.env_from@[j].config_map_ref, n))));
        assert(secrets@ =~= s0.difference(Set::new(|n: Seq<char>|
            exists|j: int| 0 <= j < i + 1 && names_object(#[trigger] c.env_from@[j].secret_ref, n))));
        i = i + 1;
    }
    let ghost cm_env_from = config_maps@;
    let ghost s_env_from = secrets@;
    let mut i: usize = 0;
    while i < c.env.len()
        invariant
            i <= c.env.len(),
            config_maps@ == cm_env_from.difference(Set::new(|n: Seq<char>|
                exists|j: int| 0 <= j < i && env_var_references_config_map(#[trigger] c.env@[j], n))),
            secrets@ == s_env_from.difference(Set::new(|n: Seq<char>|
                exists|j: int| 0 <= j < i && env_var_references_secret(#[trigger] c.env@[j], n))),
        decreases c.env.len() - i,
    {
        match &c.env[i].value_from {
            Some(src) => {
                remove_named(&src.config_map_key_ref, config_maps);
                remove_named(&src.secret_key_ref, secrets);
            },
            None => {},
        }
        assert(config_maps@ =~= cm_env_from.difference(Set::new(|n: Seq<char>|
            exists|j: int| 0 <= j < i + 1 && env_var_references_config_map(#[trigger] c.env@[j], n))));
        assert(secrets@ =~= s_env_from.difference(Set::new(|n: Seq<char>|
            exists|j: int| 0 <= j < i + 1 && env_var_references_secret(#[trigger] c.env@[j], n))));
        i = i + 1;
    }
    assert(config_maps@ =~= cm0.difference(container_config_maps(*c)));
    assert(secrets@ =~= s0.difference(container_secrets(*c)));
}

/// Removes from the candidate sets every ConfigMap and Secret name that the pod
/// spec refers to: in a container's `envFrom` entries, in its variables'
/// `valueFrom`, or in a volume. A reference without a name removes nothing.
pub fn find_references_in_podspec(
    pod_spec: &PodSpec,
    config_maps: &mut CandidateSet,
    secrets: &mut CandidateSet,
)
    ensures
        final(config_maps)@ == old(config_maps)@.difference(pod_spec_config_maps(*pod_spec)),
        final(secrets)@ == old(secrets)@.difference(pod_spec_secrets(*pod_spec)),
{
    let ghost cm0 = config_maps@;
    let ghost s0 = secrets@;
    let mut i: usize = 0;
    while i < pod_spec.containers.len()
        invariant
            i <= pod_spec.containers.len(),
            config_maps@ == cm0.difference(Set::new(|n: Seq<char>|
                exists|j: int| 0 <= j < i && container_references_config_map(#[trigger] pod_spec.containers@[j], n))),
            secrets@ == s0.difference(Set::new(|n: Seq<char>|
                exists|j: int| 0 <= j < i && container_references_secret(#[trigger] pod_spec.containers@[j], n))),
        decreases pod_spec.containers.len() - i,
    {
        scan_container(&pod_spec.containers[i], config_maps, secrets);
        assert(config_maps@ =~= cm0.difference(Set::new(|n: Seq<char>|
            exists|j: int| 0 <= j < i + 1 && container_references_config_map(#[trigger] pod_spec.containers@[j], n))));
        assert(secrets@ =~= s0.difference(Set::new(|n: Seq<char>|
            exists|j: int| 0 <= j < i + 1 && container_references_secret(#[trigger] pod_spec.containers@[j], n))));
        i = i + 1;
    }
    let ghost cm_containers = config_maps@;
    let ghost s_containers = secrets@;
    let mut i: usize = 0;
    while i < pod_spec.volumes.len()
        invariant
            i <= pod_spec.volumes.len(),
            config_maps@ == cm_containers.difference(Set::new(|n: Seq<char>|
                exists|j: int| 0 <= j < i && names_object(#[trigger] pod_spec.volumes@[j].config_map, n))),
            secrets@ == s_containers.difference(Set::new(|n: Seq<char>|
                exists|j: int| 0 <= j < i && names_object(#[trigger] pod_spec.volumes@[j].secret, n))),
        decreases pod_spec.volumes.len() - i,
    {
        remove_named(&pod_spec.volumes[i].config_map, config_maps);
        remove_named(&pod_spec.volumes[i].secret, secrets);
        assert(config_maps@ =~= cm_containers.difference(Set::new(|n: Seq<char>|
            exists|j: int| 0 <= j < i + 1 && names_object(#[trigger] pod_spec.volumes@[j].config_map, n))));
        assert(secrets@ =~= s_containers.difference(Set::new(|n: Seq<char>|
            exists|j: int| 0 <= j < i + 1 && names_object(#[trigger] pod_spec.volumes@[j].secret, n))));
        i = i + 1;
    }
    assert(config_maps@ =~= cm0.difference(pod_spec_config_maps(*pod_spec)));
    assert(secrets@ =~= s0.difference(pod_spec_secrets(*pod_spec)));
}


/// Some TLS entry of the Ingress names the Secret `n`.
pub open spec fn ingress_references_secret(ingress: Ingress, n: Seq<char>) -> bool {
    match ingress.spec {
        Some(s) => exists|i: int| 0 <= i < s.tls.len() && carries_name(#[trigger] s.tls@[i].secret_name, n),
        None => false,
    }
}

/// The ServiceAccount names the Secret `n` among its image pull secrets or its
/// mountable secrets.
pub open spec fn service_account_references_secret(sa: ServiceAccount, n: Seq<char>) -> bool {
    ||| exists|i: int| 0 <= i < sa.image_pull_secrets.len() && carries_name(#[trigger] sa.image_pull_secrets@[i].name, n)
    ||| exists|i: int| 0 <= i < sa.secrets.len() && carries_name(#[trigger] sa.secrets@[i].name, n)
}

/// The Secret names that an Ingress refers to.
pub open spec fn ingress_secrets(ingress: Ingress) -> Set<Seq<char>> {
    Set::new(|n: Seq<char>| ingress_references_secret(ingress, n))
}

/// The Secret names that a ServiceAccount refers to.
pub open spec fn service_account_secrets(sa: ServiceAccount) -> Set<Seq<char>> {
    Set::new(|n: Seq<char>| service_account_references_secret(sa, n))
}

/// Removes from `secrets` every Secret name in the TLS entries of the Ingress.
/// An Ingress without a spec refers to nothing.
pub fn find_references_in_ingress(ingress: &Ingress, secrets: &mut CandidateSet)
    ensures
        final(secrets)@ == old(secrets)@.difference(ingress_secrets(*ingress)),
{
    match &ingress.spec {
        Some(spec) => {
            let mut i: usize = 0;
            while i < spec.tls.len()
                invariant
                    i <= spec.tls.len(),
                    secrets@ == old(secrets)@.difference(Set::new(|n: Seq<char>|
                        exists|j: int| 0 <= j < i && carries_name(#[trigger] spec.tls@[j].secret_name, n))),
                decreases spec.tls.len() - i,
            {
                remove_name(&spec.tls[i].secret_name, secrets);
                assert(secrets@ =~= old(secrets)@.difference(Set::new(|n: Seq<char>|
                    exists|j: int| 0 <= j < i + 1 && carries_name(#[trigger] spec.tls@[j].secret_name, n))));
                i = i + 1;
            }
        },
        None => {},
    }
    assert(secrets@ =~= old(secrets)@.difference(ingress_secrets(*ingress)));
}

/// Removes from `secrets` every Secret name that the ServiceAccount lists,
/// among its image pull secrets and its mountable secrets.
pub fn find_references_in_service_account(sa: &ServiceAccount, secrets: &mut CandidateSet)
    ensures
        final(secrets)@ == old(secrets)@.difference(service_account_secrets(*sa)),
{
    let mut i: usize = 0;
    while i < sa.image_pull_secrets.len()
        invariant
            i <= sa.image_pull_secrets.len(),
            secrets@ == old(secrets)@.difference(Set::new(|n: Seq<char>|
                exists|j: int| 0 <= j < i && carries_name(#[trigger] sa.image_pull_secrets@[j].name, n))),
        decreases sa.image_pull_secrets.len() - i,
    {
        remove_name(&sa.image_pull_secrets[i].name, secrets);
        assert(secrets@ =~= old(secrets)@.difference(Set::new(|n: Seq<char>|
            exists|j: int| 0 <= j < i + 1 && carries_name(#[trigger] sa.image_pull_secrets@[j].name, n))));
        i = i + 1;
    }
    let ghost after_pull = secrets@;
    let mut i: usize = 0;
    while i < sa.secrets.len()
        invariant
            i <= sa.secrets.len(),
            secrets@ == after_pull.difference(Set::new(|n: Seq<char>|
                exists|j: int| 0 <= j < i && carries_name(#[trigger] sa.secrets@[j].name, n))),
        decreases sa.secrets.len() - i,
    {
        remove_name(&sa.secrets[i].name, secrets);
        assert(secrets@ =~= after_pull.difference(Set::new(|n: Seq<char>|
            exists|j: int| 0 <= j < i + 1 && carries_name(#[trigger] sa.secrets@[j].name, n))));
        i = i + 1;
    }
    assert(secrets@ =~= old(secrets)@.difference(service_account_secrets(*sa)));
}

} // verus!
