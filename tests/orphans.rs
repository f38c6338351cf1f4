use kubex::candidates::CandidateSet;
use kubex::error::{Error, ResourceKind};
use kubex::objects::{ConfigMap, Ingress, IngressSpec, IngressTLS, Secret, ServiceAccount};
use kubex::orphans::{find_orphans, find_orphans_in, Inventory, Listings, Orphans, ROOT_CA_CERT};
use kubex::pod_spec::{
    Container, CronJob, CronJobSpec, DaemonSet, DaemonSetSpec, Deployment, DeploymentSpec, EnvFromSource,
    EnvVar, EnvVarSource, Job, JobSpec, JobTemplateSpec, LocalObjectReference, Pod, PodSpec,
    PodTemplateSpec, ReplicaSet, ReplicaSetSpec, ReplicationController, ReplicationControllerSpec,
    StatefulSet, StatefulSetSpec, Volume,
};

fn named(name: &str) -> Option<LocalObjectReference> {
    Some(LocalObjectReference { name: Some(name.to_string()) })
}

fn config_map(name: &str) -> ConfigMap {
    ConfigMap { name: Some(name.to_string()) }
}

fn secret(name: &str) -> Secret {
    Secret { name: Some(name.to_string()) }
}

fn env_from_config_map(name: &str) -> EnvFromSource {
    EnvFromSource { config_map_ref: named(name), secret_ref: None }
}

fn env_from_secret(name: &str) -> EnvFromSource {
    EnvFromSource { config_map_ref: None, secret_ref: named(name) }
}

fn container(env_from: Vec<EnvFromSource>, env: Vec<EnvVar>) -> Container {
    Container { env_from, env }
}

fn pod_spec(containers: Vec<Container>, volumes: Vec<Volume>) -> PodSpec {
    PodSpec { containers, volumes }
}

fn deployment(spec: PodSpec) -> Deployment {
    Deployment { spec: Some(DeploymentSpec { template: PodTemplateSpec { spec: Some(spec) } }) }
}

fn empty_inventory() -> Inventory {
    Inventory {
        config_maps: vec![],
        secrets: vec![],
        deployments: vec![],
        replica_sets: vec![],
        stateful_sets: vec![],
        daemon_sets: vec![],
        jobs: vec![],
        cron_jobs: vec![],
        replication_controllers: vec![],
        pods: vec![],
        ingresses: vec![],
        service_accounts: vec![],
    }
}

fn listings(inv: Inventory) -> Listings {
    Listings {
        config_maps: Ok(inv.config_maps),
        secrets: Ok(inv.secrets),
        deployments: Ok(inv.deployments),
        replica_sets: Ok(inv.replica_sets),
        stateful_sets: Ok(inv.stateful_sets),
        daemon_sets: Ok(inv.daemon_sets),
        jobs: Ok(inv.jobs),
        cron_jobs: Ok(inv.cron_jobs),
        replication_controllers: Ok(inv.replication_controllers),
        pods: Ok(inv.pods),
        ingresses: Ok(inv.ingresses),
        service_accounts: Ok(inv.service_accounts),
    }
}

fn sorted(set: &CandidateSet) -> Vec<String> {
    let mut names = set.names();
    names.sort();
    names
}

fn strings(names: &[&str]) -> Vec<String> {
    names.iter().map(|n| n.to_string()).collect()
}

fn report(inv: Inventory) -> Orphans {
    find_orphans(listings(inv)).expect("every listing succeeded")
}

#[test]
fn cfgmap_secret_referenced_by_deployment() {
    let mut inv = empty_inventory();
    inv.config_maps = vec![config_map("configmap")];
    inv.secrets = vec![secret("secret")];
    inv.deployments = vec![deployment(pod_spec(
        vec![container(vec![env_from_config_map("configmap"), env_from_secret("secret")], vec![])],
        vec![],
    ))];
    let orphans = report(inv);
    assert!(!orphans.configmaps.contains("configmap"));
    assert!(!orphans.secrets.contains("secret"));
}

#[test]
fn cfgmap_secret_orphans() {
    let mut inv = empty_inventory();
    inv.config_maps = vec![config_map("orphan-cfgmap")];
    inv.secrets = vec![secret("orphan-secret")];
    let orphans = report(inv);
    assert!(orphans.configmaps.contains("orphan-cfgmap"));
    assert!(orphans.secrets.contains("orphan-secret"));
}

#[test]
fn cfgmap_secret_not_referenced_no_envfrom() {
    let mut inv = empty_inventory();
    inv.config_maps = vec![config_map("configmap-not-linked-no-envfrom")];
    inv.secrets = vec![secret("secret-not-linked-no-envfrom")];
    inv.deployments = vec![deployment(pod_spec(vec![container(vec![], vec![])], vec![]))];
    let orphans = report(inv);
    assert!(orphans.configmaps.contains("configmap-not-linked-no-envfrom"));
    assert!(orphans.secrets.contains("secret-not-linked-no-envfrom"));
}

#[test]
fn env_from_and_secret_volume_leave_no_orphans() {
    let mut inv = empty_inventory();
    inv.config_maps = vec![config_map("cm1")];
    inv.secrets = vec![secret("s1")];
    inv.deployments = vec![deployment(pod_spec(
        vec![container(vec![env_from_config_map("cm1")], vec![])],
        vec![Volume { config_map: None, secret: named("s1") }],
    ))];
    let orphans = report(inv);
    assert!(sorted(&orphans.configmaps).is_empty());
    assert!(sorted(&orphans.secrets).is_empty());
}

#[test]
fn unreferenced_objects_are_all_orphans() {
    let mut inv = empty_inventory();
    inv.config_maps = vec![config_map("cm-orphan")];
    inv.secrets = vec![secret("s-orphan")];
    let orphans = report(inv);
    assert_eq!(sorted(&orphans.configmaps), strings(&["cm-orphan"]));
    assert_eq!(sorted(&orphans.secrets), strings(&["s-orphan"]));
}

#[test]
fn failed_pod_listing_gives_no_report() {
    let mut l = listings(empty_inventory());
    l.config_maps = Ok(vec![config_map("cm")]);
    l.pods = Err(Error::KubeError { kind: ResourceKind::Pod, message: "connection refused".to_string() });
    let r = find_orphans(l);
    assert!(r.is_err());
    assert_eq!(
        r.err(),
        Some(Error::KubeError { kind: ResourceKind::Pod, message: "connection refused".to_string() })
    );
}

#[test]
fn first_failed_kind_is_reported() {
    let mut l = listings(empty_inventory());
    l.service_accounts =
        Err(Error::KubeError { kind: ResourceKind::ServiceAccount, message: "forbidden".to_string() });
    l.secrets = Err(Error::KubeError { kind: ResourceKind::Secret, message: "timeout".to_string() });
    assert_eq!(
        find_orphans(l).err(),
        Some(Error::KubeError { kind: ResourceKind::Secret, message: "timeout".to_string() })
    );
}

#[test]
fn root_ca_cert_is_never_an_orphan() {
    let mut inv = empty_inventory();
    inv.config_maps = vec![config_map(ROOT_CA_CERT), config_map("other")];
    let orphans = report(inv);
    assert!(!orphans.configmaps.contains("kube-root-ca.crt"));
    assert_eq!(sorted(&orphans.configmaps), strings(&["other"]));
}

#[test]
fn value_from_key_references_are_found() {
    let mut inv = empty_inventory();
    inv.config_maps = vec![config_map("settings"), config_map("unused")];
    inv.secrets = vec![secret("password"), secret("spare")];
    let vars = vec![
        EnvVar {
            value_from: Some(EnvVarSource { config_map_key_ref: named("settings"), secret_key_ref: None }),
        },
        EnvVar { value_from: None },
        EnvVar {
            value_from: Some(EnvVarSource { config_map_key_ref: None, secret_key_ref: named("password") }),
        },
    ];
    inv.pods = vec![Pod { spec: Some(pod_spec(vec![container(vec![], vars)], vec![])) }];
    let orphans = report(inv);
    assert_eq!(sorted(&orphans.configmaps), strings(&["unused"]));
    assert_eq!(sorted(&orphans.secrets), strings(&["spare"]));
}

#[test]
fn config_map_volume_is_a_reference() {
    let mut inv = empty_inventory();
    inv.config_maps = vec![config_map("mounted")];
    inv.stateful_sets = vec![StatefulSet {
        spec: Some(StatefulSetSpec {
            template: PodTemplateSpec {
                spec: Some(pod_spec(vec![], vec![Volume { config_map: named("mounted"), secret: None }])),
            },
        }),
    }];
    assert!(sorted(&report(inv).configmaps).is_empty());
}

#[test]
fn every_workload_kind_is_scanned() {
    let uses = |cm: &str| Some(pod_spec(vec![container(vec![env_from_config_map(cm)], vec![])], vec![]));
    let mut inv = empty_inventory();
    inv.config_maps = ["rs", "ss", "ds", "job", "cron", "rc", "pod", "left"].iter().map(|n| config_map(n)).collect();
    inv.replica_sets = vec![ReplicaSet {
        spec: Some(ReplicaSetSpec { template: Some(PodTemplateSpec { spec: uses("rs") }) }),
    }];
    inv.stateful_sets =
        vec![StatefulSet { spec: Some(StatefulSetSpec { template: PodTemplateSpec { spec: uses("ss") } }) }];
    inv.daemon_sets =
        vec![DaemonSet { spec: Some(DaemonSetSpec { template: PodTemplateSpec { spec: uses("ds") } }) }];
    inv.jobs = vec![Job { spec: Some(JobSpec { template: PodTemplateSpec { spec: uses("job") } }) }];
    inv.cron_jobs = vec![CronJob {
        spec: Some(CronJobSpec {
            job_template: JobTemplateSpec {
                spec: Some(JobSpec { template: PodTemplateSpec { spec: uses("cron") } }),
            },
        }),
    }];
    inv.replication_controllers = vec![ReplicationController {
        spec: Some(ReplicationControllerSpec { template: Some(PodTemplateSpec { spec: uses("rc") }) }),
    }];
    inv.pods = vec![Pod { spec: uses("pod") }];
    assert_eq!(sorted(&report(inv).configmaps), strings(&["left"]));
}

#[test]
fn broken_pod_template_chains_refer_to_nothing() {
    let mut inv = empty_inventory();
    inv.config_maps = vec![config_map("cm")];
    inv.deployments = vec![Deployment { spec: None }];
    inv.replica_sets = vec![ReplicaSet { spec: Some(ReplicaSetSpec { template: None }) }];
    inv.cron_jobs = vec![CronJob { spec: Some(CronJobSpec { job_template: JobTemplateSpec { spec: None } }) }];
    inv.pods = vec![Pod { spec: None }];
    assert_eq!(sorted(&report(inv).configmaps), strings(&["cm"]));
}

#[test]
fn ingress_tls_and_service_account_secrets_are_references() {
    let mut inv = empty_inventory();
    inv.secrets = ["tls", "pull", "token", "free"].iter().map(|n| secret(n)).collect();
    inv.ingresses = vec![
        Ingress {
            spec: Some(IngressSpec {
                tls: vec![IngressTLS { secret_name: None }, IngressTLS { secret_name: Some("tls".to_string()) }],
            }),
        },
        Ingress { spec: None },
    ];
    inv.service_accounts = vec![ServiceAccount {
        image_pull_secrets: vec![LocalObjectReference { name: Some("pull".to_string()) }],
        secrets: vec![LocalObjectReference { name: Some("token".to_string()) }],
    }];
    assert_eq!(sorted(&report(inv).secrets), strings(&["free"]));
}

#[test]
fn reference_without_a_name_removes_nothing() {
    let mut inv = empty_inventory();
    inv.config_maps = vec![config_map("cm")];
    inv.secrets = vec![secret("")];
    let nameless = EnvFromSource {
        config_map_ref: Some(LocalObjectReference { name: None }),
        secret_ref: Some(LocalObjectReference { name: None }),
    };
    inv.deployments = vec![deployment(pod_spec(vec![container(vec![nameless], vec![])], vec![]))];
    let orphans = report(inv);
    assert_eq!(sorted(&orphans.configmaps), strings(&["cm"]));
    assert_eq!(sorted(&orphans.secrets), strings(&[""]));
}

#[test]
fn names_are_independent_across_kinds() {
    let mut inv = empty_inventory();
    inv.config_maps = vec![config_map("shared")];
    inv.secrets = vec![secret("shared")];
    inv.deployments =
        vec![deployment(pod_spec(vec![container(vec![env_from_config_map("shared")], vec![])], vec![]))];
    let orphans = report(inv);
    assert!(!orphans.configmaps.contains("shared"));
    assert!(orphans.secrets.contains("shared"));
}

#[test]
fn nameless_and_repeated_objects_are_listed_once() {
    let mut inv = empty_inventory();
    inv.config_maps = vec![config_map("a"), ConfigMap { name: None }, config_map("a")];
    assert_eq!(sorted(&report(inv).configmaps), strings(&["a"]));
}

fn sample_inventory(reverse: bool) -> Inventory {
    let mut inv = empty_inventory();
    inv.config_maps = vec![config_map("c1"), config_map("c2"), config_map("c3")];
    inv.secrets = vec![secret("s1"), secret("s2"), secret("s3")];
    inv.deployments = vec![
        deployment(pod_spec(vec![container(vec![env_from_config_map("c1")], vec![])], vec![])),
        deployment(pod_spec(vec![container(vec![env_from_secret("s2")], vec![])], vec![])),
    ];
    inv.pods = vec![Pod { spec: Some(pod_spec(vec![], vec![Volume { config_map: named("c3"), secret: None }])) }];
    if reverse {
        inv.config_maps.reverse();
        inv.secrets.reverse();
        inv.deployments.reverse();
    }
    inv
}

#[test]
fn asking_twice_gives_the_same_report() {
    let first = report(sample_inventory(false));
    let second = report(sample_inventory(false));
    assert_eq!(sorted(&first.configmaps), sorted(&second.configmaps));
    assert_eq!(sorted(&first.secrets), sorted(&second.secrets));
    assert_eq!(sorted(&first.configmaps), strings(&["c2"]));
    assert_eq!(sorted(&first.secrets), strings(&["s1", "s3"]));
}

#[test]
fn listing_order_does_not_matter() {
    let forward = find_orphans_in(&sample_inventory(false));
    let backward = find_orphans_in(&sample_inventory(true));
    assert_eq!(sorted(&forward.configmaps), sorted(&backward.configmaps));
    assert_eq!(sorted(&forward.secrets), sorted(&backward.secrets));
}

#[test]
fn orphans_new_keeps_both_sets() {
    let mut cms = CandidateSet::new();
    cms.insert("c".to_string());
    let secrets = CandidateSet::new();
    let orphans = Orphans::new(cms, secrets);
    assert_eq!(sorted(&orphans.configmaps), strings(&["c"]));
    assert!(sorted(&orphans.secrets).is_empty());
}
