use kubex::candidates::CandidateSet;
use kubex::orphans::extend_with;
use kubex::pod_spec::{
    Container, CronJob, CronJobSpec, Deployment, DeploymentSpec, EnvFromSource, Job, JobSpec,
    JobTemplateSpec, LocalObjectReference, Pod, PodSpec, PodTemplateSpec, ReplicaSet, ReplicaSetSpec,
    ResourceWithPodSpec, Volume,
};
use kubex::references::{find_references_in_podspec, find_references_in_service_account};
use kubex::objects::ServiceAccount;

fn set_of(names: &[&str]) -> CandidateSet {
    let mut set = CandidateSet::new();
    for n in names {
        set.insert(n.to_string());
    }
    set
}

fn sorted(set: &CandidateSet) -> Vec<String> {
    let mut names = set.names();
    names.sort();
    names
}

#[test]
fn deployment_pod_spec() {
    let deployment_w_pod_spec = Deployment {
        spec: Some(DeploymentSpec {
            template: PodTemplateSpec {
                spec: Some(PodSpec { containers: vec![Container { env_from: vec![], env: vec![] }], volumes: vec![] }),
            },
        }),
    };
    let pod_spec_option: Option<&PodSpec> = deployment_w_pod_spec.pod_template_spec();
    assert!(pod_spec_option.is_some());
    assert!(std::ptr::eq(
        pod_spec_option.unwrap(),
        deployment_w_pod_spec.spec.as_ref().unwrap().template.spec.as_ref().unwrap()
    ));
}

#[test]
fn cron_job_pod_spec_goes_through_the_job_template() {
    let cron = CronJob {
        spec: Some(CronJobSpec {
            job_template: JobTemplateSpec {
                spec: Some(JobSpec { template: PodTemplateSpec { spec: Some(PodSpec { containers: vec![], volumes: vec![] }) } }),
            },
        }),
    };
    let found = cron.pod_template_spec().unwrap();
    let expected = cron.spec.as_ref().unwrap().job_template.spec.as_ref().unwrap().template.spec.as_ref().unwrap();
    assert!(std::ptr::eq(found, expected));
    let no_job = CronJob { spec: Some(CronJobSpec { job_template: JobTemplateSpec { spec: None } }) };
    assert!(no_job.pod_template_spec().is_none());
    assert!(CronJob { spec: None }.pod_template_spec().is_none());
}

#[test]
fn missing_links_give_no_pod_spec() {
    assert!(Deployment { spec: None }.pod_template_spec().is_none());
    assert!(Deployment { spec: Some(DeploymentSpec { template: PodTemplateSpec { spec: None } }) }
        .pod_template_spec()
        .is_none());
    assert!(ReplicaSet { spec: Some(ReplicaSetSpec { template: None }) }.pod_template_spec().is_none());
    assert!(Job { spec: None }.pod_template_spec().is_none());
    assert!(Pod { spec: None }.pod_template_spec().is_none());
}

#[test]
fn extend_with_keeps_order_and_skips_missing_specs() {
    let jobs = vec![
        Job { spec: Some(JobSpec { template: PodTemplateSpec { spec: Some(PodSpec { containers: vec![], volumes: vec![] }) } }) },
        Job { spec: None },
        Job { spec: Some(JobSpec { template: PodTemplateSpec { spec: Some(PodSpec { containers: vec![], volumes: vec![] }) } }) },
    ];
    let pods = vec![Pod { spec: Some(PodSpec { containers: vec![], volumes: vec![] }) }];
    let mut specs: Vec<&PodSpec> = Vec::new();
    extend_with(&mut specs, &jobs);
    extend_with(&mut specs, &pods);
    assert_eq!(specs.len(), 3);
    assert!(std::ptr::eq(specs[0], jobs[0].spec.as_ref().unwrap().template.spec.as_ref().unwrap()));
    assert!(std::ptr::eq(specs[1], jobs[2].spec.as_ref().unwrap().template.spec.as_ref().unwrap()));
    assert!(std::ptr::eq(specs[2], pods[0].spec.as_ref().unwrap()));
}

#[test]
fn pod_spec_scan_removes_each_kind_of_reference() {
    let spec = PodSpec {
        containers: vec![Container {
            env_from: vec![EnvFromSource {
                config_map_ref: Some(LocalObjectReference { name: Some("a".to_string()) }),
                secret_ref: Some(LocalObjectReference { name: Some("x".to_string()) }),
            }],
            env: vec![],
        }],
        volumes: vec![Volume {
            config_map: Some(LocalObjectReference { name: Some("b".to_string()) }),
            secret: Some(LocalObjectReference { name: Some("absent".to_string()) }),
        }],
    };
    let mut cms = set_of(&["a", "b", "c"]);
    let mut secrets = set_of(&["x", "y"]);
    find_references_in_podspec(&spec, &mut cms, &mut secrets);
    assert_eq!(sorted(&cms), vec!["c".to_string()]);
    assert_eq!(sorted(&secrets), vec!["y".to_string()]);
}

#[test]
fn service_account_scan_removes_listed_secrets() {
    let sa = ServiceAccount {
        image_pull_secrets: vec![LocalObjectReference { name: Some("registry".to_string()) }],
        secrets: vec![LocalObjectReference { name: None }, LocalObjectReference { name: Some("token".to_string()) }],
    };
    let mut secrets = set_of(&["registry", "token", "other"]);
    find_references_in_service_account(&sa, &mut secrets);
    assert_eq!(sorted(&secrets), vec!["other".to_string()]);
}
