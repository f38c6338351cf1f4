use vstd::prelude::*;

verus! {

/// A reference by name to an object in the same namespace, as it stands in a
/// pod spec or a ServiceAccount. A reference without a name names nothing.
pub struct LocalObjectReference {
    pub name: Option<String>,
}

/// One `envFrom` entry of a container: a whole ConfigMap and/or a whole Secret.
pub struct EnvFromSource {
    pub config_map_ref: Option<LocalObjectReference>,
    pub secret_ref: Option<LocalObjectReference>,
}

/// Where an environment variable takes its value from: one key of a ConfigMap
/// or one key of a Secret.
pub struct EnvVarSource {
    pub config_map_key_ref: Option<LocalObjectReference>,
    pub secret_key_ref: Option<LocalObjectReference>,
}

/// An environment variable of a container, as far as it can name an object.
pub struct EnvVar {
    pub value_from: Option<EnvVarSource>,
}

/// A container, as far as it can name a ConfigMap or a Secret.
pub struct Container {
    pub env_from: Vec<EnvFromSource>,
    pub env: Vec<EnvVar>,
}

/// A pod volume, as far as it can name a ConfigMap or a Secret.
pub struct Volume {
    pub config_map: Option<LocalObjectReference>,
    pub secret: Option<LocalObjectReference>,
}

/// The part of a pod description that can name ConfigMaps and Secrets.
pub struct PodSpec {
    pub containers: Vec<Container>,
    pub volumes: Vec<Volume>,
}

pub struct PodTemplateSpec {
    pub spec: Option<PodSpec>,
}

pub struct DeploymentSpec {
    pub template: PodTemplateSpec,
}

pub struct Deployment {
    pub spec: Option<DeploymentSpec>,
}

pub struct ReplicaSetSpec {
    pub template: Option<PodTemplateSpec>,
}

pub struct ReplicaSet {
    pub spec: Option<ReplicaSetSpec>,
}

pub struct StatefulSetSpec {
    pub template: PodTemplateSpec,
}

pub struct StatefulSet {
    pub spec: Option<StatefulSetSpec>,
}

pub struct DaemonSetSpec {
    pub template: PodTemplateSpec,
}

pub struct DaemonSet {
    pub spec: Option<DaemonSetSpec>,
}

pub struct JobSpec {
    pub template: PodTemplateSpec,
}

pub struct Job {
    pub spec: Option<JobSpec>,
}

pub struct JobTemplateSpec {
    pub spec: Option<JobSpec>,
}

pub struct CronJobSpec {
    pub job_template: JobTemplateSpec,
}

pub struct CronJob {
    pub spec: Option<CronJobSpec>,
}

pub struct ReplicationControllerSpec {
    pub template: Option<PodTemplateSpec>,
}

pub struct ReplicationController {
    pub spec: Option<ReplicationControllerSpec>,
}

pub struct Pod {
    pub spec: Option<PodSpec>,
}

/// A resource that may carry a pod spec: a workload's pod template, or a bare
/// Pod's own spec. Each kind reaches it along its own chain of optional
/// fields; a missing link anywhere means "no pod spec".
pub trait ResourceWithPodSpec: Sized {
    /// The pod spec that this resource carries, if its chain is complete.
    spec fn pod_template(&self) -> Option<PodSpec>;

    fn pod_template_spec(&self) -> (r: Option<&PodSpec>)
        ensures
            match r {
                Some(p) => self.pod_template() == Some(*p),
                None => self.pod_template() is None,
            },
    ;
}

impl ResourceWithPodSpec for Deployment {
    open spec fn pod_template(&self) -> Option<PodSpec> {
        match self.spec {
            Some(s) => s.template.spec,
            None => None,
        }
    }

    fn pod_template_spec(&self) -> (r: Option<&PodSpec>) {
        match &self.spec {
            Some(s) => s.template.spec.as_ref(),
            None => None,
        }
    }
}

impl ResourceWithPodSpec for ReplicaSet {
    open spec fn pod_template(&self) -> Option<PodSpec> {
        match self.spec {
            Some(s) => match s.template {
                Some(t) => t.spec,
                None => None,
            },
            None => None,
        }
    }

    fn pod_template_spec(&self) -> (r: Option<&PodSpec>) {
        match &self.spec {
            Some(s) => match &s.template {
                Some(t) => t.spec.as_ref(),
                None => None,
            },
            None => None,
        }
    }
}

impl ResourceWithPodSpec for StatefulSet {
    open spec fn pod_template(&self) -> Option<PodSpec> {
        match self.spec {
            Some(s) => s.template.spec,
            None => None,
        }
    }

    fn pod_template_spec(&self) -> (r: Option<&PodSpec>) {
        match &self.spec {
            Some(s) => s.template.spec.as_ref(),
            None => None,
        }
    }
}

impl ResourceWithPodSpec for DaemonSet {
    open spec fn pod_template(&self) -> Option<PodSpec> {
        match self.spec {
            Some(s) => s.template.spec,
            None => None,
        }
    }

    fn pod_template_spec(&self) -> (r: Option<&PodSpec>) {
        match &self.spec {
            Some(s) => s.template.spec.as_ref(),
            None => None,
        }
    }
}

impl ResourceWithPodSpec for Job {
    open spec fn pod_template(&self) -> Option<PodSpec> {
        match self.spec {
            Some(s) => s.template.spec,
            None => None,
        }
    }

    fn pod_template_spec(&self) -> (r: Option<&PodSpec>) {
        match &self.spec {
            Some(s) => s.template.spec.as_ref(),
            None => None,
        }
    }
}

impl ResourceWithPodSpec for CronJob {
    /// A CronJob's pod template sits in the Job template of its spec.
    open spec fn pod_template(&self) -> Option<PodSpec> {
        match self.spec {
            Some(s) => match s.job_template.spec {
                Some(j) => j.template.spec,
                None => None,
            },
            None => None,
        }
    }

    fn pod_template_spec(&self) -> (r: Option<&PodSpec>) {
        match &self.spec {
            Some(s) => match &s.job_template.spec {
                Some(j) => j.template.spec.as_ref(),
                None => None,
            },
            None => None,
        }
    }
}

impl ResourceWithPodSpec for ReplicationController {
    open spec fn pod_template(&self) -> Option<PodSpec> {
        match self.spec {
            Some(s) => match s.template {
                Some(t) => t.spec,
                None => None,
            },
            None => None,
        }
    }

    fn pod_template_spec(&self) -> (r: Option<&PodSpec>) {
        match &self.spec {
            Some(s) => match &s.template {
                Some(t) => t.spec.as_ref(),
                None => None,
            },
            None => None,
        }
    }
}

impl ResourceWithPodSpec for Pod {
    open spec fn pod_template(&self) -> Option<PodSpec> {
        self.spec
    }

    fn pod_template_spec(&self) -> (r: Option<&PodSpec>) {
        self.spec.as_ref()
    }
}

} // verus!
