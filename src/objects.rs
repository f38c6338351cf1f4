use vstd::prelude::*;

use crate::pod_spec::LocalObjectReference;

verus! {

/// A ConfigMap of the namespace; only its name matters here.
pub struct ConfigMap {
    pub name: Option<String>,
}

/// A Secret of the namespace; only its name matters here.
pub struct Secret {
    pub name: Option<String>,
}

/// One TLS entry of an Ingress, which may name the Secret holding the certificate.
pub struct IngressTLS {
    pub secret_name: Option<String>,
}

pub struct IngressSpec {
    pub tls: Vec<IngressTLS>,
}

pub struct Ingress {
    pub spec: Option<IngressSpec>,
}

/// A ServiceAccount, as far as it names Secrets: its image pull secrets and
/// its mountable secrets.
pub struct ServiceAccount {
    pub image_pull_secrets: Vec<LocalObjectReference>,
    pub secrets: Vec<LocalObjectReference>,
}

} // verus!
