use std::str::FromStr;

use vstd::prelude::*;

verus! {

/// How the orphan report is written out.
#[derive(Clone, Copy, Debug, PartialEq, Eq, Structural)]
pub enum Output {
    Yaml,
    Json,
}

/// What the user asked for on the command line.
pub struct UserArgs {
    /// Path of the kubeconfig file; `None` means: find the configuration as
    /// the cluster client does by default.
    pub kubeconfig: Option<String>,
    /// Namespace to search; `None` means the configuration's default one.
    pub namespace: Option<String>,
    pub output: Output,
}

impl UserArgs {
    pub fn new(kubeconfig: Option<String>, namespace: Option<String>, output: Output) -> (r: Self)
        ensures
            r.kubeconfig == kubeconfig,
            r.namespace == namespace,
            r.output == output,
    {
        UserArgs { kubeconfig, namespace, output }
    }
}

/// What `str::trim` returns for `s`.
pub uninterp spec fn trim_of(s: Seq<char>) -> Seq<char>;

/// What `str::to_lowercase` returns for `s`.
pub uninterp spec fn lower_of(s: Seq<char>) -> Seq<char>;

/// Relies on `str::trim`: the slice without leading and trailing white space,
/// which depends on the characters alone.
#[verifier::external_body]
fn trim(s: &str) -> (r: &str)
    ensures
        r@ == trim_of(s@),
{
    s.trim()
}

/// Relies on `str::to_lowercase`: the lower-case form of the text, which
/// depends on the characters alone.
#[verifier::external_body]
fn lowercase(s: &str) -> (r: String)
    ensures
        r@ == lower_of(s@),
{
    s.to_lowercase()
}

/// The message of a format name that is neither `yaml` nor `json`.
pub const INVALID_OUTPUT_FORMAT: &'static str = "Invalid output format";

impl Output {
    /// The format that a normalized name (trimmed, lower case) stands for.
    pub open spec fn named(s: Seq<char>) -> Option<Output> {
        if s == "yaml"@ {
            Some(Output::Yaml)
        } else if s == "json"@ {
            Some(Output::Json)
        } else {
            None
        }
    }

    /// Reads a format name that is already trimmed and in lower case:
    /// `yaml` or `json`; any other text is refused.
    pub fn from_normalized(s: &str) -> (r: Result<Output, String>)
        ensures
            match Output::named(s@) {
                Some(o) => r == Ok::<Output, String>(o),
                None => r matches Err(e) && e@ == INVALID_OUTPUT_FORMAT@,
            },
    {
        let given = s.to_owned();
        let yaml = "yaml".to_owned();
        let json = "json".to_owned();
        if given == yaml {
            Ok(Output::Yaml)
        } else if given == json {
            Ok(Output::Json)
        } else {
            Err(INVALID_OUTPUT_FORMAT.to_owned())
        }
    }

    /// Reads a format name, ignoring surrounding white space and case.
    pub fn parse(s: &str) -> (r: Result<Output, String>)
        ensures
            match Output::named(lower_of(trim_of(s@))) {
                Some(o) => r == Ok::<Output, String>(o),
                None => r matches Err(e) && e@ == INVALID_OUTPUT_FORMAT@,
            },
    {
        let lower = lowercase(trim(s));
        Output::from_normalized(lower.as_str())
    }
}

impl FromStr for Output {
    type Err = String;

    fn from_str(s: &str) -> Result<Self, Self::Err> {
        Output::parse(s)
    }
}

} // verus!
