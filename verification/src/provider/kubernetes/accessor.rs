//! Accessor methods for Kubernetes resources
use vstd::prelude::*;
use crate::provider::kubernetes::pod::Pod;
use crate::text::str_eq;

verus! {

/// Restart policy for all containers within the pod.
#[derive(Clone, Copy, Debug, PartialEq, Eq, Structural)]
pub enum RestartPolicy {
    Always,
    OnFailure,
    Never,
}

/// The restart policy named exactly `s`, if any.
pub open spec fn parse_restart_policy(s: Seq<char>) -> Option<RestartPolicy> {
    if s == "Always"@ {
        Some(RestartPolicy::Always)
    } else if s == "OnFailure"@ {
        Some(RestartPolicy::OnFailure)
    } else if s == "Never"@ {
        Some(RestartPolicy::Never)
    } else {
        None
    }
}

/// The name of a restart policy.
pub open spec fn policy_name(p: RestartPolicy) -> Seq<char> {
    match p {
        RestartPolicy::Always => "Always"@,
        RestartPolicy::OnFailure => "OnFailure"@,
        RestartPolicy::Never => "Never"@,
    }
}

impl RestartPolicy {
    /// The default restart policy: `Always`.
    pub fn default() -> (r: RestartPolicy)
        ensures
            r == RestartPolicy::Always,
    {
        RestartPolicy::Always
    }

    /// Parses the exact name of a restart policy.
    pub fn from_str(s: &str) -> (r: Option<RestartPolicy>)
        ensures
            r == parse_restart_policy(s@),
    {
        if str_eq(s, "Always") {
            Some(RestartPolicy::Always)
        } else if str_eq(s, "OnFailure") {
            Some(RestartPolicy::OnFailure)
        } else if str_eq(s, "Never") {
            Some(RestartPolicy::Never)
        } else {
            None
        }
    }

    /// The name of the policy.
    pub fn to_string(&self) -> (r: String)
        ensures
            r@ == policy_name(*self),
    {
        match self {
            RestartPolicy::Always => String::from_str("Always"),
            RestartPolicy::OnFailure => String::from_str("OnFailure"),
            RestartPolicy::Never => String::from_str("Never"),
        }
    }
}

/// The restart policy of a pod: the one it names, or `Always` where it
/// names none or an unknown one.
pub open spec fn pod_restart_policy(pod: Pod) -> RestartPolicy {
    match pod.restart_policy {
        Some(p) => match parse_restart_policy(p@) {
            Some(r) => r,
            None => RestartPolicy::Always,
        },
        None => RestartPolicy::Always,
    }
}

/// Returns the restart policy for all containers within the pod.
pub fn restart_policy(pod: &Pod) -> (r: RestartPolicy)
    ensures
        r == pod_restart_policy(*pod),
{
    match &pod.restart_policy {
        Some(p) => match RestartPolicy::from_str(p.as_str()) {
            Some(r) => r,
            None => RestartPolicy::default(),
        },
        None => RestartPolicy::default(),
    }
}

/// The name of a restart policy reads back as the same policy.
pub proof fn lemma_restart_policy_round_trip(p: RestartPolicy)
    ensures
        parse_restart_policy(policy_name(p)) == Some(p),
{
    reveal_strlit("Always");
    reveal_strlit("OnFailure");
    reveal_strlit("Never");
    assert("Always"@.len() == 6 && "Always"@[0] == 'A');
    assert("OnFailure"@.len() == 9 && "OnFailure"@[0] == 'O');
    assert("Never"@.len() == 5 && "Never"@[0] == 'N');
}

} // verus!
