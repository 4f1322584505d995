//! The process of the pod failed.
use vstd::prelude::*;
use crate::provider::kubernetes::pod::Pod;
use crate::provider::states::pod::{make_status, NextState, Phase, StatusPatch};
use crate::text::{opt_view, str_eq};

verus! {

/// The process of the pod failed with `message`.
#[derive(Debug)]
pub struct Failed {
    pub message: String,
}

/// The pod asks to be restarted: its restart policy is `Always`.
pub open spec fn restart_enabled_for(pod: Pod) -> bool {
    opt_view(pod.restart_policy) == Some("Always"@)
}

impl Failed {
    /// The restart policy of the pod is `Always`.
    pub fn restart_enabled(&self, pod: &Pod) -> (r: bool)
        ensures
            r == restart_enabled_for(*pod),
    {
        match &pod.restart_policy {
            Some(p) => str_eq(p.as_str(), "Always"),
            None => false,
        }
    }

    /// The pod starts again where it is to be restarted; otherwise the
    /// state machine ends.
    pub fn next(&self, pod: &Pod) -> (r: NextState)
        ensures
            restart_enabled_for(*pod) ==> r is Starting,
            !restart_enabled_for(*pod) ==> (r matches NextState::Complete { error } && error is None),
    {
        if self.restart_enabled(pod) {
            NextState::Starting
        } else {
            NextState::Complete { error: None }
        }
    }

    /// The pod failed, for the reason given by the message.
    pub fn status(&self) -> (r: StatusPatch)
        ensures
            r.phase == Phase::Failed,
            r.reason@ == self.message@,
    {
        make_status(Phase::Failed, self.message.as_str())
    }
}

} // verus!
