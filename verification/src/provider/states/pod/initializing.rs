//! The first state of a pod.
use vstd::prelude::*;
use crate::provider::states::pod::{make_status, NextState, Phase, StatusPatch};

verus! {

/// The pod was assigned to this node; its status is patched with the
/// address of the node.
#[derive(Debug)]
pub struct Initializing;

impl Initializing {
    /// The package is downloaded next, whether or not the address could be
    /// patched.
    pub fn next(&self) -> (r: NextState)
        ensures
            r is Downloading,
    {
        NextState::Downloading
    }

    /// The pod is pending while it is initialized.
    pub fn status(&self) -> (r: StatusPatch)
        ensures
            r.phase == Phase::Pending,
            r.reason@ == "Initializing"@,
    {
        make_status(Phase::Pending, "Initializing")
    }
}

} // verus!
