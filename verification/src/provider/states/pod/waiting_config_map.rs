//! Waiting for config maps that the pod names but that do not exist yet.
use vstd::prelude::*;
use crate::provider::states::pod::{make_status, NextState, Phase, StatusPatch};

verus! {

/// A config map that was specified in the pod has not yet been created in
/// the apiserver; the state machine backs off until it has been created.
#[derive(Debug)]
pub struct WaitingConfigMap {
    pub missing_config_maps: Vec<String>,
}

impl WaitingConfigMap {
    /// After backing off, the config is created anew.
    pub fn next(&self) -> (r: NextState)
        ensures
            r matches NextState::CreatingConfig { target_directory } && target_directory is None,
    {
        NextState::CreatingConfig { target_directory: None }
    }

    /// The pod is pending while it waits.
    pub fn status(&self) -> (r: StatusPatch)
        ensures
            r.phase == Phase::Pending,
            r.reason@ == "WaitingConfigMap"@,
    {
        make_status(Phase::Pending, "WaitingConfigMap")
    }
}

} // verus!
