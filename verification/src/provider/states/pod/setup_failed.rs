//! A setup step failed.
use vstd::prelude::*;
use crate::provider::states::pod::{make_status, NextState, Phase, StatusPatch};
use crate::text::concat2;

verus! {

/// A setup step for the service failed, this can be one of the following:
/// downloading the package, installing it, creating the config or
/// creating the service.
#[derive(Debug)]
pub struct SetupFailed {
    pub message: String,
}

/// The number of seconds to wait before the setup is retried.
pub const SETUP_RETRY_SECONDS: u64 = 10;

impl SetupFailed {
    /// After waiting, the setup starts again with the download.
    pub fn next(&self) -> (r: NextState)
        ensures
            r is Downloading,
    {
        NextState::Downloading
    }

    /// The line to log for pod `pod_name`.
    pub fn failure_line(&self, pod_name: &str) -> (r: String)
        ensures
            r@ == "setup failed for pod "@ + pod_name@ + " due to: "@ + self.message@,
    {
        let mut r = concat2("setup failed for pod ", pod_name);
        r.append(" due to: ");
        r.append(self.message.as_str());
        r
    }

    /// The pod is pending until the setup is retried.
    pub fn status(&self) -> (r: StatusPatch)
        ensures
            r.phase == Phase::Pending,
            r.reason@ == "SetupFailed"@,
    {
        make_status(Phase::Pending, "SetupFailed")
    }
}

} // verus!
