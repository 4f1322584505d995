//! Backing off before a package is looked for again.
use vstd::prelude::*;
use crate::provider::repository::package::Package;
use crate::provider::states::pod::{make_status, NextState, Phase, StatusPatch};

verus! {

/// The package could not be downloaded; the download is retried after a
/// back-off.
#[derive(Debug)]
pub struct DownloadingBackoff {
    pub package: Package,
}

impl DownloadingBackoff {
    /// After backing off, the download is tried again.
    pub fn next(&self) -> (r: NextState)
        ensures
            r is Downloading,
    {
        NextState::Downloading
    }

    /// The pod is pending while it backs off.
    pub fn status(&self) -> (r: StatusPatch)
        ensures
            r.phase == Phase::Pending,
            r.reason@ == "DownloadingBackoff"@,
    {
        make_status(Phase::Pending, "DownloadingBackoff")
    }
}

} // verus!
