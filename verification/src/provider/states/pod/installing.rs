//! Installing the package of a pod.
use vstd::prelude::*;
use crate::fsext::{join_path, path_join};
use crate::provider::repository::package::{directory_name, file_name, Package};
use crate::provider::states::pod::{make_status, NextState, Phase, StatusPatch};
use crate::text::copy_str;

verus! {

/// Installing unpacks the downloaded archive of the package into the
/// parcel directory.
#[derive(Debug)]
pub struct Installing {
    pub download_directory: String,
    pub parcel_directory: String,
    pub package: Package,
}

/// How the installation went.
#[derive(Debug)]
pub enum InstallOutcome {
    /// The target directory of the package existed already.
    AlreadyInstalled,
    /// The archive was unpacked.
    Installed,
    /// The archive could not be unpacked; the target directory is removed
    /// again.
    Failed,
}

impl Installing {
    /// The directory the package is installed to.
    pub fn get_target_directory(&self, package: &Package) -> (r: String)
        ensures
            r@ == path_join(self.parcel_directory@, directory_name(package.product@, package.version@)),
    {
        let name = package.get_directory_name();
        join_path(self.parcel_directory.as_str(), name.as_str())
    }

    /// The archive of the package in the download directory.
    pub fn archive_path(&self, package: &Package) -> (r: String)
        ensures
            r@ == path_join(self.download_directory@, file_name(package.product@, package.version@)),
    {
        let name = package.get_file_name();
        join_path(self.download_directory.as_str(), name.as_str())
    }

    /// The config is created once the package is installed; a failed
    /// installation is a failed setup.
    pub fn next(&self, outcome: InstallOutcome) -> (r: NextState)
        ensures
            outcome is Failed ==> (r matches NextState::SetupFailed { message }
                && message@ == "PackageInstallationFailed"@),
            !(outcome is Failed) ==> (r matches NextState::CreatingConfig { target_directory }
                && target_directory is None),
    {
        match outcome {
            InstallOutcome::Failed => NextState::SetupFailed { message: copy_str("PackageInstallationFailed") },
            _ => NextState::CreatingConfig { target_directory: None },
        }
    }

    /// One step of installing `package`: where its target directory exists
    /// already nothing is unpacked and the config is created next.
    /// Otherwise the archive is unpacked there (`unpack_ok` tells how that
    /// went): on success the config is created next; on failure the
    /// returned directory, the target directory, is removed again so that
    /// no partial installation looks installed, and the setup failed.
    pub fn install_actions(&self, package: &Package, target_exists: bool, unpack_ok: bool) -> (r: (
        NextState,
        Option<String>,
    ))
        ensures
            !target_exists && !unpack_ok ==> (r.0 matches NextState::SetupFailed { message }
                && message@ == "PackageInstallationFailed"@) && (r.1 matches Some(d) && d@ == path_join(
                self.parcel_directory@,
                directory_name(package.product@, package.version@),
            )),
            target_exists || unpack_ok ==> (r.0 matches NextState::CreatingConfig { target_directory }
                && target_directory is None) && r.1 is None,
    {
        if target_exists {
            (self.next(InstallOutcome::AlreadyInstalled), None)
        } else if unpack_ok {
            (self.next(InstallOutcome::Installed), None)
        } else {
            (self.next(InstallOutcome::Failed), Some(self.get_target_directory(package)))
        }
    }

    /// The pod is pending while the package is installed.
    pub fn status(&self) -> (r: StatusPatch)
        ensures
            r.phase == Phase::Pending,
            r.reason@ == "Installing"@,
    {
        make_status(Phase::Pending, "Installing")
    }
}

} // verus!
