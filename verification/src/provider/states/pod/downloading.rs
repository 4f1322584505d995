//! Downloading the package of a pod.
use vstd::prelude::*;
use crate::fsext::{join_path, path_join};
use crate::provider::error::StackableError;
use crate::provider::repository::package::{file_name, Package};
use crate::provider::states::pod::{make_status, NextState, Phase, PodState, StatusPatch};

verus! {

/// Downloading looks for the package in the repositories and downloads
/// its archive, unless it was downloaded before.
#[derive(Debug)]
pub struct Downloading;

/// How the download went.
#[derive(Debug)]
pub enum DownloadOutcome {
    /// The archive is in the download directory already.
    AlreadyDownloaded,
    /// The archive was downloaded.
    Downloaded,
    /// A repository provides the package but the download failed.
    DownloadFailed,
    /// No repository provides the package.
    NotFound,
    /// The repositories could not be searched.
    LookupFailed,
    /// The download directory could not be created.
    DirectoryFailed { msg: String },
}

impl Downloading {
    /// The file the archive of `package` is downloaded to.
    pub fn package_file_path(download_directory: &str, package: &Package) -> (r: String)
        ensures
            r@ == path_join(download_directory@, file_name(package.product@, package.version@)),
    {
        let name = package.get_file_name();
        join_path(download_directory, name.as_str())
    }

    /// A downloaded package is installed next; where the package could not
    /// be found or downloaded the download is retried after a back-off; a
    /// download directory that cannot be created ends the state machine.
    pub fn next(pod_state: &PodState, outcome: DownloadOutcome) -> (r: NextState)
        ensures
            match outcome {
                DownloadOutcome::AlreadyDownloaded | DownloadOutcome::Downloaded => r matches NextState::Installing {
                    download_directory,
                    parcel_directory,
                    package,
                } && download_directory@ == pod_state.download_directory@
                    && parcel_directory@ == pod_state.parcel_directory@
                    && package.product@ == pod_state.package.product@
                    && package.version@ == pod_state.package.version@,
                DownloadOutcome::DirectoryFailed { msg } => r matches NextState::Complete { error }
                    && error matches Some(StackableError::RuntimeError { msg: m }) && m@ == msg@,
                _ => r matches NextState::DownloadingBackoff { package }
                    && package.product@ == pod_state.package.product@
                    && package.version@ == pod_state.package.version@,
            },
    {
        match outcome {
            DownloadOutcome::AlreadyDownloaded | DownloadOutcome::Downloaded => NextState::Installing {
                download_directory: pod_state.download_directory.clone(),
                parcel_directory: pod_state.parcel_directory.clone(),
                package: pod_state.package.copy(),
            },
            DownloadOutcome::DirectoryFailed { msg } => NextState::Complete {
                error: Some(StackableError::RuntimeError { msg }),
            },
            _ => NextState::DownloadingBackoff { package: pod_state.package.copy() },
        }
    }

    /// The pod is pending while the package is downloaded.
    pub fn status(&self) -> (r: StatusPatch)
        ensures
            r.phase == Phase::Pending,
            r.reason@ == "Downloading"@,
    {
        make_status(Phase::Pending, "Downloading")
    }
}

} // verus!
