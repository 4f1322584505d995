//! The state of a pod that all states of the state machine share.
use vstd::prelude::*;
use crate::fsext::{join_path, path_join};
use crate::provider::repository::package::{directory_name, Package};
use crate::provider::error::StackableError;
use crate::text::{concat3, copy_str};

pub mod creating_config;
pub mod creating_service;
pub mod downloading;
pub mod downloading_backoff;
pub mod failed;
pub mod initializing;
pub mod installing;
pub mod running;
pub mod setup_failed;
pub mod starting;
pub mod terminated;
pub mod waiting_config_map;

verus! {

/// Directories, names and the package of a pod.
#[derive(Debug)]
pub struct PodState {
    pub parcel_directory: String,
    pub download_directory: String,
    pub config_directory: String,
    pub log_directory: String,
    /// `namespace-podname`
    pub service_name: String,
    pub service_uid: String,
    pub package: Package,
}

impl PodState {
    /// `config_directory/service_name-service_uid`
    pub open spec fn service_config_directory(&self) -> Seq<char> {
        path_join(self.config_directory@, self.service_name@ + "-"@ + self.service_uid@)
    }

    /// `parcel_directory/product-version`
    pub open spec fn service_package_directory(&self) -> Seq<char> {
        path_join(
            self.parcel_directory@,
            directory_name(self.package.product@, self.package.version@),
        )
    }

    /// `log_directory/service_name`
    pub open spec fn service_log_directory(&self) -> Seq<char> {
        path_join(self.log_directory@, self.service_name@)
    }

    /// The directory in which the configuration of the service is created.
    pub fn get_service_config_directory(&self) -> (r: String)
        ensures
            r@ == self.service_config_directory(),
    {
        let name = concat3(self.service_name.as_str(), "-", self.service_uid.as_str());
        join_path(self.config_directory.as_str(), name.as_str())
    }

    /// The directory in which the package of the service is installed.
    pub fn get_service_package_directory(&self) -> (r: String)
        ensures
            r@ == self.service_package_directory(),
    {
        let name = self.package.get_directory_name();
        join_path(self.parcel_directory.as_str(), name.as_str())
    }

    /// The directory in which the service writes its logs.
    pub fn get_service_log_directory(&self) -> (r: String)
        ensures
            r@ == self.service_log_directory(),
    {
        join_path(self.log_directory.as_str(), self.service_name.as_str())
    }

    /// Resolve the directory in which the systemd unit files will be
    /// placed for this service: `_service` in the config directory of the
    /// service.
    pub fn get_service_service_directory(&self) -> (r: String)
        ensures
            r@ == path_join(self.service_config_directory(), "_service"@),
    {
        let config = self.get_service_config_directory();
        join_path(config.as_str(), "_service")
    }
}

/// A run of steps, such as the operations on the units of a pod, that
/// stops at the first step that fails: `done` steps of `total` succeeded,
/// and `error` holds the failure that ended the run.
#[derive(Debug)]
pub struct StepRun {
    pub total: usize,
    pub done: usize,
    pub error: Option<StackableError>,
}

impl StepRun {
    /// Every run keeps within its steps, and a failure ends it before the
    /// last step was done.
    pub open spec fn wf(&self) -> bool {
        &&& self.done <= self.total
        &&& self.error is Some ==> self.done < self.total
    }

    /// The run goes on: no step failed and steps are left.
    pub open spec fn is_open(&self) -> bool {
        self.error is None && self.done < self.total
    }

    /// The outcome of the run: the failure that ended it, or success.
    pub open spec fn outcome(&self) -> Result<(), StackableError> {
        match self.error {
            Some(e) => Err(e),
            None => Ok(()),
        }
    }

    /// A run of `total` steps, none done yet.
    pub fn new(total: usize) -> (r: StepRun)
        ensures
            r.wf(),
            r.total == total,
            r.done == 0,
            r.error is None,
    {
        StepRun { total, done: 0, error: None }
    }

    /// Whether the next step is to be made.
    pub fn wants_next(&self) -> (r: bool)
        ensures
            r == self.is_open(),
    {
        self.error.is_none() && self.done < self.total
    }

    /// Records the result of the next step: a success counts it, a failure
    /// ends the run.
    pub fn record(&mut self, result: Result<(), StackableError>)
        requires
            old(self).wf(),
            old(self).is_open(),
        ensures
            final(self).wf(),
            final(self).total == old(self).total,
            result is Ok ==> final(self).done == old(self).done + 1 && final(self).error is None,
            result matches Err(e) ==> final(self).done == old(self).done && final(self).error == Some(e),
    {
        match result {
            Ok(()) => {
                self.done = self.done + 1;
            },
            Err(e) => {
                self.error = Some(e);
            },
        }
    }

    /// The outcome of the run.
    pub fn finish(self) -> (r: Result<(), StackableError>)
        ensures
            r == self.outcome(),
    {
        match self.error {
            Some(e) => Err(e),
            None => Ok(()),
        }
    }
}

/// A run that failed takes no further step, and a run that takes no
/// further step succeeded exactly when every one of its steps did.
pub proof fn lemma_step_run_ends(run: StepRun)
    requires
        run.wf(),
    ensures
        run.error is Some ==> !run.is_open(),
        !run.is_open() ==> (run.outcome() is Ok <==> run.done == run.total),
{
}

/// The phase of a pod as Kubernetes reports it.
#[derive(Clone, Copy, Debug, PartialEq, Eq, Structural)]
pub enum Phase {
    Pending,
    Running,
    Succeeded,
    Failed,
    Unknown,
}

/// A change of the status of a pod: its phase and the reason for it.
#[derive(Debug)]
pub struct StatusPatch {
    pub phase: Phase,
    pub reason: String,
}

/// The status patch with the given phase and reason.
pub fn make_status(phase: Phase, reason: &str) -> (r: StatusPatch)
    ensures
        r.phase == phase,
        r.reason@ == reason@,
{
    StatusPatch { phase, reason: copy_str(reason) }
}

/// The state that the pod state machine goes to next.
#[derive(Debug)]
pub enum NextState {
    Downloading,
    DownloadingBackoff { package: Package },
    Installing { download_directory: String, parcel_directory: String, package: Package },
    CreatingConfig { target_directory: Option<String> },
    WaitingConfigMap { missing_config_maps: Vec<String> },
    CreatingService,
    Starting,
    Running,
    Terminated { successful: bool },
    SetupFailed { message: String },
    /// The state machine ends, with an error where it failed.
    Complete { error: Option<StackableError> },
}

/// An operation on a systemd unit, by the unit's name.
#[derive(Debug)]
pub enum UnitAction {
    Start(String),
    Stop(String),
    Enable(String),
    Disable(String),
    /// Remove the unit file without reloading the daemon.
    Remove(String),
    /// Reload the systemd daemon.
    Reload,
}

/// The view of a unit action: which operation, on which unit.
pub open spec fn action_view(a: UnitAction) -> (int, Seq<char>) {
    match a {
        UnitAction::Start(u) => (0, u@),
        UnitAction::Stop(u) => (1, u@),
        UnitAction::Enable(u) => (2, u@),
        UnitAction::Disable(u) => (3, u@),
        UnitAction::Remove(u) => (4, u@),
        UnitAction::Reload => (5, Seq::empty()),
    }
}

/// The views of a list of unit actions.
pub open spec fn action_views(v: Seq<UnitAction>) -> Seq<(int, Seq<char>)> {
    v.map_values(|a: UnitAction| action_view(a))
}

} // verus!
