//! The state of a service unit.
use vstd::prelude::*;
use crate::provider::systemdmanager::systemd1_api::ActiveState;
use crate::text::str_eq;

verus! {

/// Represents the state of a service unit object.
#[derive(Clone, Copy, Debug, PartialEq, Eq, Structural)]
pub enum ServiceState {
    /// The service was not started yet.
    Created,
    /// The service was started and is currently running or restarting.
    Started,
    /// The service terminated successfully and will not be restarted.
    Succeeded,
    /// The service terminated unsuccessfully and will not be restarted.
    Failed,
}

/// The sub state of a service that terminated and remains after exit.
pub const SUB_STATE_SERVICE_EXITED: &'static str = "exited";

/// The coarse state of a service from its active state and, where it is
/// active, its sub state.
///
/// It is assumed that RemainAfterExit is set to "yes" in the unit if the
/// service can terminate: an inactive service was then never started,
/// and an active one in the sub state `exited` terminated successfully.
pub open spec fn coarse_state(active: ActiveState, sub_state: Seq<char>) -> ServiceState {
    match active {
        ActiveState::Inactive => ServiceState::Created,
        ActiveState::Active => if sub_state == SUB_STATE_SERVICE_EXITED@ {
            ServiceState::Succeeded
        } else {
            ServiceState::Started
        },
        ActiveState::Failed => ServiceState::Failed,
        ActiveState::Reloading => ServiceState::Started,
        ActiveState::Activating => ServiceState::Started,
        ActiveState::Deactivating => ServiceState::Started,
    }
}

/// Returns the coarse-grained state of a service unit object from its
/// active state and sub state.
pub fn service_state(active_state: ActiveState, sub_state: &str) -> (r: ServiceState)
    ensures
        r == coarse_state(active_state, sub_state@),
{
    match active_state {
        ActiveState::Inactive => ServiceState::Created,
        ActiveState::Active => {
            if str_eq(sub_state, SUB_STATE_SERVICE_EXITED) {
                ServiceState::Succeeded
            } else {
                ServiceState::Started
            }
        },
        ActiveState::Failed => ServiceState::Failed,
        ActiveState::Reloading => ServiceState::Started,
        ActiveState::Activating => ServiceState::Started,
        ActiveState::Deactivating => ServiceState::Started,
    }
}

/// A systemd service, known by the file name of its unit.
#[derive(Debug)]
pub struct SystemdService {
    pub file: String,
}

impl SystemdService {
    /// The name of the unit file.
    pub open spec fn file_name(&self) -> Seq<char> {
        self.file@
    }

    /// A service for the unit file with the given name.
    pub fn new(file: &str) -> (r: SystemdService)
        ensures
            r.file_name() == file@,
    {
        SystemdService { file: String::from_str(file) }
    }

    /// A copy of the service, for the same unit file.
    pub fn copy(&self) -> (r: SystemdService)
        ensures
            r.file_name() == self.file_name(),
    {
        SystemdService { file: self.file.clone() }
    }

    /// Returns the filename of the systemd unit.
    pub fn file(&self) -> (r: String)
        ensures
            r@ == self.file_name(),
    {
        self.file.clone()
    }
}

/// What the state of a service means: it failed exactly where its active
/// state is `failed`, whatever its sub state; it succeeded exactly where it
/// is active and its sub state is `exited`; it was only created exactly
/// where it is inactive; in every other case it was started.
pub proof fn lemma_service_state_meaning(active: ActiveState, sub_state: Seq<char>)
    ensures
        (coarse_state(active, sub_state) == ServiceState::Failed) <==> active == ActiveState::Failed,
        (coarse_state(active, sub_state) == ServiceState::Succeeded) <==> (active == ActiveState::Active
            && sub_state == "exited"@),
        (coarse_state(active, sub_state) == ServiceState::Created) <==> active == ActiveState::Inactive,
        (coarse_state(active, sub_state) == ServiceState::Started) <==> (active != ActiveState::Failed && active
            != ActiveState::Inactive && !(active == ActiveState::Active && sub_state == "exited"@)),
{
    assert(SUB_STATE_SERVICE_EXITED@ == "exited"@);
}

} // verus!
