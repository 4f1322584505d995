//! Starting the units of a pod.
use vstd::prelude::*;
use crate::provider::error::StackableError;
use crate::provider::handles::{service_units, service_units_of, HandleKey, PodHandleMap, PodKey};
use crate::provider::states::pod::{action_views, make_status, NextState, Phase, StatusPatch, UnitAction};
use crate::provider::systemdmanager::service::ServiceState;
use crate::text::{copy_str, views};

verus! {

/// The units of the pod are started and enabled where they were not
/// started yet.
#[derive(Debug)]
pub struct Starting;

/// The text of a boolean, as `bool::to_string` gives it.
pub open spec fn bool_string(b: bool) -> Seq<char> {
    if b {
        "true"@
    } else {
        "false"@
    }
}

impl Starting {
    /// A unit that was created but not started is started and then
    /// enabled; a unit that was started before is left as it is.
    pub fn startup_actions(unit: &str, state: ServiceState) -> (r: Vec<UnitAction>)
        ensures
            state == ServiceState::Created ==> action_views(r@) == seq![(0int, unit@), (2int, unit@)],
            state != ServiceState::Created ==> r@.len() == 0,
    {
        let mut r: Vec<UnitAction> = Vec::new();
        if state == ServiceState::Created {
            r.push(UnitAction::Start(copy_str(unit)));
            r.push(UnitAction::Enable(copy_str(unit)));
            assert(action_views(r@) =~= seq![(0int, unit@), (2int, unit@)]);
        }
        r
    }

    /// The units to start for the pod: those of its handles, each once;
    /// none where the pod has no handles.
    pub fn units_to_start(handles: &PodHandleMap, pod_key: &PodKey) -> (r: Vec<String>)
        ensures
            !handles@.contains_key(pod_key.key_view()) ==> r@.len() == 0,
            handles@.contains_key(pod_key.key_view()) ==> forall|x: Seq<char>| #[trigger] views(r@).contains(x)
                <==> service_units_of(handles@[pod_key.key_view()]).contains(x),
    {
        match handles.get(pod_key) {
            Some(h) => service_units(h),
            None => Vec::new(),
        }
    }

    /// One step of starting the units of a pod, for one unit: its state
    /// was read (or reading it failed, which ends the starting with the
    /// error); a unit that was created but not started is started and
    /// enabled, any other is left as it is. The steps run in a
    /// [`StepRun`](crate::provider::states::pod::StepRun) over the units.
    pub fn unit_step(unit: &str, state: Result<ServiceState, StackableError>) -> (r: Result<
        Vec<UnitAction>,
        StackableError,
    >)
        ensures
            state matches Err(e) ==> r == Err::<Vec<UnitAction>, StackableError>(e),
            state matches Ok(s) ==> (r matches Ok(v) && (s == ServiceState::Created ==> action_views(v@) == seq![
                (0int, unit@),
                (2int, unit@),
            ]) && (s != ServiceState::Created ==> v@.len() == 0)),
    {
        match state {
            Err(e) => Err(e),
            Ok(s) => Ok(Starting::startup_actions(unit, s)),
        }
    }

    /// The annotations added to the pod: `featureLogs` tells whether the
    /// invocation ID of the unit is available, `featureRestartCount`
    /// whether its restart count is.
    pub fn feature_annotations(invocation_id_available: bool, restart_count_available: bool) -> (r: Vec<
        (String, String),
    >)
        ensures
            r@.len() == 2,
            r@[0].0@ == "featureLogs"@,
            r@[0].1@ == bool_string(invocation_id_available),
            r@[1].0@ == "featureRestartCount"@,
            r@[1].1@ == bool_string(restart_count_available),
    {
        let logs = if invocation_id_available { copy_str("true") } else { copy_str("false") };
        let restarts = if restart_count_available { copy_str("true") } else { copy_str("false") };
        let mut r = Vec::new();
        r.push((copy_str("featureLogs"), logs));
        r.push((copy_str("featureRestartCount"), restarts));
        r
    }

    /// Once the units are started the pod runs; an error in starting them
    /// ends the state machine with it. The handles of the pod are started
    /// one by one in a [`StepRun`](crate::provider::states::pod::StepRun),
    /// so that the first failure is the error handed here and the later
    /// handles are not started.
    pub fn next(result: Result<(), StackableError>) -> (r: NextState)
        ensures
            result is Ok ==> r is Running,
            result matches Err(e) ==> (r matches NextState::Complete { error } && error == Some(e)),
    {
        match result {
            Ok(()) => NextState::Running,
            Err(e) => NextState::Complete { error: Some(e) },
        }
    }

    /// The pod is pending while it starts.
    pub fn status(&self) -> (r: StatusPatch)
        ensures
            r.phase == Phase::Pending,
            r.reason@ == "Starting"@,
    {
        make_status(Phase::Pending, "Starting")
    }
}

} // verus!
