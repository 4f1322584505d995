//! Creating the systemd units of a pod.
use vstd::prelude::*;
use crate::provider::error::StackableError;
use crate::provider::kubernetes::pod::{Container, Pod};
use crate::provider::states::pod::creating_config::render_data;
use crate::provider::handles::{with_container_handle, ContainerHandle, ContainerKey, HandleKey, PodHandleMap, PodKey};
use crate::provider::states::pod::{make_status, NextState, Phase, PodState, StatusPatch};
use crate::provider::systemdmanager::service::SystemdService;
use crate::provider::systemdmanager::systemdunit::{
    failure_matches, unit_from_container, unit_from_pod, SystemDUnit, SystemDUnitView, UnitFailure,
};
use crate::text::{concat3, copy_str};

verus! {

/// A unit is created for each container of the pod.
#[derive(Debug)]
pub struct CreatingService;

/// The prefix of the names of the units of a pod: `namespace-podname-`.
pub open spec fn service_prefix(pod: Pod) -> Seq<char> {
    pod.namespace@ + "-"@ + pod.name@ + "-"@
}

/// The units of the containers, each built from the common `template`, or
/// the failure of the first container whose unit cannot be built.
pub open spec fn container_units(
    template: SystemDUnitView,
    prefix: Seq<char>,
    containers: Seq<Container>,
    data: Map<Seq<char>, Seq<char>>,
    package_root: Seq<char>,
    user_mode: bool,
) -> Result<Seq<SystemDUnitView>, UnitFailure>
    decreases containers.len(),
{
    if containers.len() == 0 {
        Ok(Seq::empty())
    } else {
        match container_units(template, prefix, containers.drop_last(), data, package_root, user_mode) {
            Err(f) => Err(f),
            Ok(us) => match unit_from_container(template, prefix, containers.last(), data, package_root, user_mode) {
                Err(f) => Err(f),
                Ok(u) => Ok(us.push(u)),
            },
        }
    }
}

/// The units of a pod: one per container, named with the prefix of the
/// pod and built from the settings that the pod gives all of them.
pub open spec fn pod_units(pod: Pod, user_mode: bool, pod_state: PodState) -> Result<Seq<SystemDUnitView>, UnitFailure> {
    match unit_from_pod(pod, user_mode) {
        Err(m) => Err(UnitFailure::Invalid(m)),
        Ok(t) => container_units(
            t,
            service_prefix(pod),
            pod.containers@,
            render_data(pod_state),
            pod_state.service_package_directory(),
            user_mode,
        ),
    }
}

/// The views of a list of units.
pub open spec fn unit_views(v: Seq<SystemDUnit>) -> Seq<SystemDUnitView> {
    v.map_values(|u: SystemDUnit| u@)
}

impl CreatingService {
    /// `namespace-podname-`
    pub fn service_prefix(pod: &Pod) -> (r: String)
        ensures
            r@ == service_prefix(*pod),
    {
        let mut r = concat3(pod.namespace.as_str(), "-", pod.name.as_str());
        r.append("-");
        r
    }

    /// The units of the containers of the pod, see [`pod_units`].
    pub fn units_for_pod(pod: &Pod, user_mode: bool, pod_state: &PodState) -> (r: Result<Vec<SystemDUnit>, StackableError>)
        ensures
            match pod_units(*pod, user_mode, *pod_state) {
                Ok(us) => r matches Ok(v) && unit_views(v@) == us,
                Err(f) => r matches Err(e) && failure_matches(e, f),
            },
    {
        let template = match SystemDUnit::new_from_pod(pod, user_mode) {
            Ok(t) => t,
            Err(e) => return Err(e),
        };
        let prefix = CreatingService::service_prefix(pod);
        let ghost data = render_data(*pod_state);
        let ghost root = pod_state.service_package_directory();
        let mut units: Vec<SystemDUnit> = Vec::new();
        let mut i: usize = 0;
        assert(pod.containers@.subrange(0, 0) =~= Seq::<Container>::empty());
        assert(unit_views(units@) =~= Seq::<SystemDUnitView>::empty());
        while i < pod.containers.len()
            invariant
                i <= pod.containers@.len(),
                template@.wf(),
                unit_from_pod(*pod, user_mode) == Ok::<SystemDUnitView, Seq<char>>(template@),
                prefix@ == service_prefix(*pod),
                data == render_data(*pod_state),
                root == pod_state.service_package_directory(),
                container_units(template@, prefix@, pod.containers@.subrange(0, i as int), data, root, user_mode)
                    == Ok::<Seq<SystemDUnitView>, UnitFailure>(unit_views(units@)),
            decreases pod.containers@.len() - i,
        {
            assert(pod.containers@.subrange(0, i + 1).drop_last() =~= pod.containers@.subrange(0, i as int));
            match SystemDUnit::new(&template, prefix.as_str(), &pod.containers[i], user_mode, pod_state) {
                Ok(u) => {
                    let ghost before = units@;
                    units.push(u);
                    assert(unit_views(units@) =~= unit_views(before).push(units@.last()@));
                },
                Err(e) => {
                    proof {
                        lemma_container_units_prefix_fails(
                            template@,
                            prefix@,
                            pod.containers@,
                            data,
                            root,
                            user_mode,
                            i as int + 1,
                        );
                    }
                    return Err(e);
                },
            }
            i = i + 1;
        }
        assert(pod.containers@.subrange(0, i as int) =~= pod.containers@);
        Ok(units)
    }

    /// The step of creating the service of a pod: the units of its
    /// containers, one per container in order, which are then created and
    /// registered one by one (see [`CreatingService::register`]); where the
    /// units cannot be built the state machine ends with the error.
    pub fn step(pod: &Pod, user_mode: bool, pod_state: &PodState) -> (r: Result<Vec<SystemDUnit>, NextState>)
        ensures
            match pod_units(*pod, user_mode, *pod_state) {
                Ok(us) => r matches Ok(v) && unit_views(v@) == us,
                Err(f) => r matches Err(NextState::Complete { error: Some(e) }) && failure_matches(e, f),
            },
    {
        match CreatingService::units_for_pod(pod, user_mode, pod_state) {
            Ok(u) => Ok(u),
            Err(e) => Err(NextState::Complete { error: Some(e) }),
        }
    }

    /// Registers the unit of a container that was created: the handle of
    /// the container, for the unit of the given name, is put into the
    /// handles of the pod.
    pub fn register(handles: &mut PodHandleMap, pod_key: &PodKey, container_name: &str, unit_name: &str)
        ensures
            exists|h: ContainerHandle|
                h.service_unit@ == unit_name@ && h.systemd_service.file_name() == unit_name@ && final(handles)@
                    == with_container_handle(
                    old(handles)@,
                    pod_key.key_view(),
                    (1int, container_name@, Seq::<char>::empty()),
                    h,
                ),
    {
        let handle = ContainerHandle { service_unit: copy_str(unit_name), systemd_service: SystemdService::new(unit_name) };
        let key = ContainerKey::App(copy_str(container_name));
        let ghost h = handle;
        assert(key.key_view() == (1int, container_name@, Seq::<char>::empty()));
        handles.insert_container_handle(pod_key, &key, handle);
        assert(h.service_unit@ == unit_name@ && h.systemd_service.file_name() == unit_name@);
        assert(handles@ == with_container_handle(
            old(handles)@,
            pod_key.key_view(),
            (1int, container_name@, Seq::<char>::empty()),
            h,
        ));
    }

    /// Once the units are created and registered the pod is started; the
    /// first unit that could not be created ends the state machine with
    /// its error.
    pub fn next(result: Result<(), StackableError>) -> (r: NextState)
        ensures
            result is Ok ==> r is Starting,
            result matches Err(e) ==> (r matches NextState::Complete { error } && error == Some(e)),
    {
        match result {
            Ok(()) => NextState::Starting,
            Err(e) => NextState::Complete { error: Some(e) },
        }
    }

    /// The pod is pending while its units are created.
    pub fn status(&self) -> (r: StatusPatch)
        ensures
            r.phase == Phase::Pending,
            r.reason@ == "CreatingService"@,
    {
        make_status(Phase::Pending, "CreatingService")
    }
}

/// Where the units of a prefix of the containers cannot be built, the
/// units of all of them cannot either, and the failure is the same.
proof fn lemma_container_units_prefix_fails(
    template: SystemDUnitView,
    prefix: Seq<char>,
    containers: Seq<Container>,
    data: Map<Seq<char>, Seq<char>>,
    package_root: Seq<char>,
    user_mode: bool,
    n: int,
)
    requires
        0 <= n <= containers.len(),
        container_units(template, prefix, containers.subrange(0, n), data, package_root, user_mode) is Err,
    ensures
        container_units(template, prefix, containers, data, package_root, user_mode)
            == container_units(template, prefix, containers.subrange(0, n), data, package_root, user_mode),
    decreases containers.len() - n,
{
    if n < containers.len() {
        assert(containers.subrange(0, n + 1).drop_last() =~= containers.subrange(0, n));
        lemma_container_units_prefix_fails(template, prefix, containers, data, package_root, user_mode, n + 1);
    } else {
        assert(containers.subrange(0, n) =~= containers);
    }
}

} // verus!
