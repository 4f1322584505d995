//! Watching the units of a running pod.
use vstd::prelude::*;
use crate::provider::error::StackableError;
use crate::provider::states::pod::{make_status, NextState, Phase, StatusPatch};
use crate::provider::systemdmanager::service::ServiceState;
use crate::text::{concat3, copy_str, views};

verus! {

/// The pod is running; its units are checked periodically until all of
/// them have terminated.
#[derive(Debug)]
pub struct Running;

/// The condition that a running pod reports.
#[derive(Debug)]
pub struct PodCondition {
    pub message: String,
    pub reason: String,
    pub status: String,
    pub type_: String,
}

/// The units still watched, by the names of their containers, and whether
/// one of the units failed.
#[derive(Debug)]
pub struct RunningUnits {
    pub remaining: Vec<String>,
    pub container_failed: bool,
}

/// The units of one check that terminated, successfully or not.
#[derive(Debug)]
pub struct RunningCheck {
    pub succeeded: Vec<String>,
    pub failed: Vec<String>,
}

/// The names whose state is `s`, in order.
pub open spec fn with_state(names: Seq<Seq<char>>, states: Seq<Option<ServiceState>>, s: ServiceState) -> Seq<
    Seq<char>,
>
    decreases names.len(),
{
    if names.len() == 0 || states.len() == 0 {
        Seq::empty()
    } else {
        let rest = with_state(names.drop_last(), states.drop_last(), s);
        if states.last() == Some(s) {
            rest.push(names.last())
        } else {
            rest
        }
    }
}

/// A unit whose state could be read and shows that it terminated.
pub open spec fn has_terminated(state: Option<ServiceState>) -> bool {
    state == Some(ServiceState::Succeeded) || state == Some(ServiceState::Failed)
}

/// The names whose units have not terminated (their state is not known,
/// or shows that they were created or started), in order.
pub open spec fn not_terminated(names: Seq<Seq<char>>, states: Seq<Option<ServiceState>>) -> Seq<Seq<char>>
    decreases names.len(),
{
    if names.len() == 0 || states.len() == 0 {
        Seq::empty()
    } else {
        let rest = not_terminated(names.drop_last(), states.drop_last());
        if has_terminated(states.last()) {
            rest
        } else {
            rest.push(names.last())
        }
    }
}

impl RunningUnits {
    /// All units of the pod are watched, none failed so far.
    pub fn new(containers: Vec<String>) -> (r: RunningUnits)
        ensures
            r.remaining@ == containers@,
            !r.container_failed,
    {
        RunningUnits { remaining: containers, container_failed: false }
    }

    /// No unit is left to watch.
    pub fn is_done(&self) -> (r: bool)
        ensures
            r == (self.remaining@.len() == 0),
    {
        self.remaining.len() == 0
    }

    /// Takes the states that one check found for the remaining units, in
    /// the same order (`None` where the state could not be read): the
    /// units that succeeded or failed are no longer watched, and a failed
    /// one is remembered.
    pub fn step(&mut self, states: &Vec<Option<ServiceState>>) -> (r: RunningCheck)
        requires
            states@.len() == old(self).remaining@.len(),
        ensures
            views(r.succeeded@) == with_state(views(old(self).remaining@), states@, ServiceState::Succeeded),
            views(r.failed@) == with_state(views(old(self).remaining@), states@, ServiceState::Failed),
            views(final(self).remaining@) == not_terminated(views(old(self).remaining@), states@),
            final(self).container_failed == (old(self).container_failed || r.failed@.len() > 0),
    {
        let mut succeeded: Vec<String> = Vec::new();
        let mut failed: Vec<String> = Vec::new();
        let mut still: Vec<String> = Vec::new();
        let ghost names = views(self.remaining@);
        let mut i: usize = 0;
        while i < states.len()
            invariant
                i <= states@.len(),
                states@.len() == self.remaining@.len(),
                names == views(self.remaining@),
                views(succeeded@) == with_state(names.subrange(0, i as int), states@.subrange(0, i as int), ServiceState::Succeeded),
                views(failed@) == with_state(names.subrange(0, i as int), states@.subrange(0, i as int), ServiceState::Failed),
                views(still@) == not_terminated(names.subrange(0, i as int), states@.subrange(0, i as int)),
            decreases states@.len() - i,
        {
            assert(names.subrange(0, i + 1).drop_last() =~= names.subrange(0, i as int));
            assert(states@.subrange(0, i + 1).drop_last() =~= states@.subrange(0, i as int));
            let name = self.remaining[i].clone();
            let ghost n = name@;
            match states[i] {
                Some(ServiceState::Succeeded) => {
                    let ghost before = succeeded@;
                    succeeded.push(name);
                    assert(views(succeeded@) =~= views(before).push(n));
                },
                Some(ServiceState::Failed) => {
                    let ghost before = failed@;
                    failed.push(name);
                    assert(views(failed@) =~= views(before).push(n));
                },
                _ => {
                    let ghost before = still@;
                    still.push(name);
                    assert(views(still@) =~= views(before).push(n));
                },
            }
            i = i + 1;
        }
        assert(names.subrange(0, i as int) =~= names);
        assert(states@.subrange(0, i as int) =~= states@);
        self.remaining = still;
        self.container_failed = self.container_failed || failed.len() > 0;
        RunningCheck { succeeded, failed }
    }
}

/// The status patches of one check: each container that succeeded is
/// terminated with `Completed`, then each that failed with `Error` and
/// marked failed.
pub open spec fn check_patches(succeeded: Seq<Seq<char>>, failed: Seq<Seq<char>>) -> Seq<(Seq<char>, Seq<char>, bool)> {
    succeeded.map_values(|n: Seq<char>| (n, "Completed"@, false)) + failed.map_values(
        |n: Seq<char>| (n, "Error"@, true),
    )
}

/// The views of status patches.
pub open spec fn patch_views(v: Seq<(String, String, bool)>) -> Seq<(Seq<char>, Seq<char>, bool)> {
    v.map_values(|p: (String, String, bool)| (p.0@, p.1@, p.2))
}

impl RunningCheck {
    /// The status patches of the containers that terminated in this
    /// check, by container name, state reason and whether it failed.
    pub fn patches(&self) -> (r: Vec<(String, String, bool)>)
        ensures
            patch_views(r@) == check_patches(views(self.succeeded@), views(self.failed@)),
    {
        let mut r: Vec<(String, String, bool)> = Vec::new();
        let mut i: usize = 0;
        while i < self.succeeded.len()
            invariant
                i <= self.succeeded@.len(),
                patch_views(r@) == views(self.succeeded@.subrange(0, i as int)).map_values(
                    |n: Seq<char>| (n, "Completed"@, false),
                ),
            decreases self.succeeded@.len() - i,
        {
            let ghost before = r@;
            let (reason, failed) = Running::terminated_container_status(false);
            r.push((self.succeeded[i].clone(), reason, failed));
            assert(patch_views(r@) =~= patch_views(before).push((self.succeeded@[i as int]@, "Completed"@, false)));
            assert(views(self.succeeded@.subrange(0, i + 1)) =~= views(self.succeeded@.subrange(0, i as int)).push(
                self.succeeded@[i as int]@,
            ));
            assert(patch_views(r@) =~= views(self.succeeded@.subrange(0, i + 1)).map_values(
                |n: Seq<char>| (n, "Completed"@, false),
            ));
            i = i + 1;
        }
        assert(self.succeeded@.subrange(0, i as int) =~= self.succeeded@);
        let ghost first = patch_views(r@);
        let mut j: usize = 0;
        while j < self.failed.len()
            invariant
                j <= self.failed@.len(),
                patch_views(r@) == first + views(self.failed@.subrange(0, j as int)).map_values(
                    |n: Seq<char>| (n, "Error"@, true),
                ),
            decreases self.failed@.len() - j,
        {
            let (reason, failed) = Running::terminated_container_status(true);
            let ghost before = r@;
            r.push((self.failed[j].clone(), reason, failed));
            assert(patch_views(r@) =~= patch_views(before).push((self.failed@[j as int]@, "Error"@, true)));
            assert(views(self.failed@.subrange(0, j + 1)) =~= views(self.failed@.subrange(0, j as int)).push(
                self.failed@[j as int]@,
            ));
            assert(patch_views(r@) =~= first + views(self.failed@.subrange(0, j + 1)).map_values(
                |n: Seq<char>| (n, "Error"@, true),
            ));
            j = j + 1;
        }
        assert(self.failed@.subrange(0, j as int) =~= self.failed@);
        r
    }
}

/// The message of the error for a running pod without units.
pub open spec fn no_units_message(service_name: Seq<char>) -> Seq<char> {
    "No systemd units found for service ["@ + service_name
        + "], this should not happen, please report a bug for this!"@
}

impl Running {
    /// The state of a container whose unit terminated: `Completed` where
    /// it succeeded, `Error` and failed otherwise.
    pub fn terminated_container_status(failed: bool) -> (r: (String, bool))
        ensures
            r.0@ == if failed { "Error"@ } else { "Completed"@ },
            r.1 == failed,
    {
        if failed {
            (copy_str("Error"), true)
        } else {
            (copy_str("Completed"), false)
        }
    }

    /// One poll of a running pod: `states` are the states read for the
    /// remaining units, in order (`None` where a state could not be read).
    /// The units that succeeded or failed are no longer watched and get
    /// their status patches; once no unit is left the pod terminated,
    /// successfully where none failed, otherwise polling goes on.
    pub fn step(units: &mut RunningUnits, states: &Vec<Option<ServiceState>>) -> (r: (
        Option<NextState>,
        Vec<(String, String, bool)>,
    ))
        requires
            states@.len() == old(units).remaining@.len(),
        ensures
            views(final(units).remaining@) == not_terminated(views(old(units).remaining@), states@),
            final(units).container_failed == (old(units).container_failed || with_state(
                views(old(units).remaining@),
                states@,
                ServiceState::Failed,
            ).len() > 0),
            patch_views(r.1@) == check_patches(
                with_state(views(old(units).remaining@), states@, ServiceState::Succeeded),
                with_state(views(old(units).remaining@), states@, ServiceState::Failed),
            ),
            r.0 is Some <==> final(units).remaining@.len() == 0,
            r.0 matches Some(n) ==> (n matches NextState::Terminated { successful } && successful
                == !final(units).container_failed),
    {
        let check = units.step(states);
        let patches = check.patches();
        proof {
            assert(views(check.failed@).len() == check.failed@.len());
        }
        if units.is_done() {
            (Some(Running::next(units)), patches)
        } else {
            (None, patches)
        }
    }

    /// The containers of the pod to watch, from its handles: a pod
    /// without handles ends the state machine with an error.
    pub fn start(service_name: &str, containers: Option<Vec<String>>) -> (r: Result<RunningUnits, NextState>)
        ensures
            containers matches Some(c) ==> (r matches Ok(u) && u.remaining@ == c@ && !u.container_failed),
            containers is None ==> (r matches Err(NextState::Complete { error: Some(StackableError::RuntimeError { msg }) })
                && msg@ == no_units_message(service_name@)),
    {
        match containers {
            Some(c) => Ok(RunningUnits::new(c)),
            None => Err(NextState::Complete {
                error: Some(StackableError::RuntimeError {
                    msg: concat3(
                        "No systemd units found for service [",
                        service_name,
                        "], this should not happen, please report a bug for this!",
                    ),
                }),
            }),
        }
    }

    /// When no unit is left to watch, the pod terminated, successfully
    /// where none of its units failed.
    pub fn next(units: &RunningUnits) -> (r: NextState)
        requires
            units.remaining@.len() == 0,
        ensures
            r matches NextState::Terminated { successful } && successful == !units.container_failed,
    {
        NextState::Terminated { successful: !units.container_failed }
    }

    /// The pod is running and ready.
    pub fn status(&self) -> (r: (StatusPatch, PodCondition))
        ensures
            r.0.phase == Phase::Running,
            r.0.reason@ == "Running"@,
            r.1.message@ == "Service is running"@,
            r.1.reason@ == "Running"@,
            r.1.status@ == "True"@,
            r.1.type_@ == "Ready"@,
    {
        let condition = PodCondition {
            message: copy_str("Service is running"),
            reason: copy_str("Running"),
            status: copy_str("True"),
            type_: copy_str("Ready"),
        };
        (make_status(Phase::Running, "Running"), condition)
    }
}

/// Each check sorts every watched unit into exactly one of three lists:
/// succeeded, failed, or still watched.
pub proof fn lemma_check_partitions(names: Seq<Seq<char>>, states: Seq<Option<ServiceState>>)
    requires
        names.len() == states.len(),
    ensures
        with_state(names, states, ServiceState::Succeeded).len() + with_state(names, states, ServiceState::Failed).len()
            + not_terminated(names, states).len() == names.len(),
    decreases names.len(),
{
    if names.len() > 0 {
        lemma_check_partitions(names.drop_last(), states.drop_last());
    }
}

/// One check sorts each watched unit by the state read for it: a unit is
/// listed as succeeded (or failed) exactly where its state was read as
/// succeeded (or failed), and it stays watched exactly where its state
/// was not read or shows that it was created or started.
pub proof fn lemma_check_sorts_by_state(names: Seq<Seq<char>>, states: Seq<Option<ServiceState>>, x: Seq<char>)
    requires
        names.len() == states.len(),
    ensures
        with_state(names, states, ServiceState::Succeeded).contains(x) <==> exists|i: int|
            0 <= i < names.len() && #[trigger] names[i] == x && states[i] == Some(ServiceState::Succeeded),
        with_state(names, states, ServiceState::Failed).contains(x) <==> exists|i: int|
            0 <= i < names.len() && #[trigger] names[i] == x && states[i] == Some(ServiceState::Failed),
        not_terminated(names, states).contains(x) <==> exists|i: int|
            0 <= i < names.len() && #[trigger] names[i] == x && states[i] != Some(ServiceState::Succeeded)
                && states[i] != Some(ServiceState::Failed),
    decreases names.len(),
{
    if names.len() > 0 {
        let n = names.drop_last();
        let t = states.drop_last();
        lemma_check_sorts_by_state(n, t, x);
        let k = names.len() - 1;
        assert forall|i: int| 0 <= i < n.len() implies n[i] == names[i] && t[i] == states[i] by {}
        lemma_seq_push_contains(with_state(n, t, ServiceState::Succeeded), names[k], x);
        lemma_seq_push_contains(with_state(n, t, ServiceState::Failed), names[k], x);
        lemma_seq_push_contains(not_terminated(n, t), names[k], x);
        if exists|i: int| 0 <= i < names.len() && #[trigger] names[i] == x && states[i] == Some(ServiceState::Succeeded) {
            let i = choose|i: int| 0 <= i < names.len() && #[trigger] names[i] == x && states[i] == Some(ServiceState::Succeeded);
            if i < k {
                assert(n[i] == x && t[i] == states[i]);
            }
        }
        if exists|i: int| 0 <= i < names.len() && #[trigger] names[i] == x && states[i] == Some(ServiceState::Failed) {
            let i = choose|i: int| 0 <= i < names.len() && #[trigger] names[i] == x && states[i] == Some(ServiceState::Failed);
            if i < k {
                assert(n[i] == x && t[i] == states[i]);
            }
        }
        if exists|i: int| 0 <= i < names.len() && #[trigger] names[i] == x && states[i] != Some(ServiceState::Succeeded)
            && states[i] != Some(ServiceState::Failed) {
            let i = choose|i: int| 0 <= i < names.len() && #[trigger] names[i] == x && states[i] != Some(ServiceState::Succeeded)
                && states[i] != Some(ServiceState::Failed);
            if i < k {
                assert(n[i] == x && t[i] == states[i]);
            }
        }
        if exists|i: int| 0 <= i < n.len() && #[trigger] n[i] == x && t[i] == Some(ServiceState::Succeeded) {
            let i = choose|i: int| 0 <= i < n.len() && #[trigger] n[i] == x && t[i] == Some(ServiceState::Succeeded);
            assert(names[i] == x);
        }
        if exists|i: int| 0 <= i < n.len() && #[trigger] n[i] == x && t[i] == Some(ServiceState::Failed) {
            let i = choose|i: int| 0 <= i < n.len() && #[trigger] n[i] == x && t[i] == Some(ServiceState::Failed);
            assert(names[i] == x);
        }
        if exists|i: int| 0 <= i < n.len() && #[trigger] n[i] == x && t[i] != Some(ServiceState::Succeeded)
            && t[i] != Some(ServiceState::Failed) {
            let i = choose|i: int| 0 <= i < n.len() && #[trigger] n[i] == x && t[i] != Some(ServiceState::Succeeded)
                && t[i] != Some(ServiceState::Failed);
            assert(names[i] == x);
        }
    }
}

/// Pushing an element adds exactly it to what the sequence contains.
proof fn lemma_seq_push_contains(s: Seq<Seq<char>>, a: Seq<char>, x: Seq<char>)
    ensures
        s.push(a).contains(x) <==> (s.contains(x) || a == x),
{
    if s.push(a).contains(x) {
        let i = choose|i: int| 0 <= i < s.push(a).len() && s.push(a)[i] == x;
        if i < s.len() {
            assert(s[i] == x);
        }
    }
    if s.contains(x) {
        let i = choose|i: int| 0 <= i < s.len() && s[i] == x;
        assert(s.push(a)[i] == x);
    }
    if a == x {
        assert(s.push(a)[s.len() as int] == x);
    }
}

} // verus!
