//! The pod object was deleted in Kubernetes.
use vstd::prelude::*;
use crate::provider::error::StackableError;
use crate::provider::handles::{service_units, service_units_of, HandleKey, PodHandleMap, PodKey};
use crate::provider::states::pod::{action_views, make_status, NextState, Phase, StatusPatch, UnitAction};
use crate::text::{opt_view, str_eq, views};

verus! {

/// The pod object was deleted in Kubernetes or all its containers ended;
/// `successful` tells whether none of them failed.
#[derive(Debug)]
pub struct Terminated {
    pub successful: bool,
}

/// Each unit stopped, disabled and its file removed, in order, followed by
/// one reload of the daemon; nothing where the pod has no units.
pub open spec fn termination_plan(units: Option<Seq<Seq<char>>>) -> Seq<(int, Seq<char>)> {
    match units {
        None => Seq::empty(),
        Some(u) => stop_and_remove(u).push((5, Seq::empty())),
    }
}

/// Stop, disable and remove for each unit, in order.
pub open spec fn stop_and_remove(units: Seq<Seq<char>>) -> Seq<(int, Seq<char>)>
    decreases units.len(),
{
    if units.len() == 0 {
        Seq::empty()
    } else {
        stop_and_remove(units.drop_last()).push((1, units.last())).push((3, units.last())).push((4, units.last()))
    }
}

/// A pod whose phase is `Succeeded` or `Failed` already keeps its status.
pub open spec fn already_terminated(phase: Option<Seq<char>>) -> bool {
    phase == Some("Succeeded"@) || phase == Some("Failed"@)
}

impl Terminated {
    /// The operations that tear down the units of a pod: `units` are the
    /// units of its containers, `None` where the pod holds no units any
    /// more. The operations run in a
    /// [`StepRun`](crate::provider::states::pod::StepRun): the first that
    /// fails ends the state machine with its error and the later ones are
    /// not made.
    pub fn unit_actions(units: &Option<Vec<String>>) -> (r: Vec<UnitAction>)
        ensures
            action_views(r@) == termination_plan(
                match units {
                    Some(u) => Some(views(u@)),
                    None => None,
                },
            ),
    {
        let mut r: Vec<UnitAction> = Vec::new();
        match units {
            None => {
                assert(action_views(r@) =~= Seq::empty());
            },
            Some(u) => {
                let mut i: usize = 0;
                while i < u.len()
                    invariant
                        i <= u@.len(),
                        action_views(r@) == stop_and_remove(views(u@.subrange(0, i as int))),
                    decreases u@.len() - i,
                {
                    assert(views(u@.subrange(0, i + 1)).drop_last() =~= views(u@.subrange(0, i as int)));
                    let ghost before = r@;
                    r.push(UnitAction::Stop(u[i].clone()));
                    r.push(UnitAction::Disable(u[i].clone()));
                    r.push(UnitAction::Remove(u[i].clone()));
                    assert(action_views(r@) =~= action_views(before).push((1, u@[i as int]@)).push((3, u@[i as int]@)).push(
                        (4, u@[i as int]@),
                    ));
                    i = i + 1;
                }
                assert(u@.subrange(0, i as int) =~= u@);
                let ghost before = r@;
                r.push(UnitAction::Reload);
                assert(action_views(r@) =~= action_views(before).push((5, Seq::empty())));
            },
        }
        r
    }

    /// Takes the handles of the pod out of the handles of the provider:
    /// the units of its containers, each once, or `None` where the pod has
    /// no handles (it was torn down already).
    pub fn take_units(handles: &mut PodHandleMap, pod_key: &PodKey) -> (r: Option<Vec<String>>)
        ensures
            final(handles)@ == old(handles)@.remove(pod_key.key_view()),
            r is None <==> !old(handles)@.contains_key(pod_key.key_view()),
            r matches Some(u) ==> forall|x: Seq<char>| #[trigger] views(u@).contains(x) <==> service_units_of(
                old(handles)@[pod_key.key_view()],
            ).contains(x),
    {
        match handles.remove(pod_key) {
            Some(h) => Some(service_units(&h)),
            None => None,
        }
    }

    /// The step of a terminated pod: its handles are taken out of the
    /// handles of the provider, and the operations that tear down its
    /// units are returned: each unit stopped, disabled and its file
    /// removed, then one reload; nothing where the pod had no handles.
    /// The units come in some order, each unit of the pod once.
    pub fn step(handles: &mut PodHandleMap, pod_key: &PodKey) -> (r: Vec<UnitAction>)
        ensures
            final(handles)@ == old(handles)@.remove(pod_key.key_view()),
            !old(handles)@.contains_key(pod_key.key_view()) ==> r@.len() == 0,
            old(handles)@.contains_key(pod_key.key_view()) ==> exists|u: Seq<Seq<char>>|
                (forall|x: Seq<char>| #[trigger] u.contains(x) <==> service_units_of(
                    old(handles)@[pod_key.key_view()],
                ).contains(x)) && action_views(r@) == termination_plan(Some(u)),
    {
        let units = Terminated::take_units(handles, pod_key);
        let r = Terminated::unit_actions(&units);
        proof {
            if let Some(u) = units {
                assert(forall|x: Seq<char>| #[trigger] views(u@).contains(x) <==> service_units_of(
                    old(handles)@[pod_key.key_view()],
                ).contains(x));
            }
            assert(action_views(r@).len() == r@.len());
        }
        r
    }

    /// The state machine ends once the units are torn down: with the error
    /// of the first operation that failed, or successfully.
    pub fn next(result: Result<(), StackableError>) -> (r: NextState)
        ensures
            r matches NextState::Complete { error } && match result {
                Ok(()) => error is None,
                Err(e) => error == Some(e),
            },
    {
        match result {
            Ok(()) => NextState::Complete { error: None },
            Err(e) => NextState::Complete { error: Some(e) },
        }
    }

    /// The status of the pod: unchanged where its phase shows that it
    /// terminated already, otherwise succeeded with `Completed` or failed
    /// with `Error`.
    pub fn status(&self, phase: &Option<String>) -> (r: Option<StatusPatch>)
        ensures
            already_terminated(opt_view(*phase)) ==> r is None,
            !already_terminated(opt_view(*phase)) && self.successful ==> (r matches Some(s)
                && s.phase == Phase::Succeeded && s.reason@ == "Completed"@),
            !already_terminated(opt_view(*phase)) && !self.successful ==> (r matches Some(s)
                && s.phase == Phase::Failed && s.reason@ == "Error"@),
    {
        let terminated = match phase {
            Some(p) => str_eq(p.as_str(), "Succeeded") || str_eq(p.as_str(), "Failed"),
            None => false,
        };
        if terminated {
            None
        } else if self.successful {
            Some(make_status(Phase::Succeeded, "Completed"))
        } else {
            Some(make_status(Phase::Failed, "Error"))
        }
    }
}

} // verus!
