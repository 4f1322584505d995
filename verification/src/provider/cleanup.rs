//! Cleanup of systemd units on startup.
//!
//! On startup the systemd units in the slice of the agent are compared to
//! the pods assigned to this node. A unit that is as expected is kept and
//! the agent takes ownership of it again when the pod starts. A unit
//! without a corresponding pod, or that differs from the specification of
//! its pod, is removed, and the agent creates a new one for the pod.
use vstd::prelude::*;
use crate::provider::error::StackableError;
use crate::provider::kubernetes::pod::Pod;
use crate::provider::states::pod::creating_config::pair_views;
use crate::provider::states::pod::creating_service::{pod_units, unit_views, CreatingService};
use crate::provider::states::pod::{action_views, PodState, UnitAction};
use crate::provider::systemdmanager::systemdunit::{failure_matches, qualified_name, unit_file_content, SystemDUnitView};
use crate::provider::StackableProvider;
use crate::text::{copy_str, str_eq, views};

verus! {

/// What reading the file of a unit gave.
#[derive(Debug)]
pub enum UnitFileContent {
    Content(String),
    /// The path of the unit file could not be determined.
    NoFilePath,
    /// The file could not be read.
    Unreadable,
}

/// What becomes of a unit in the slice of the agent.
#[derive(Clone, Copy, Debug, PartialEq, Eq, Structural)]
pub enum CleanupDecision {
    /// The unit belongs to a pod and is as expected.
    Keep,
    /// The pod of the unit is terminating.
    RemoveTerminating,
    /// The unit differs from the specification of its pod.
    RemoveDiffers,
    /// The path of the unit file could not be determined.
    RemoveNoFilePath,
    /// The unit file could not be read.
    RemoveUnreadable,
    /// No pod corresponds to the unit.
    RemoveNoPod,
}

/// The units of a pod as pairs of file name and content.
pub open spec fn unit_entries(units: Seq<SystemDUnitView>) -> Seq<(Seq<char>, Seq<char>)> {
    units.map_values(|u: SystemDUnitView| (qualified_name(u), unit_file_content(u)))
}

/// The decision for a unit: `expected` is the content that the pod of the
/// unit specifies and whether that pod is terminating, `None` where no pod
/// has the unit; `actual` is what reading the unit file gave.
pub open spec fn decision_for(expected: Option<(Seq<char>, bool)>, actual: UnitFileContent) -> CleanupDecision {
    match expected {
        None => CleanupDecision::RemoveNoPod,
        Some((content, terminating)) => match actual {
            UnitFileContent::Content(c) => if c@ == content && !terminating {
                CleanupDecision::Keep
            } else if terminating {
                CleanupDecision::RemoveTerminating
            } else {
                CleanupDecision::RemoveDiffers
            },
            UnitFileContent::NoFilePath => CleanupDecision::RemoveNoFilePath,
            UnitFileContent::Unreadable => CleanupDecision::RemoveUnreadable,
        },
    }
}

/// The expected content of unit `name` and whether its pod is terminating:
/// the last entry for the name counts.
pub open spec fn expected_entry(entries: Seq<(Seq<char>, Seq<char>, bool)>, name: Seq<char>) -> Option<(Seq<char>, bool)>
    decreases entries.len(),
{
    if entries.len() == 0 {
        None
    } else if entries.last().0 == name {
        Some((entries.last().1, entries.last().2))
    } else {
        expected_entry(entries.drop_last(), name)
    }
}

/// The views of the expected units.
pub open spec fn entry_views(entries: Seq<(String, String, bool)>) -> Seq<(Seq<char>, Seq<char>, bool)> {
    entries.map_values(|e: (String, String, bool)| (e.0@, e.1@, e.2))
}

/// Decides what becomes of a unit, see [`decision_for`]. The unit file is
/// only read where a pod has the unit, so `actual` is needed there only.
pub fn cleanup_decision(expected: &Option<(String, bool)>, actual: &Option<UnitFileContent>) -> (r: CleanupDecision)
    requires
        expected is Some ==> actual is Some,
    ensures
        match expected {
            None => r == CleanupDecision::RemoveNoPod,
            Some((content, terminating)) => r == decision_for(Some((content@, *terminating)), actual.unwrap()),
        },
{
    match expected {
        None => CleanupDecision::RemoveNoPod,
        Some((content, terminating)) => match actual {
            Some(UnitFileContent::Content(c)) => {
                if str_eq(c.as_str(), content.as_str()) && !*terminating {
                    CleanupDecision::Keep
                } else if *terminating {
                    CleanupDecision::RemoveTerminating
                } else {
                    CleanupDecision::RemoveDiffers
                }
            },
            Some(UnitFileContent::NoFilePath) => CleanupDecision::RemoveNoFilePath,
            Some(UnitFileContent::Unreadable) => CleanupDecision::RemoveUnreadable,
            None => CleanupDecision::RemoveNoPod,
        },
    }
}

/// The expected content of the unit `name`, see [`expected_entry`].
pub fn expected_unit(entries: &Vec<(String, String, bool)>, name: &str) -> (r: Option<(String, bool)>)
    ensures
        match expected_entry(entry_views(entries@), name@) {
            None => r is None,
            Some((c, t)) => r matches Some(x) && x.0@ == c && x.1 == t,
        },
{
    let ghost e = entry_views(entries@);
    let mut i = entries.len();
    assert(e.subrange(0, i as int) =~= e);
    while i > 0
        invariant
            i <= entries@.len(),
            e == entry_views(entries@),
            expected_entry(e, name@) == expected_entry(e.subrange(0, i as int), name@),
        decreases i,
    {
        assert(e.subrange(0, i as int).drop_last() =~= e.subrange(0, i - 1));
        if str_eq(entries[i - 1].0.as_str(), name) {
            return Some((entries[i - 1].1.clone(), entries[i - 1].2));
        }
        i = i - 1;
    }
    None
}

/// The units of the slice that the cleanup checks: none where the daemon
/// could not be reloaded or the slice could not be listed, then no unit is
/// stopped, disabled or deleted; otherwise every unit of the slice.
pub fn units_to_check(reload_ok: bool, slice: Option<Vec<String>>) -> (r: Vec<String>)
    ensures
        !reload_ok ==> r@.len() == 0,
        slice is None ==> r@.len() == 0,
        reload_ok ==> (slice matches Some(u) ==> r@ == u@),
{
    if !reload_ok {
        return Vec::new();
    }
    match slice {
        Some(u) => u,
        None => Vec::new(),
    }
}

/// The expected units of all pods: for each pod whose units could be
/// generated, in order, its units with whether the pod is terminating.
pub open spec fn flattened_entries(pods: Seq<(Result<Vec<(String, String)>, StackableError>, bool)>) -> Seq<
    (Seq<char>, Seq<char>, bool),
>
    decreases pods.len(),
{
    if pods.len() == 0 {
        Seq::empty()
    } else {
        let rest = flattened_entries(pods.drop_last());
        match pods.last().0 {
            Ok(units) => rest + pair_views(units@).map_values(
                |u: (Seq<char>, Seq<char>)| (u.0, u.1, pods.last().1),
            ),
            Err(_) => rest,
        }
    }
}

/// The expected units of the pods assigned to the node, from what
/// generating the units of each pod gave and whether the pod is
/// terminating; a pod whose units could not be generated adds none.
pub fn cleanup_entries(pods: &Vec<(Result<Vec<(String, String)>, StackableError>, bool)>) -> (r: Vec<(String, String, bool)>)
    ensures
        entry_views(r@) == flattened_entries(pods@),
{
    let mut r: Vec<(String, String, bool)> = Vec::new();
    let mut i: usize = 0;
    while i < pods.len()
        invariant
            i <= pods@.len(),
            entry_views(r@) == flattened_entries(pods@.subrange(0, i as int)),
        decreases pods@.len() - i,
    {
        assert(pods@.subrange(0, i + 1).drop_last() =~= pods@.subrange(0, i as int));
        let terminating = pods[i].1;
        match &pods[i].0 {
            Ok(units) => {
                let ghost base = entry_views(r@);
                let mut j: usize = 0;
                while j < units.len()
                    invariant
                        j <= units@.len(),
                        entry_views(r@) == base + pair_views(units@.subrange(0, j as int)).map_values(
                            |u: (Seq<char>, Seq<char>)| (u.0, u.1, terminating),
                        ),
                    decreases units@.len() - j,
                {
                    let ghost before = r@;
                    r.push((units[j].0.clone(), units[j].1.clone(), terminating));
                    assert(entry_views(r@) =~= entry_views(before).push((units@[j as int].0@, units@[j as int].1@, terminating)));
                    assert(pair_views(units@.subrange(0, j + 1)) =~= pair_views(units@.subrange(0, j as int)).push(
                        (units@[j as int].0@, units@[j as int].1@),
                    ));
                    assert(entry_views(r@) =~= base + pair_views(units@.subrange(0, j + 1)).map_values(
                        |u: (Seq<char>, Seq<char>)| (u.0, u.1, terminating),
                    ));
                    j = j + 1;
                }
                assert(units@.subrange(0, j as int) =~= units@);
            },
            Err(_) => {},
        }
        i = i + 1;
    }
    assert(pods@.subrange(0, i as int) =~= pods@);
    r
}

/// What is done with a unit of the slice: nothing where it is kept,
/// otherwise it is stopped, disabled and its unit file deleted. A failing
/// step is reported and the next is made all the same.
pub fn cleanup_actions(decision: CleanupDecision, unit: &str) -> (r: Vec<UnitAction>)
    ensures
        decision == CleanupDecision::Keep ==> r@.len() == 0,
        decision != CleanupDecision::Keep ==> action_views(r@) == seq![(1int, unit@), (3int, unit@), (4int, unit@)],
{
    let mut r: Vec<UnitAction> = Vec::new();
    if decision != CleanupDecision::Keep {
        r.push(UnitAction::Stop(copy_str(unit)));
        r.push(UnitAction::Disable(copy_str(unit)));
        r.push(UnitAction::Remove(copy_str(unit)));
        assert(action_views(r@) =~= seq![(1int, unit@), (3int, unit@), (4int, unit@)]);
    }
    r
}

/// The decision for a unit of the slice from the expected units and what
/// reading its file gave (read only where a pod has the unit).
pub open spec fn unit_decision(
    entries: Seq<(Seq<char>, Seq<char>, bool)>,
    unit: Seq<char>,
    actual: Option<UnitFileContent>,
) -> CleanupDecision {
    match expected_entry(entries, unit) {
        None => CleanupDecision::RemoveNoPod,
        Some(e) => decision_for(Some(e), actual.unwrap()),
    }
}

/// The operations of the cleanup, unit by unit in order: nothing for a
/// unit that is kept, otherwise stop, disable and delete its file.
pub open spec fn cleanup_operations(
    entries: Seq<(Seq<char>, Seq<char>, bool)>,
    units: Seq<Seq<char>>,
    contents: Seq<Option<UnitFileContent>>,
) -> Seq<(int, Seq<char>)>
    decreases units.len(),
{
    if units.len() == 0 || contents.len() == 0 {
        Seq::empty()
    } else {
        let rest = cleanup_operations(entries, units.drop_last(), contents.drop_last());
        let u = units.last();
        if unit_decision(entries, u, contents.last()) == CleanupDecision::Keep {
            rest
        } else {
            rest + seq![(1int, u), (3int, u), (4int, u)]
        }
    }
}

/// The cleanup over all units of the slice: `units` are the units to
/// check (see [`units_to_check`]), `entries` the expected units of the
/// pods (see [`cleanup_entries`]) and `contents` what reading the file of
/// each unit gave, read where a pod has the unit. Each unit is kept
/// exactly when a pod that is not terminating has it with the content of
/// its file; every other unit is stopped, disabled and its file deleted.
pub fn cleanup_plan(
    units: &Vec<String>,
    entries: &Vec<(String, String, bool)>,
    contents: &Vec<Option<UnitFileContent>>,
) -> (r: Vec<UnitAction>)
    requires
        contents@.len() == units@.len(),
        forall|i: int| 0 <= i < units@.len() && #[trigger] expected_entry(entry_views(entries@), units@[i]@) is Some
            ==> contents@[i] is Some,
    ensures
        action_views(r@) == cleanup_operations(entry_views(entries@), views(units@), contents@),
{
    let mut r: Vec<UnitAction> = Vec::new();
    let mut i: usize = 0;
    while i < units.len()
        invariant
            i <= units@.len(),
            contents@.len() == units@.len(),
            forall|i: int| 0 <= i < units@.len() && #[trigger] expected_entry(entry_views(entries@), units@[i]@) is Some
                ==> contents@[i] is Some,
            action_views(r@) == cleanup_operations(
                entry_views(entries@),
                views(units@.subrange(0, i as int)),
                contents@.subrange(0, i as int),
            ),
        decreases units@.len() - i,
    {
        assert(views(units@.subrange(0, i + 1)).drop_last() =~= views(units@.subrange(0, i as int)));
        assert(views(units@.subrange(0, i + 1)).last() == units@[i as int]@);
        assert(contents@.subrange(0, i + 1).drop_last() =~= contents@.subrange(0, i as int));
        let expected = expected_unit(entries, units[i].as_str());
        let decision = cleanup_decision(&expected, &contents[i]);
        assert(decision == unit_decision(entry_views(entries@), units@[i as int]@, contents@[i as int]));
        let mut actions = cleanup_actions(decision, units[i].as_str());
        let ghost prev = r@;
        let ghost added = actions@;
        r.append(&mut actions);
        assert(action_views(r@) =~= action_views(prev) + action_views(added));
        if decision == CleanupDecision::Keep {
            assert(action_views(added) =~= Seq::<(int, Seq<char>)>::empty());
        }
        i = i + 1;
    }
    assert(units@.subrange(0, i as int) =~= units@);
    assert(contents@.subrange(0, i as int) =~= contents@);
    r
}

impl StackableProvider {
    /// The unit files that the agent would create for the pod, as pairs of
    /// file name and content: the same units as in creating the service,
    /// with the state that the provider gives the pod.
    pub fn units_from_pod(&self, pod: &Pod, user_mode: bool) -> (r: Result<Vec<(String, String)>, StackableError>)
        ensures
            pod.uid is None ==> (r matches Err(e) && e is MissingObjectKey && e->MissingObjectKey_key@ == ".metadata.uid"@),
            pod.uid is Some && !StackableProvider::package_ok(*pod) ==> (r matches Err(e) && e is PodValidationError),
            r is Ok ==> exists|s: PodState|
                #[trigger] self.state_fits(*pod, s) && (pod_units(*pod, user_mode, s) matches Ok(us)
                    && pair_views(r->Ok_0@) == unit_entries(us)),
            (r is Err && pod.uid is Some && StackableProvider::package_ok(*pod)) ==> exists|s: PodState|
                #[trigger] self.state_fits(*pod, s) && (pod_units(*pod, user_mode, s) matches Err(f)
                    && failure_matches(r->Err_0, f)),
    {
        let pod_state = match self.initialize_pod_state(pod) {
            Ok(s) => s,
            Err(e) => return Err(e),
        };
        let units = match CreatingService::units_for_pod(pod, user_mode, &pod_state) {
            Ok(u) => u,
            Err(e) => return Err(e),
        };
        let mut r: Vec<(String, String)> = Vec::new();
        let mut i: usize = 0;
        while i < units.len()
            invariant
                i <= units@.len(),
                pair_views(r@) == unit_entries(unit_views(units@.subrange(0, i as int))),
            decreases units@.len() - i,
        {
            let name = units[i].get_name();
            let content = units[i].get_unit_file_content();
            let ghost prev = r@;
            r.push((name, content));
            assert(unit_views(units@.subrange(0, i + 1))
                =~= unit_views(units@.subrange(0, i as int)).push(units@[i as int]@));
            assert(pair_views(r@) =~= pair_views(prev).push((qualified_name(units@[i as int]@), unit_file_content(units@[i as int]@))));
            i = i + 1;
        }
        assert(units@.subrange(0, i as int) =~= units@);
        Ok(r)
    }
}

/// A unit is kept exactly when a pod that is not terminating has it and
/// its file holds the content that the agent would write for that pod.
pub proof fn lemma_kept_iff_unchanged(expected: Option<(Seq<char>, bool)>, actual: UnitFileContent)
    ensures
        decision_for(expected, actual) == CleanupDecision::Keep <==> (expected matches Some((c, t)) && !t
            && (actual matches UnitFileContent::Content(a) && a@ == c)),
{
}

/// The unit `u` is one of the units and is not kept.
pub open spec fn removed_unit(
    entries: Seq<(Seq<char>, Seq<char>, bool)>,
    units: Seq<Seq<char>>,
    contents: Seq<Option<UnitFileContent>>,
    u: Seq<char>,
) -> bool {
    exists|i: int| 0 <= i < units.len() && #[trigger] units[i] == u && unit_decision(entries, units[i], contents[i])
        != CleanupDecision::Keep
}

/// The cleanup stops, disables and deletes the file of every unit that is
/// not kept, and touches no unit that is kept or not in the list.
pub proof fn lemma_cleanup_touches_exactly_the_removed(
    entries: Seq<(Seq<char>, Seq<char>, bool)>,
    units: Seq<Seq<char>>,
    contents: Seq<Option<UnitFileContent>>,
)
    requires
        units.len() == contents.len(),
    ensures
        forall|i: int| 0 <= i < units.len() && unit_decision(entries, units[i], contents[i]) != CleanupDecision::Keep
            ==> #[trigger] cleanup_operations(entries, units, contents).contains((1int, units[i]))
                && cleanup_operations(entries, units, contents).contains((3int, units[i]))
                && cleanup_operations(entries, units, contents).contains((4int, units[i])),
        forall|j: int| 0 <= j < cleanup_operations(entries, units, contents).len() ==> removed_unit(
            entries,
            units,
            contents,
            #[trigger] cleanup_operations(entries, units, contents)[j].1,
        ),
    decreases units.len(),
{
    if units.len() == 0 {
        assert(cleanup_operations(entries, units, contents).len() == 0);
    } else {
        let u = units.drop_last();
        let c = contents.drop_last();
        lemma_cleanup_touches_exactly_the_removed(entries, u, c);
        let rest = cleanup_operations(entries, u, c);
        let ops = cleanup_operations(entries, units, contents);
        let k = units.len() - 1;
        let last = units[k];
        let kept = unit_decision(entries, last, contents[k]) == CleanupDecision::Keep;
        let added: Seq<(int, Seq<char>)> = seq![(1int, last), (3int, last), (4int, last)];
        if !kept {
            assert(ops == rest + added);
        } else {
            assert(ops == rest);
        }
        assert forall|i: int| 0 <= i < units.len() && unit_decision(entries, units[i], contents[i]) != CleanupDecision::Keep
            implies #[trigger] ops.contains((1int, units[i])) && ops.contains((3int, units[i])) && ops.contains((4int, units[i])) by {
            if i < k {
                assert(u[i] == units[i] && c[i] == contents[i]);
                assert(rest.contains((1int, u[i])));
                let a = choose|a: int| 0 <= a < rest.len() && rest[a] == (1int, u[i]);
                let b = choose|b: int| 0 <= b < rest.len() && rest[b] == (3int, u[i]);
                let d = choose|d: int| 0 <= d < rest.len() && rest[d] == (4int, u[i]);
                assert(ops[a] == rest[a] && ops[b] == rest[b] && ops[d] == rest[d]);
            } else {
                assert(ops[rest.len() as int] == (1int, last));
                assert(ops[rest.len() as int + 1] == (3int, last));
                assert(ops[rest.len() as int + 2] == (4int, last));
            }
        }
        assert forall|j: int| 0 <= j < ops.len() implies removed_unit(entries, units, contents, #[trigger] ops[j].1) by {
            if j < rest.len() {
                assert(ops[j] == rest[j]);
                assert(removed_unit(entries, u, c, rest[j].1));
                let i = choose|i: int| 0 <= i < u.len() && #[trigger] u[i] == rest[j].1 && unit_decision(entries, u[i], c[i])
                    != CleanupDecision::Keep;
                assert(units[i] == u[i] && contents[i] == c[i]);
            } else {
                assert(ops[j].1 == last);
                assert(units[k] == ops[j].1);
            }
        }
    }
}

} // verus!
