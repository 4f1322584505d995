use stackable_agent::provider::error::StackableError;
use stackable_agent::provider::states::pod::UnitAction;
use stackable_agent::provider::systemdmanager::manager::{JobOutcome, PathState, SystemdManager};
use stackable_agent::provider::systemdmanager::systemd1_api::{ActiveState, JobRemovedResult};

fn path(exists: bool, is_symlink: bool, is_file: bool) -> PathState {
    PathState { exists, is_symlink, is_file }
}

#[test]
fn removal_disables_deletes_and_reloads() {
    let actions = SystemdManager::removal_actions("u.service", true);
    assert!(matches!(&actions[..], [UnitAction::Disable(a), UnitAction::Remove(b), UnitAction::Reload] if a == "u.service" && b == "u.service"));
    let actions = SystemdManager::removal_actions("u.service", false);
    assert!(matches!(&actions[..], [UnitAction::Disable(a), UnitAction::Remove(b)] if a == "u.service" && b == "u.service"));
}

#[test]
fn removing_a_linked_unit_deletes_the_link_only() {
    let manager = SystemdManager::new(false, "");
    assert_eq!("/lib/systemd/system/u.service", manager.removal_file_path("u.service"));
    assert_eq!("/lib/systemd/system/u.service", manager.removal_file_path("/srv/units/u.service"));
    assert_eq!("/lib/systemd/system/", manager.removal_file_path("/srv/units/"));
}

#[test]
fn calling_a_method_fails_on_any_error() {
    let ok = || Ok::<(), String>(());
    let err = |m: &str| Err::<(), String>(m.to_string());
    assert!(SystemdManager::call_outcome(ok(), ok(), Some(JobRemovedResult::Done)).is_ok());
    match SystemdManager::call_outcome(err("no bus"), ok(), Some(JobRemovedResult::Done)) {
        Err(StackableError::RuntimeError { msg }) => assert_eq!("no bus", msg),
        other => panic!("unexpected {:?}", other),
    }
    match SystemdManager::call_outcome(ok(), err("no unit"), Some(JobRemovedResult::Done)) {
        Err(StackableError::RuntimeError { msg }) => assert_eq!("no unit", msg),
        other => panic!("unexpected {:?}", other),
    }
    match SystemdManager::call_outcome(ok(), ok(), Some(JobRemovedResult::Timeout)) {
        Err(StackableError::RuntimeError { msg }) => assert_eq!("The systemd job failed", msg),
        other => panic!("unexpected {:?}", other),
    }
    match SystemdManager::call_outcome(ok(), ok(), None) {
        Err(StackableError::RuntimeError { msg }) => assert_eq!("No signal was returned for the systemd job", msg),
        other => panic!("unexpected {:?}", other),
    }
}

#[test]
fn running_and_job_outcomes() {
    assert!(SystemdManager::is_running_state(ActiveState::Active));
    assert!(!SystemdManager::is_running_state(ActiveState::Activating));
    assert_eq!(JobOutcome::Done, SystemdManager::job_outcome(Some(JobRemovedResult::Done)));
    assert_eq!(
        JobOutcome::Failed(JobRemovedResult::Canceled),
        SystemdManager::job_outcome(Some(JobRemovedResult::Canceled))
    );
    assert_eq!(JobOutcome::NoSignal, SystemdManager::job_outcome(None));
    assert_eq!(220, SystemdManager::max_queued_messages(110));
}

#[test]
fn unit_files_are_planned() {
    let manager = SystemdManager::new(false, "");
    assert_eq!("/lib/systemd/system/a.service", manager.unit_file_path("a.service"));
    assert_eq!("/lib/systemd/system/a.service", manager.target_file_path("a.service", &None));
    assert_eq!("/srv/units/a.service", manager.target_file_path("a.service", &Some(String::from("/srv/units"))));

    let plan = SystemdManager::plan_unit_file(false, false, true, path(false, false, false), path(false, false, false)).unwrap();
    assert!(plan.write && !plan.link && !plan.remove_target && !plan.remove_unit_file);

    let plan = SystemdManager::plan_unit_file(false, true, true, path(true, false, true), path(true, false, true)).unwrap();
    assert!(plan.remove_target && !plan.remove_unit_file && plan.write);

    let plan = SystemdManager::plan_unit_file(false, true, true, path(true, true, false), path(true, true, false)).unwrap();
    assert!(plan.remove_target && plan.write);

    let plan = SystemdManager::plan_unit_file(true, false, false, path(true, false, true), path(true, true, false)).unwrap();
    assert!(!plan.write && plan.link && !plan.link_force && !plan.remove_target);

    let plan = SystemdManager::plan_unit_file(true, true, false, path(false, false, false), path(true, false, true)).unwrap();
    assert!(plan.write && plan.link && plan.link_force && plan.remove_unit_file);
}

#[test]
fn an_existing_unit_file_is_kept_without_force() {
    match SystemdManager::plan_unit_file(false, false, true, path(true, false, true), path(true, false, true)) {
        Err(StackableError::RuntimeError { msg }) => {
            assert_eq!("The unit file exists already and is not replaced without force", msg)
        }
        other => panic!("unexpected {:?}", other),
    }
    assert!(SystemdManager::plan_unit_file(false, false, true, path(true, true, false), path(true, true, false)).is_err());
}
