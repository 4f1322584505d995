use stackable_agent::provider::systemdmanager::systemd1_api::{
    ActiveState, ChangeType, InvocationId, JobRemovedResult, ManagerSignals, StartMode, StopMode,
};

#[test]
fn deserialize_change_type() {
    assert_eq!(Some(ChangeType::Symlink), ChangeType::from_str("symlink"));
}

#[test]
fn display_change_type() {
    assert_eq!("symlink", ChangeType::Symlink.to_string());
}

#[test]
fn serialize_start_mode() {
    assert_eq!("ignore-dependencies", StartMode::IgnoreDependencies.as_ref());
}

#[test]
fn display_start_mode() {
    assert_eq!("ignore-dependencies", StartMode::IgnoreDependencies.to_string());
}

#[test]
fn serialize_stop_mode() {
    assert_eq!("ignore-dependencies", StopMode::IgnoreDependencies.as_ref());
}

#[test]
fn display_stop_mode() {
    assert_eq!("ignore-dependencies", StopMode::IgnoreDependencies.to_string());
}

#[test]
fn display_manager_signals() {
    assert_eq!("JobRemoved", ManagerSignals::JobRemoved.to_string());
}

#[test]
fn convert_manager_signals_into_static_str() {
    let static_str: &'static str = ManagerSignals::JobRemoved.as_static_str();
    assert_eq!("JobRemoved", static_str);
}

#[test]
fn deserialize_job_removed_result() {
    assert_eq!(Some(JobRemovedResult::Done), JobRemovedResult::from_str("done"));
}

#[test]
fn display_job_removed_result() {
    assert_eq!("done", JobRemovedResult::Done.to_string());
}

#[test]
fn try_active_state_from_owned_value() {
    assert_eq!(Some(ActiveState::Active), ActiveState::from_str("active"));
}

#[test]
fn display_active_state() {
    assert_eq!("active", ActiveState::Active.to_string());
}

#[test]
fn display_invocation_id() {
    let invocation_id = InvocationId(vec![
        0xbe, 0x44, 0xae, 0xfc, 0xa3, 0xbf, 0x46, 0xba, 0xb0, 0x4b, 0x37, 0x52, 0x09, 0x5d, 0xd9,
        0x97,
    ]);
    assert_eq!("be44aefca3bf46bab04b3752095dd997", invocation_id.to_string());
}

#[test]
fn names_read_back_as_the_same_values() {
    for t in [ChangeType::Symlink, ChangeType::Unlink] {
        assert_eq!(Some(t), ChangeType::from_str(&t.to_string()));
    }
    for r in [
        JobRemovedResult::Done,
        JobRemovedResult::Canceled,
        JobRemovedResult::Timeout,
        JobRemovedResult::Failed,
        JobRemovedResult::Dependency,
        JobRemovedResult::Skipped,
    ] {
        assert_eq!(Some(r), JobRemovedResult::from_str(&r.to_string()));
    }
    for s in [
        ActiveState::Active,
        ActiveState::Reloading,
        ActiveState::Inactive,
        ActiveState::Failed,
        ActiveState::Activating,
        ActiveState::Deactivating,
    ] {
        assert_eq!(Some(s), ActiveState::from_str(&s.to_string()));
    }
}

#[test]
fn unknown_names_are_refused() {
    assert_eq!(None, ChangeType::from_str("Symlink"));
    assert_eq!(None, JobRemovedResult::from_str(""));
    assert_eq!(None, ActiveState::from_str("running"));
}

#[test]
fn invocation_id_pads_small_bytes() {
    assert_eq!("000f10ff", InvocationId(vec![0x00, 0x0f, 0x10, 0xff]).to_string());
    assert_eq!("", InvocationId(vec![]).to_string());
}

#[test]
fn modes_are_sent_in_kebab_case() {
    assert_eq!("ignore-dependencies", StartMode::IgnoreDependencies.serialized());
    assert_eq!("replace", StartMode::Replace.serialized());
    assert_eq!("ignore-requirements", StopMode::IgnoreRequirements.serialized());
    assert_eq!("fail", StopMode::Fail.serialized());
}
