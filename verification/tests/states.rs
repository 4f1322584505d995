use stackable_agent::provider::error::StackableError;
use stackable_agent::provider::kubernetes::pod::{Container, Pod};
use stackable_agent::provider::repository::package::Package;
use stackable_agent::provider::states::pod::creating_service::CreatingService;
use stackable_agent::provider::states::pod::downloading::{DownloadOutcome, Downloading};
use stackable_agent::provider::states::pod::downloading_backoff::DownloadingBackoff;
use stackable_agent::provider::states::pod::failed::Failed;
use stackable_agent::provider::states::pod::initializing::Initializing;
use stackable_agent::provider::states::pod::installing::{InstallOutcome, Installing};
use stackable_agent::provider::states::pod::running::{Running, RunningCheck, RunningUnits};
use stackable_agent::provider::states::pod::setup_failed::SetupFailed;
use stackable_agent::provider::states::pod::starting::Starting;
use stackable_agent::provider::states::pod::terminated::Terminated;
use stackable_agent::provider::states::pod::waiting_config_map::WaitingConfigMap;
use stackable_agent::provider::handles::{ContainerHandle, ContainerKey, PodHandleMap, PodKey};
use stackable_agent::provider::states::pod::{NextState, Phase, PodState, StepRun, UnitAction};
use stackable_agent::provider::systemdmanager::service::SystemdService;
use stackable_agent::provider::systemdmanager::service::ServiceState;

fn package() -> Package {
    Package { product: String::from("kafka"), version: String::from("2.7") }
}

fn pod_state() -> PodState {
    PodState {
        parcel_directory: String::from("/opt/p"),
        download_directory: String::from("/opt/p/_download"),
        config_directory: String::from("/etc/c"),
        log_directory: String::from("/var/log/l"),
        service_name: String::from("default-test"),
        service_uid: String::from("42"),
        package: package(),
    }
}

fn pod(containers: Vec<Container>, restart_policy: Option<&str>) -> Pod {
    Pod {
        name: String::from("test"),
        namespace: String::from("default"),
        uid: Some(String::from("42")),
        restart_policy: restart_policy.map(String::from),
        run_as_user_name: None,
        containers,
        volumes: None,
        terminating: false,
        phase: None,
    }
}

fn container(name: &str, command: &str) -> Container {
    Container {
        name: name.to_string(),
        image: None,
        command: Some(vec![command.to_string()]),
        args: None,
        env: None,
        volume_mounts: None,
        run_as_user_name: None,
    }
}

#[test]
fn running_units_are_watched_until_they_terminate() {
    let mut units = RunningUnits::new(vec![String::from("a"), String::from("b"), String::from("c"), String::from("d")]);
    assert!(!units.is_done());
    let check = units.step(&vec![
        Some(ServiceState::Started),
        Some(ServiceState::Succeeded),
        None,
        Some(ServiceState::Created),
    ]);
    assert_eq!(vec![String::from("b")], check.succeeded);
    assert!(check.failed.is_empty());
    assert_eq!(vec![String::from("a"), String::from("c"), String::from("d")], units.remaining);
    assert!(!units.container_failed);
    let check = units.step(&vec![Some(ServiceState::Failed), Some(ServiceState::Succeeded), Some(ServiceState::Succeeded)]);
    assert_eq!(vec![String::from("a")], check.failed);
    assert_eq!(vec![String::from("c"), String::from("d")], check.succeeded);
    assert!(units.is_done());
    assert!(units.container_failed);
    match Running::next(&units) {
        NextState::Terminated { successful } => assert!(!successful),
        other => panic!("Terminated expected but got {:?}", other),
    }
    assert_eq!((String::from("Error"), true), Running::terminated_container_status(true));
    assert_eq!((String::from("Completed"), false), Running::terminated_container_status(false));
    let (status, condition) = Running.status();
    assert_eq!(Phase::Running, status.phase);
    assert_eq!("Running", status.reason);
    assert_eq!("Service is running", condition.message);
    assert_eq!("Ready", condition.type_);
    assert_eq!("True", condition.status);
}

#[test]
fn starting_starts_only_created_units() {
    let actions = Starting::startup_actions("u.service", ServiceState::Created);
    assert!(matches!(&actions[..], [UnitAction::Start(a), UnitAction::Enable(b)] if a == "u.service" && b == "u.service"));
    assert!(Starting::startup_actions("u.service", ServiceState::Started).is_empty());
    assert_eq!(
        vec![
            (String::from("featureLogs"), String::from("true")),
            (String::from("featureRestartCount"), String::from("false")),
        ],
        Starting::feature_annotations(true, false)
    );
    assert!(matches!(Starting::next(Ok(())), NextState::Running));
    assert!(matches!(
        Starting::next(Err(StackableError::RuntimeError { msg: String::from("x") })),
        NextState::Complete { error: Some(_) }
    ));
    assert_eq!("Starting", Starting.status().reason);
}

#[test]
fn terminated_stops_and_removes_units_then_reloads() {
    let actions = Terminated::unit_actions(&Some(vec![String::from("a"), String::from("b")]));
    assert!(matches!(
        &actions[..],
        [
            UnitAction::Stop(a1),
            UnitAction::Disable(a2),
            UnitAction::Remove(a3),
            UnitAction::Stop(b1),
            UnitAction::Disable(b2),
            UnitAction::Remove(b3),
            UnitAction::Reload
        ] if a1 == "a" && a2 == "a" && a3 == "a" && b1 == "b" && b2 == "b" && b3 == "b"
    ));
    assert!(Terminated::unit_actions(&None).is_empty());
    let ok = Terminated { successful: true };
    let failed = Terminated { successful: false };
    assert!(ok.status(&Some(String::from("Succeeded"))).is_none());
    assert!(failed.status(&Some(String::from("Failed"))).is_none());
    let s = ok.status(&Some(String::from("Running"))).unwrap();
    assert_eq!((Phase::Succeeded, String::from("Completed")), (s.phase, s.reason));
    let s = failed.status(&None).unwrap();
    assert_eq!((Phase::Failed, String::from("Error")), (s.phase, s.reason));
}

#[test]
fn downloading_and_installing_transitions() {
    let state = pod_state();
    assert_eq!("/opt/p/_download/kafka-2.7.tar.gz", Downloading::package_file_path(&state.download_directory, &state.package));
    match Downloading::next(&state, DownloadOutcome::Downloaded) {
        NextState::Installing { download_directory, parcel_directory, package } => {
            assert_eq!("/opt/p/_download", download_directory);
            assert_eq!("/opt/p", parcel_directory);
            assert_eq!("kafka", package.product);
        }
        other => panic!("Installing expected but got {:?}", other),
    }
    assert!(matches!(Downloading::next(&state, DownloadOutcome::AlreadyDownloaded), NextState::Installing { .. }));
    assert!(matches!(Downloading::next(&state, DownloadOutcome::NotFound), NextState::DownloadingBackoff { .. }));
    assert!(matches!(Downloading::next(&state, DownloadOutcome::LookupFailed), NextState::DownloadingBackoff { .. }));
    assert!(matches!(Downloading::next(&state, DownloadOutcome::DownloadFailed), NextState::DownloadingBackoff { .. }));
    assert!(matches!(
        Downloading::next(&state, DownloadOutcome::DirectoryFailed { msg: String::from("x") }),
        NextState::Complete { error: Some(StackableError::RuntimeError { .. }) }
    ));
    let installing = Installing {
        download_directory: state.download_directory.clone(),
        parcel_directory: state.parcel_directory.clone(),
        package: package(),
    };
    assert_eq!("/opt/p/kafka-2.7", installing.get_target_directory(&installing.package));
    assert_eq!("/opt/p/_download/kafka-2.7.tar.gz", installing.archive_path(&installing.package));
    assert!(matches!(installing.next(InstallOutcome::Installed), NextState::CreatingConfig { target_directory: None }));
    assert!(matches!(installing.next(InstallOutcome::AlreadyInstalled), NextState::CreatingConfig { target_directory: None }));
    match installing.next(InstallOutcome::Failed) {
        NextState::SetupFailed { message } => assert_eq!("PackageInstallationFailed", message),
        other => panic!("Setup failure expected but got {:?}", other),
    }
}

#[test]
fn waiting_states_go_back() {
    assert!(matches!(WaitingConfigMap { missing_config_maps: vec![] }.next(), NextState::CreatingConfig { target_directory: None }));
    assert!(matches!(DownloadingBackoff { package: package() }.next(), NextState::Downloading));
    let failed = SetupFailed { message: String::from("boom") };
    assert!(matches!(failed.next(), NextState::Downloading));
    assert_eq!("setup failed for pod test due to: boom", failed.failure_line("test"));
    assert!(matches!(Initializing.next(), NextState::Downloading));
    assert_eq!("Initializing", Initializing.status().reason);
    assert_eq!(Phase::Pending, failed.status().phase);
}

#[test]
fn failed_restarts_only_when_always() {
    let failed = Failed { message: String::from("crashed") };
    assert!(failed.restart_enabled(&pod(vec![], Some("Always"))));
    assert!(!failed.restart_enabled(&pod(vec![], Some("OnFailure"))));
    assert!(!failed.restart_enabled(&pod(vec![], None)));
    assert!(matches!(failed.next(&pod(vec![], Some("Always"))), NextState::Starting));
    assert!(matches!(failed.next(&pod(vec![], Some("Never"))), NextState::Complete { error: None }));
    let status = failed.status();
    assert_eq!(Phase::Failed, status.phase);
    assert_eq!("crashed", status.reason);
}

#[test]
fn creating_service_builds_one_unit_per_container() {
    let p = pod(vec![container("first", "a.sh"), container("second", "{{packageroot}}/b.sh")], Some("OnFailure"));
    assert_eq!("default-test-", CreatingService::service_prefix(&p));
    let units = CreatingService::units_for_pod(&p, false, &pod_state()).unwrap();
    let names: Vec<String> = units.iter().map(|u| u.get_name()).collect();
    assert_eq!(vec![String::from("default-test-first.service"), String::from("default-test-second.service")], names);
    assert!(units[0].get_unit_file_content().contains("ExecStart=/opt/p/kafka-2.7/a.sh\nRestart=on-failure"));
    assert!(units[1].get_unit_file_content().contains("ExecStart=/opt/p/kafka-2.7/b.sh\n"));
    let mut broken = container("third", "c.sh");
    broken.command = None;
    let p = pod(vec![container("first", "a.sh"), broken], None);
    match CreatingService::units_for_pod(&p, false, &pod_state()) {
        Err(StackableError::PodValidationError { msg }) => assert!(msg.contains("third")),
        other => panic!("Validation error expected but got {:?}", other),
    }
}

fn runtime_error(msg: &str) -> StackableError {
    StackableError::RuntimeError { msg: msg.to_string() }
}

#[test]
fn a_run_stops_at_the_first_failure() {
    let mut run = StepRun::new(3);
    assert!(run.wants_next());
    run.record(Ok(()));
    assert!(run.wants_next());
    run.record(Err(runtime_error("second")));
    assert!(!run.wants_next());
    assert_eq!(1, run.done);
    match run.finish() {
        Err(StackableError::RuntimeError { msg }) => assert_eq!("second", msg),
        other => panic!("unexpected {:?}", other),
    }
    let mut run = StepRun::new(2);
    run.record(Ok(()));
    run.record(Ok(()));
    assert!(!run.wants_next());
    assert!(run.finish().is_ok());
    assert!(StepRun::new(0).finish().is_ok());
}

fn container_handle(unit: &str) -> ContainerHandle {
    ContainerHandle { service_unit: unit.to_string(), systemd_service: SystemdService::new(unit) }
}

#[test]
fn terminated_takes_the_handles_of_the_pod() {
    let key = PodKey { namespace: String::from("default"), name: String::from("test") };
    let other = PodKey { namespace: String::from("default"), name: String::from("other") };
    let mut handles = PodHandleMap::new();
    handles.insert_container_handle(&key, &ContainerKey::App(String::from("c1")), container_handle("u1"));
    handles.insert_container_handle(&key, &ContainerKey::App(String::from("c2")), container_handle("u2"));
    handles.insert_container_handle(&key, &ContainerKey::App(String::from("c1")), container_handle("u3"));
    handles.insert_container_handle(&other, &ContainerKey::App(String::from("c1")), container_handle("u4"));
    let mut units = Terminated::take_units(&mut handles, &key).unwrap();
    units.sort();
    assert_eq!(vec![String::from("u2"), String::from("u3")], units);
    assert!(handles.get(&key).is_none());
    assert!(handles.get(&other).is_some());
    assert!(Terminated::take_units(&mut handles, &key).is_none());
    assert!(matches!(Terminated::next(Ok(())), NextState::Complete { error: None }));
    match Terminated::next(Err(runtime_error("stop"))) {
        NextState::Complete { error: Some(StackableError::RuntimeError { msg }) } => assert_eq!("stop", msg),
        other => panic!("unexpected {:?}", other),
    }
}

#[test]
fn running_needs_the_units_of_the_pod() {
    let units = Running::start("default-test", Some(vec![String::from("c1")])).unwrap();
    assert_eq!(vec![String::from("c1")], units.remaining);
    assert!(!units.container_failed);
    match Running::start("default-test", None) {
        Err(NextState::Complete { error: Some(StackableError::RuntimeError { msg }) }) => assert_eq!(
            "No systemd units found for service [default-test], this should not happen, please report a bug for this!",
            msg
        ),
        other => panic!("unexpected {:?}", other),
    }
}

#[test]
fn each_terminated_container_gets_its_patch() {
    let check = RunningCheck {
        succeeded: vec![String::from("a"), String::from("b")],
        failed: vec![String::from("c")],
    };
    assert_eq!(
        vec![
            (String::from("a"), String::from("Completed"), false),
            (String::from("b"), String::from("Completed"), false),
            (String::from("c"), String::from("Error"), true),
        ],
        check.patches()
    );
}

#[test]
fn copies_keep_the_unit() {
    let h = container_handle("u1.service");
    let c = h.copy();
    assert_eq!("u1.service", c.service_unit);
    assert_eq!("u1.service", c.systemd_service.file());
    assert_eq!("u1.service", h.systemd_service.copy().file());
}

#[test]
fn running_polls_until_every_unit_ended() {
    let mut units = RunningUnits::new(vec![String::from("a"), String::from("b"), String::from("c")]);
    let (next, patches) = Running::step(
        &mut units,
        &vec![Some(ServiceState::Succeeded), Some(ServiceState::Started), None],
    );
    assert!(next.is_none());
    assert_eq!(vec![(String::from("a"), String::from("Completed"), false)], patches);
    assert_eq!(vec![String::from("b"), String::from("c")], units.remaining);
    let (next, patches) = Running::step(&mut units, &vec![Some(ServiceState::Failed), Some(ServiceState::Succeeded)]);
    assert!(matches!(next, Some(NextState::Terminated { successful: false })));
    assert_eq!(
        vec![(String::from("c"), String::from("Completed"), false), (String::from("b"), String::from("Error"), true)],
        patches
    );
}

#[test]
fn a_failed_installation_removes_its_directory() {
    let installing = Installing {
        download_directory: String::from("/opt/p/_download"),
        parcel_directory: String::from("/opt/p"),
        package: package(),
    };
    match installing.install_actions(&package(), false, false) {
        (NextState::SetupFailed { message }, Some(dir)) => {
            assert_eq!("PackageInstallationFailed", message);
            assert_eq!("/opt/p/kafka-2.7", dir);
        }
        other => panic!("unexpected {:?}", other),
    }
    assert!(matches!(installing.install_actions(&package(), false, true), (NextState::CreatingConfig { target_directory: None }, None)));
    assert!(matches!(installing.install_actions(&package(), true, false), (NextState::CreatingConfig { target_directory: None }, None)));
}

#[test]
fn the_terminated_step_takes_the_handles_and_tears_down() {
    let key = PodKey { namespace: String::from("default"), name: String::from("test") };
    let mut handles = PodHandleMap::new();
    handles.insert_container_handle(&key, &ContainerKey::App(String::from("c1")), container_handle("u1"));
    let actions = Terminated::step(&mut handles, &key);
    assert!(matches!(
        &actions[..],
        [UnitAction::Stop(a), UnitAction::Disable(b), UnitAction::Remove(c), UnitAction::Reload]
            if a == "u1" && b == "u1" && c == "u1"
    ));
    assert!(handles.get(&key).is_none());
    assert!(Terminated::step(&mut handles, &key).is_empty());
}

#[test]
fn creating_service_steps_and_registers() {
    let p = pod(vec![container("first", "a.sh")], None);
    let units = CreatingService::step(&p, false, &pod_state()).unwrap();
    assert_eq!("default-test-first.service", units[0].get_name());
    let mut broken = container("second", "b.sh");
    broken.command = None;
    match CreatingService::step(&pod(vec![broken], None), false, &pod_state()) {
        Err(NextState::Complete { error: Some(StackableError::PodValidationError { .. }) }) => {}
        other => panic!("unexpected {:?}", other),
    }
    let key = PodKey { namespace: String::from("default"), name: String::from("test") };
    let mut handles = PodHandleMap::new();
    CreatingService::register(&mut handles, &key, "first", "default-test-first.service");
    let h = handles.container_handle(&key, &ContainerKey::App(String::from("first"))).unwrap();
    assert_eq!("default-test-first.service", h.service_unit);
    assert_eq!("default-test-first.service", h.systemd_service.file());
    assert!(matches!(CreatingService::next(Ok(())), NextState::Starting));
    assert!(matches!(CreatingService::next(Err(runtime_error("x"))), NextState::Complete { error: Some(_) }));
}

#[test]
fn starting_steps_unit_by_unit() {
    let key = PodKey { namespace: String::from("default"), name: String::from("test") };
    let mut handles = PodHandleMap::new();
    assert!(Starting::units_to_start(&handles, &key).is_empty());
    handles.insert_container_handle(&key, &ContainerKey::App(String::from("c1")), container_handle("u1"));
    assert_eq!(vec![String::from("u1")], Starting::units_to_start(&handles, &key));
    let actions = Starting::unit_step("u1", Ok(ServiceState::Created)).unwrap();
    assert!(matches!(&actions[..], [UnitAction::Start(a), UnitAction::Enable(b)] if a == "u1" && b == "u1"));
    assert!(Starting::unit_step("u1", Ok(ServiceState::Started)).unwrap().is_empty());
    assert!(matches!(Starting::unit_step("u1", Err(runtime_error("dbus"))), Err(StackableError::RuntimeError { .. })));
}
