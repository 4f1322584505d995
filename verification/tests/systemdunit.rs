use stackable_agent::provider::kubernetes::pod::{Container, EnvVar, Pod};
use stackable_agent::provider::states::pod::creating_config::TemplateData;
use stackable_agent::provider::systemdmanager::manager::{SystemdManager, UnitTypes};
use stackable_agent::provider::systemdmanager::systemdunit::{Section, SystemDUnit};

fn pod(containers: Vec<Container>, restart_policy: Option<&str>) -> Pod {
    Pod {
        name: String::from("stackable"),
        namespace: String::from("default"),
        uid: Some(String::from("uid")),
        restart_policy: restart_policy.map(String::from),
        run_as_user_name: Some(String::from("pod-user")),
        containers,
        volumes: None,
        terminating: false,
        phase: None,
    }
}

fn test_container(with_args_and_env: bool) -> Container {
    Container {
        name: String::from("test-container.service"),
        image: None,
        command: Some(vec![String::from("start.sh")]),
        args: if with_args_and_env {
            Some(vec![String::from("arg"), String::from("{{configroot}}")])
        } else {
            None
        },
        env: if with_args_and_env {
            Some(vec![
                EnvVar { name: String::from("LOG_LEVEL"), value: Some(String::from("INFO")) },
                EnvVar { name: String::from("LOG_DIR"), value: Some(String::from("{{logroot}}")) },
            ])
        } else {
            None
        },
        volume_mounts: None,
        run_as_user_name: Some(String::from("container-user")),
    }
}

fn unit_for(pod: &Pod, user_mode: bool) -> SystemDUnit {
    let common = SystemDUnit::new_from_pod(pod, user_mode).unwrap();
    match pod.containers.first() {
        None => common,
        Some(container) => {
            let service_name = format!("{}-{}", pod.namespace, pod.name);
            let name_prefix = format!("{}-", service_name);
            let mut data = TemplateData::new();
            data.insert(String::from("logroot"), format!("/var/log/{}", service_name));
            data.insert(String::from("configroot"), format!("/etc/{}", service_name));
            SystemDUnit::new_from_container(&common, &name_prefix, container, &service_name, &data, "", user_mode)
                .unwrap()
        }
    }
}

#[test]
fn unit_without_containers_on_system_bus() {
    let pod = pod(vec![], Some("Always"));
    let unit = unit_for(&pod, false);
    assert_eq!("stackable.service", unit.get_name());
    assert_eq!("[Service]\nRestart=always\nUser=pod-user", unit.get_unit_file_content());
}

#[test]
fn unit_with_container_on_system_bus() {
    let pod = pod(vec![test_container(true)], None);
    let unit = unit_for(&pod, false);
    assert_eq!("default-stackable-test-container.service", unit.get_name());
    assert_eq!(
        "[Unit]\nDescription=default-stackable-test-container\n\n[Service]\nEnvironment=\"LOG_DIR=/var/log/default-stackable\" \"LOG_LEVEL=INFO\"\nExecStart=start.sh arg /etc/default-stackable\nRestart=no\nStandardError=journal\nStandardOutput=journal\nUser=container-user\n\n[Install]\nWantedBy=multi-user.target",
        unit.get_unit_file_content()
    );
}

#[test]
fn unit_with_container_on_session_bus() {
    let pod = pod(vec![test_container(false)], None);
    let unit = unit_for(&pod, true);
    assert_eq!("default-stackable-test-container.service", unit.get_name());
    assert_eq!(
        "[Unit]\nDescription=default-stackable-test-container\n\n[Service]\nExecStart=start.sh\nRestart=no\nStandardError=journal\nStandardOutput=journal\n\n[Install]\nWantedBy=multi-user.target",
        unit.get_unit_file_content()
    );
}

#[test]
fn unknown_restart_policy_is_refused() {
    let pod = pod(vec![], Some("Sometimes"));
    match SystemDUnit::new_from_pod(&pod, false) {
        Err(stackable_agent::provider::error::StackableError::PodValidationError { msg }) => {
            assert_eq!("Unknown value [Sometimes] for RestartPolicy in pod [stackable]", msg)
        }
        other => panic!("Validation error expected but got {:?}", other),
    }
}

#[test]
fn container_without_command_is_refused() {
    let mut container = test_container(false);
    container.command = None;
    let pod = pod(vec![container], None);
    let common = SystemDUnit::new_from_pod(&pod, false).unwrap();
    let data = TemplateData::new();
    let result = SystemDUnit::new_from_container(&common, "x-", &pod.containers[0], "x", &data, "", false);
    assert!(result.is_err());
}

#[test]
fn property_set_last_wins_and_content_is_sorted() {
    let mut a = SystemDUnit::empty(String::from("u"), UnitTypes::Service);
    a.add_property(Section::Service, "B", "2");
    a.add_property(Section::Service, "A", "1");
    a.add_property(Section::Service, "B", "3");
    let mut b = SystemDUnit::empty(String::from("u"), UnitTypes::Service);
    b.add_property(Section::Service, "A", "1");
    b.add_property(Section::Service, "B", "3");
    assert_eq!("[Service]\nA=1\nB=3", a.get_unit_file_content());
    assert_eq!(a.get_unit_file_content(), b.get_unit_file_content());
    assert_eq!(".service", a.get_type_string());
}

#[test]
fn unit_file_name_gets_one_extension() {
    assert_eq!("a.service", SystemdManager::get_unit_file_name("a", &UnitTypes::Service));
    assert_eq!("a.service", SystemdManager::get_unit_file_name("a.service", &UnitTypes::Service));
    let once = SystemdManager::get_unit_file_name("b", &UnitTypes::Service);
    assert_eq!(once, SystemdManager::get_unit_file_name(&once, &UnitTypes::Service));
}

#[test]
fn managers_for_session_and_system() {
    let system = SystemdManager::for_mode(false);
    assert_eq!("/lib/systemd/system", system.units_directory);
    assert!(!system.is_user_mode());
    let session = SystemdManager::for_mode(true);
    assert!(session.is_user_mode());
    assert!(session.units_directory.ends_with("/.config/systemd/user"));
    if let Some(home) = dirs::home_dir().and_then(|h| h.to_str().map(String::from)) {
        assert_eq!(format!("{}/.config/systemd/user", home), session.units_directory);
    }
}

#[test]
fn invalid_user_names_are_refused() {
    let mut p = pod(vec![], None);
    p.run_as_user_name = Some(String::from("bad user!"));
    assert!(SystemDUnit::new_from_pod(&p, false).is_err());
    p.run_as_user_name = Some(String::from("_good-user"));
    assert!(SystemDUnit::new_from_pod(&p, false).is_ok());
}
