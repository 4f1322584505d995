use stackable_agent::config::AgentConfig;
use stackable_agent::provider::error::StackableError;
use stackable_agent::provider::kubernetes::pod::{Container, Pod};
use stackable_agent::provider::{kubeconfig_path, CrdCheck, CrdLookup, StackableProvider, ARCH, CRDS};

fn container(name: &str, image: Option<&str>) -> Container {
    Container {
        name: name.to_string(),
        image: image.map(String::from),
        command: None,
        args: None,
        env: None,
        volume_mounts: None,
        run_as_user_name: None,
    }
}

fn pod(name: &str, containers: Vec<Container>) -> Pod {
    Pod {
        name: name.to_string(),
        namespace: String::from("default"),
        uid: Some(String::from("1234")),
        restart_policy: None,
        run_as_user_name: None,
        containers,
        volumes: None,
        terminating: false,
        phase: None,
    }
}

fn provider() -> StackableProvider {
    StackableProvider {
        parcel_directory: String::from("/opt/stackable/packages"),
        config_directory: String::from("/etc/stackable/serviceconfig"),
        log_directory: String::from("/var/log/stackable/servicelogs"),
        pod_cidr: String::from("10.1.0.0/16"),
    }
}

fn validation_message(result: Result<stackable_agent::provider::repository::package::Package, StackableError>) -> String {
    match result {
        Err(StackableError::PodValidationError { msg }) => msg,
        other => panic!("Validation error expected but got {:?}", other),
    }
}

#[test]
fn try_to_get_package_from_complete_configuration() {
    let pod = pod("test", vec![container("kafka", Some("kafka:2.7"))]);

    let maybe_package = StackableProvider::get_package(&pod);

    if let Ok(package) = maybe_package {
        assert_eq!("kafka", package.product);
        assert_eq!("2.7", package.version);
    } else {
        panic!("Package expected but got {:?}", maybe_package);
    }
}

#[test]
fn get_package_with_two_containers() {
    let pod = pod(
        "test",
        vec![container("kafka", Some("kafka:2.7")), container("zookeeper", Some("zookeeper:3.6.2"))],
    );
    assert_eq!(
        "Only one container is supported in the PodSpec.",
        validation_message(StackableProvider::get_package(&pod))
    );
}

#[test]
fn get_package_without_image() {
    let pod = pod("test", vec![container("kafka", None)]);
    assert_eq!(
        "Unable to get package reference from pod [test]: Image is required.",
        validation_message(StackableProvider::get_package(&pod))
    );
}

#[test]
fn get_package_without_tag() {
    let pod = pod("test", vec![container("kafka", Some("kafka"))]);
    assert_eq!(
        "Unable to get package reference from pod [test]: Tag is required.",
        validation_message(StackableProvider::get_package(&pod))
    );
}

#[test]
fn get_package_with_invalid_reference() {
    let pod = pod("test", vec![container("kafka", Some("Kafka:2.7"))]);
    let msg = validation_message(StackableProvider::get_package(&pod));
    assert!(msg.starts_with("Unable to get package reference from pod [test]: "));
}

#[test]
fn initialize_pod_state_of_a_pod() {
    let pod = pod("test", vec![container("kafka", Some("kafka:2.7"))]);
    let state = provider().initialize_pod_state(&pod).unwrap();
    assert_eq!("default-test", state.service_name);
    assert_eq!("1234", state.service_uid);
    assert_eq!("/opt/stackable/packages/_download", state.download_directory);
    assert_eq!("/etc/stackable/serviceconfig/default-test-1234", state.get_service_config_directory());
    assert_eq!("/opt/stackable/packages/kafka-2.7", state.get_service_package_directory());
    assert_eq!("/var/log/stackable/servicelogs/default-test", state.get_service_log_directory());
    assert_eq!(
        "/etc/stackable/serviceconfig/default-test-1234/_service",
        state.get_service_service_directory()
    );
}

#[test]
fn initialize_pod_state_without_uid() {
    let mut pod = pod("test", vec![container("kafka", Some("kafka:2.7"))]);
    pod.uid = None;
    match provider().initialize_pod_state(&pod) {
        Err(StackableError::MissingObjectKey { key }) => assert_eq!(".metadata.uid", key),
        other => panic!("Missing key expected but got {:?}", other),
    }
}

#[test]
fn provider_from_config_and_node_settings() {
    let config = AgentConfig {
        hostname: String::from("node"),
        parcel_directory: String::from("/p"),
        config_directory: String::from("/c"),
        log_directory: String::from("/l"),
        bootstrap_file: String::from("/b"),
        data_directory: String::from("/d"),
        server_ip_address: String::from("10.0.0.1"),
        server_port: 3000,
        server_cert_file: String::from("/s/agent.crt"),
        server_key_file: String::from("/s/agent.key"),
        tags: vec![],
        session: false,
        pod_cidr: String::from("10.1.0.0/16"),
    };
    let provider = StackableProvider::new(&config);
    assert_eq!("/p", provider.parcel_directory);
    assert_eq!("/c", provider.config_directory);
    assert_eq!("/l", provider.log_directory);
    let node = provider.node();
    assert_eq!(ARCH, node.architecture);
    assert_eq!("stackable-linux", node.architecture);
    assert_eq!("10.1.0.0/16", node.pod_cidr);
    assert_eq!(
        vec![
            (String::from("NoSchedule"), String::from("kubernetes.io/arch"), String::from("stackable-linux")),
            (String::from("NoExecute"), String::from("kubernetes.io/arch"), String::from("stackable-linux")),
        ],
        node.taints
    );
}

#[test]
fn crd_check_reports_missing_definitions() {
    assert_eq!(["repositories.stable.stackable.de"], CRDS);
    let mut check = CrdCheck::new();
    assert!(check.record(CRDS[0], CrdLookup::Found).is_none());
    assert!(check.finish().is_ok());

    let mut check = CrdCheck::new();
    assert!(check.record(CRDS[0], CrdLookup::NotFound).is_none());
    match check.finish() {
        Err(StackableError::CrdMissing { missing_crds }) => {
            assert_eq!(vec![String::from("repositories.stable.stackable.de")], missing_crds)
        }
        other => panic!("Missing CRDs expected but got {:?}", other),
    }

    let mut check = CrdCheck::new();
    match check.record(CRDS[0], CrdLookup::Failed { msg: String::from("down") }) {
        Some(StackableError::RuntimeError { msg }) => assert_eq!("down", msg),
        other => panic!("Runtime error expected but got {:?}", other),
    }
}

#[test]
fn kubeconfig_from_variable_or_home() {
    assert_eq!(
        Some(String::from("/etc/kube.conf")),
        stackable_agent::provider::find_kubeconfig(Some(String::from("/etc/kube.conf")))
    );
    let home = dirs::home_dir().and_then(|h| h.to_str().map(String::from));
    assert_eq!(
        home.map(|h| format!("{}/.kube/config", h)),
        stackable_agent::provider::find_kubeconfig(None)
    );
}

#[test]
fn kubeconfig_path_prefers_the_variable() {
    assert_eq!(Some(String::from("/k")), kubeconfig_path(Some(String::from("/k")), Some(String::from("/home/u"))));
    assert_eq!(Some(String::from("/home/u/.kube/config")), kubeconfig_path(None, Some(String::from("/home/u"))));
    assert_eq!(Some(String::from("/home/u/.kube/config")), kubeconfig_path(None, Some(String::from("/home/u/"))));
    assert_eq!(None, kubeconfig_path(None, None));
}
