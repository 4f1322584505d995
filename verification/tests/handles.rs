use stackable_agent::provider::handles::{ContainerHandle, ContainerKey, PodHandleMap, PodKey};
use stackable_agent::provider::systemdmanager::service::SystemdService;

fn key(name: &str) -> PodKey {
    PodKey { namespace: String::from("default"), name: name.to_string() }
}

fn handle(unit: &str) -> ContainerHandle {
    ContainerHandle { service_unit: unit.to_string(), systemd_service: SystemdService::new(unit) }
}

#[test]
fn inserted_handles_are_found() {
    let mut map = PodHandleMap::new();
    assert!(map.get(&key("a")).is_none());
    map.insert_container_handle(&key("a"), &ContainerKey::App(String::from("c1")), handle("u1"));
    map.insert_container_handle(&key("a"), &ContainerKey::App(String::from("c2")), handle("u2"));
    map.insert_container_handle(&key("b"), &ContainerKey::Init(String::from("c1")), handle("u3"));
    assert_eq!("u1", map.container_handle(&key("a"), &ContainerKey::App(String::from("c1"))).unwrap().service_unit);
    assert_eq!("u2", map.container_handle(&key("a"), &ContainerKey::App(String::from("c2"))).unwrap().service_unit);
    assert!(map.container_handle(&key("b"), &ContainerKey::App(String::from("c1"))).is_none());
    assert_eq!("u3", map.container_handle(&key("b"), &ContainerKey::Init(String::from("c1"))).unwrap().systemd_service.file());
    map.insert_container_handle(&key("a"), &ContainerKey::App(String::from("c1")), handle("u4"));
    assert_eq!("u4", map.container_handle(&key("a"), &ContainerKey::App(String::from("c1"))).unwrap().service_unit);
    let removed = map.remove(&key("a")).unwrap();
    assert!(removed.get(&ContainerKey::App(String::from("c2"))).is_some());
    assert!(map.get(&key("a")).is_none());
    assert!(map.remove(&key("a")).is_none());
    assert!(map.get(&key("b")).is_some());
}
