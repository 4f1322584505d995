use stackable_agent::provider::cleanup::{
    cleanup_actions, cleanup_decision, cleanup_entries, expected_unit, units_to_check, CleanupDecision, UnitFileContent,
};
use stackable_agent::provider::error::StackableError;
use stackable_agent::provider::states::pod::UnitAction;
use stackable_agent::provider::kubernetes::pod::{Container, Pod};
use stackable_agent::provider::StackableProvider;

fn content(c: &str) -> Option<UnitFileContent> {
    Some(UnitFileContent::Content(c.to_string()))
}

#[test]
fn units_are_kept_only_when_unchanged() {
    let expected = Some((String::from("x"), false));
    assert_eq!(CleanupDecision::Keep, cleanup_decision(&expected, &content("x")));
    assert_eq!(CleanupDecision::RemoveDiffers, cleanup_decision(&expected, &content("y")));
    assert_eq!(CleanupDecision::RemoveNoFilePath, cleanup_decision(&expected, &Some(UnitFileContent::NoFilePath)));
    assert_eq!(CleanupDecision::RemoveUnreadable, cleanup_decision(&expected, &Some(UnitFileContent::Unreadable)));
    let terminating = Some((String::from("x"), true));
    assert_eq!(CleanupDecision::RemoveTerminating, cleanup_decision(&terminating, &content("x")));
    assert_eq!(CleanupDecision::RemoveNoPod, cleanup_decision(&None, &None));
}

#[test]
fn the_last_expected_entry_counts() {
    let entries = vec![
        (String::from("a.service"), String::from("1"), false),
        (String::from("b.service"), String::from("2"), false),
        (String::from("a.service"), String::from("3"), true),
    ];
    assert_eq!(Some((String::from("3"), true)), expected_unit(&entries, "a.service"));
    assert_eq!(Some((String::from("2"), false)), expected_unit(&entries, "b.service"));
    assert_eq!(None, expected_unit(&entries, "c.service"));
}

#[test]
fn expected_units_of_a_pod() {
    let provider = StackableProvider {
        parcel_directory: String::from("/opt/p"),
        config_directory: String::from("/etc/c"),
        log_directory: String::from("/var/log/l"),
        pod_cidr: String::new(),
    };
    let pod = Pod {
        name: String::from("test"),
        namespace: String::from("default"),
        uid: Some(String::from("42")),
        restart_policy: None,
        run_as_user_name: None,
        containers: vec![Container {
            name: String::from("kafka"),
            image: Some(String::from("kafka:2.7")),
            command: Some(vec![String::from("bin/kafka.sh")]),
            args: None,
            env: None,
            volume_mounts: None,
            run_as_user_name: None,
        }],
        volumes: None,
        terminating: false,
        phase: None,
    };
    let units = provider.units_from_pod(&pod, false).unwrap();
    assert_eq!(1, units.len());
    assert_eq!("default-test-kafka.service", units[0].0);
    assert!(units[0].1.contains("ExecStart=/opt/p/kafka-2.7/bin/kafka.sh"));
    let mut no_uid = pod;
    no_uid.uid = None;
    match provider.units_from_pod(&no_uid, false) {
        Err(StackableError::MissingObjectKey { key }) => assert_eq!(".metadata.uid", key),
        other => panic!("unexpected {:?}", other),
    }
}

#[test]
fn nothing_is_checked_when_reload_or_listing_fails() {
    let slice = || Some(vec![String::from("a.service")]);
    assert!(units_to_check(false, slice()).is_empty());
    assert!(units_to_check(true, None).is_empty());
    assert_eq!(vec![String::from("a.service")], units_to_check(true, slice()));
}

#[test]
fn expected_units_come_from_the_pods_that_could_be_read() {
    let pods = vec![
        (Ok(vec![(String::from("a.service"), String::from("1"))]), false),
        (Err(StackableError::RuntimeError { msg: String::from("x") }), false),
        (Ok(vec![(String::from("b.service"), String::from("2")), (String::from("c.service"), String::from("3"))]), true),
    ];
    assert_eq!(
        vec![
            (String::from("a.service"), String::from("1"), false),
            (String::from("b.service"), String::from("2"), true),
            (String::from("c.service"), String::from("3"), true),
        ],
        cleanup_entries(&pods)
    );
}

#[test]
fn removed_units_are_stopped_disabled_and_deleted() {
    assert!(cleanup_actions(CleanupDecision::Keep, "a.service").is_empty());
    let actions = cleanup_actions(CleanupDecision::RemoveNoPod, "a.service");
    assert!(matches!(
        &actions[..],
        [UnitAction::Stop(a), UnitAction::Disable(b), UnitAction::Remove(c)] if a == "a.service" && b == "a.service" && c == "a.service"
    ));
}

#[test]
fn the_cleanup_plan_covers_every_unit() {
    let units = vec![String::from("a.service"), String::from("b.service"), String::from("c.service")];
    let entries = vec![
        (String::from("a.service"), String::from("1"), false),
        (String::from("b.service"), String::from("2"), false),
    ];
    let contents = vec![content("1"), content("changed"), None];
    let actions = stackable_agent::provider::cleanup::cleanup_plan(&units, &entries, &contents);
    assert!(matches!(
        &actions[..],
        [
            UnitAction::Stop(b1), UnitAction::Disable(b2), UnitAction::Remove(b3),
            UnitAction::Stop(c1), UnitAction::Disable(c2), UnitAction::Remove(c3)
        ] if b1 == "b.service" && b2 == "b.service" && b3 == "b.service"
            && c1 == "c.service" && c2 == "c.service" && c3 == "c.service"
    ));
}
