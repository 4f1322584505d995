use stackable_agent::provider::error::StackableError;
use stackable_agent::provider::kubernetes::pod::{ConfigMapVolumeSource, Container, Pod, Volume, VolumeMount};
use stackable_agent::provider::repository::package::Package;
use stackable_agent::provider::states::pod::creating_config::{
    template_defines_partials, ConfigMap, ConfigMapCollection, ConfigMapFetch, ConfigPlan, CreatingConfig, TemplateData,
};
use stackable_agent::provider::states::pod::{NextState, PodState};

fn pod_state() -> PodState {
    PodState {
        parcel_directory: String::from("/opt/p"),
        download_directory: String::from("/opt/p/_download"),
        config_directory: String::from("/etc/c"),
        log_directory: String::from("/var/log/l"),
        service_name: String::from("default-test"),
        service_uid: String::from("42"),
        package: Package { product: String::from("kafka"), version: String::from("2.7") },
    }
}

fn pod(containers: Vec<Container>, volumes: Option<Vec<Volume>>) -> Pod {
    Pod {
        name: String::from("test"),
        namespace: String::from("default"),
        uid: Some(String::from("42")),
        restart_policy: None,
        run_as_user_name: None,
        containers,
        volumes,
        terminating: false,
        phase: None,
    }
}

fn container(mounts: Option<Vec<VolumeMount>>) -> Container {
    Container {
        name: String::from("kafka"),
        image: Some(String::from("kafka:2.7")),
        command: None,
        args: None,
        env: None,
        volume_mounts: mounts,
        run_as_user_name: None,
    }
}

fn volume(name: &str, map: Option<&str>) -> Volume {
    Volume {
        name: name.to_string(),
        config_map: map.map(|m| ConfigMapVolumeSource { name: Some(m.to_string()) }),
    }
}

fn mount(name: &str, path: &str) -> VolumeMount {
    VolumeMount { name: name.to_string(), mount_path: path.to_string() }
}

#[test]
fn test_render_template() {
    let mut context = TemplateData::new();
    context.insert(String::from("var1"), String::from("test"));
    context.insert(String::from("var2"), String::from("test2"));
    context.insert(String::from("var3"), String::from("test3"));

    let template = "{{var1}}test{{var2}}test2{{var3}}test3";
    let rendered_string = "testtesttest2test2test3test3";

    let test = CreatingConfig::render_config_template(&context, template).unwrap();

    assert_eq!(test, rendered_string);

    let template_with_undefined_var = "{{var4}}test";
    match CreatingConfig::render_config_template(&context, template_with_undefined_var) {
        Ok(_) => assert!(false),
        Err(_) => assert!(true),
    }
}

#[test]
fn render_data_names_the_directories() {
    let data = CreatingConfig::create_render_data(&pod_state());
    assert_eq!(
        "/opt/p/kafka-2.7 /etc/c/default-test-42 /var/log/l/default-test",
        CreatingConfig::render_config_template(&data, "{{packageroot}} {{configroot}} {{logroot}}").unwrap()
    );
}

#[test]
fn template_data_later_value_wins() {
    let mut data = TemplateData::new();
    data.insert(String::from("a"), String::from("1"));
    data.insert(String::from("a"), String::from("2"));
    assert_eq!("2", CreatingConfig::render_config_template(&data, "{{a}}").unwrap());
}

#[test]
fn plan_needs_exactly_one_container() {
    let p = pod(vec![container(None), container(None)], None);
    match CreatingConfig::plan(&p, &pod_state()) {
        ConfigPlan::Fail { error: StackableError::PodValidationError { msg } } => {
            assert_eq!("Only pods containing exactly one container element are supported!", msg)
        }
        other => panic!("Failure expected but got {:?}", other),
    }
}

#[test]
fn plan_skips_without_mounts_or_volumes() {
    assert!(matches!(CreatingConfig::plan(&pod(vec![container(None)], Some(vec![])), &pod_state()), ConfigPlan::Skip));
    assert!(matches!(
        CreatingConfig::plan(&pod(vec![container(Some(vec![mount("v", "/x")]))], None), &pod_state()),
        ConfigPlan::Skip
    ));
}

#[test]
fn plan_writes_config_maps_below_the_config_directory() {
    let p = pod(
        vec![container(Some(vec![mount("config", "conf"), mount("data", "data")]))],
        Some(vec![volume("config", Some("kafka-config")), volume("data", None), volume("other", Some("other-map"))]),
    );
    match CreatingConfig::plan(&p, &pod_state()) {
        ConfigPlan::Write { targets, referenced } => {
            assert_eq!(vec![(String::from("/etc/c/default-test-42/conf"), String::from("kafka-config"))], targets);
            assert_eq!(vec![String::from("kafka-config"), String::from("other-map")], referenced);
        }
        other => panic!("Write expected but got {:?}", other),
    }
}

#[test]
fn fetched_config_maps_are_collected() {
    let mut collection = ConfigMapCollection::new();
    let found = ConfigMap { name: Some(String::from("a")), data: None };
    assert!(collection.record(String::from("a"), ConfigMapFetch::Found(found)).is_none());
    assert!(collection.record(String::from("b"), ConfigMapFetch::NotFound).is_none());
    let unnamed = ConfigMap { name: None, data: None };
    assert!(collection.record(String::from("c"), ConfigMapFetch::Found(unnamed)).is_none());
    match collection.finish() {
        Err(StackableError::MissingConfigMapsError { missing_config_maps }) => {
            assert_eq!(vec![String::from("b"), String::from("c")], missing_config_maps)
        }
        other => panic!("Missing config maps expected but got {:?}", other),
    }
    let mut collection = ConfigMapCollection::new();
    let found = ConfigMap { name: Some(String::from("a")), data: None };
    collection.record(String::from("a"), ConfigMapFetch::Found(found));
    let maps = collection.finish().unwrap();
    assert_eq!(Some(0), CreatingConfig::config_map_named(&maps, "a"));
    assert_eq!(None, CreatingConfig::config_map_named(&maps, "b"));
    let mut collection = ConfigMapCollection::new();
    assert!(matches!(
        collection.record(String::from("a"), ConfigMapFetch::Failed { msg: String::from("x") }),
        Some(StackableError::RuntimeError { .. })
    ));
}

#[test]
fn waiting_for_missing_config_maps() {
    match CreatingConfig::waiting_state(
        StackableError::MissingConfigMapsError { missing_config_maps: vec![String::from("a")] },
        "ignored",
    ) {
        NextState::WaitingConfigMap { missing_config_maps } => assert_eq!(vec![String::from("a")], missing_config_maps),
        other => panic!("Waiting expected but got {:?}", other),
    }
    match CreatingConfig::waiting_state(StackableError::RuntimeError { msg: String::from("x") }, "boom") {
        NextState::WaitingConfigMap { missing_config_maps } => {
            assert_eq!(vec![String::from("An unexepected error occurred: boom")], missing_config_maps)
        }
        other => panic!("Waiting expected but got {:?}", other),
    }
}

#[test]
fn config_map_entries_are_rendered_into_files() {
    let mut data = TemplateData::new();
    data.insert(String::from("configroot"), String::from("/etc/x"));
    let map = ConfigMap {
        name: Some(String::from("m")),
        data: Some(vec![
            (String::from("a.conf"), String::from("dir={{configroot}}")),
            (String::from("b.conf"), String::from("{{missing}}")),
            (String::from("c.conf"), String::from("plain")),
        ]),
    };
    let (files, error) = CreatingConfig::apply_config_map(&map, "/etc/x/conf", &data);
    assert_eq!(vec![(String::from("/etc/x/conf/a.conf"), String::from("dir=/etc/x"))], files);
    assert!(matches!(error, Some(StackableError::TemplateRenderError { .. })));

    let unnamed = ConfigMap { name: None, data: None };
    let (files, error) = CreatingConfig::apply_config_map(&unnamed, "/x", &data);
    assert!(files.is_empty());
    match error {
        Some(StackableError::RuntimeError { msg }) => {
            assert_eq!("Found ConfigMap with no Name set, this should never have happened", msg)
        }
        other => panic!("Runtime error expected but got {:?}", other),
    }

    let empty = ConfigMap { name: Some(String::from("m")), data: None };
    let (files, error) = CreatingConfig::apply_config_map(&empty, "/x", &data);
    assert!(files.is_empty() && error.is_none());
}

#[test]
fn files_are_written_only_when_changed() {
    assert!(CreatingConfig::needs_update(&None, "a"));
    assert!(CreatingConfig::needs_update(&Some(String::from("b")), "a"));
    assert!(!CreatingConfig::needs_update(&Some(String::from("a")), "a"));
    assert!(matches!(CreatingConfig::next(None), NextState::CreatingService));
    match CreatingConfig::next(Some(String::from("failed"))) {
        NextState::SetupFailed { message } => assert_eq!("failed", message),
        other => panic!("Setup failure expected but got {:?}", other),
    }
}

#[test]
fn templates_that_define_partials_are_refused() {
    let data = TemplateData::new();
    for template in [
        "{{#*inline \"a\"}}{{> a}}{{/inline}}{{> a}}",
        "{{~ # * inline \"a\"}}x{{/inline}}",
        "{{#> layout}}x{{/layout}}",
        "{{*inline}}",
    ] {
        assert!(template_defines_partials(template), "{}", template);
        match CreatingConfig::render_config_template(&data, template) {
            Err(StackableError::TemplateRenderError { msg }) => {
                assert_eq!("Templates that define partials are not supported", msg)
            }
            other => panic!("refusal expected for {} but got {:?}", template, other),
        }
    }
    for template in ["{{a}}", "{{#if a}}x{{/if}}", "{{> a}}", "a * b # c", "{{!-- # * --}}"] {
        assert!(!template_defines_partials(template), "{}", template);
    }
}

#[test]
fn the_plan_leads_to_the_next_state() {
    let p = pod(vec![], None);
    match CreatingConfig::plan_state(CreatingConfig::plan(&p, &pod_state())) {
        Err(NextState::Complete { error: Some(StackableError::PodValidationError { msg }) }) => {
            assert_eq!("Only pods containing exactly one container element are supported!", msg)
        }
        other => panic!("unexpected {:?}", other),
    }
    let p = pod(vec![container(None)], None);
    assert!(matches!(
        CreatingConfig::plan_state(CreatingConfig::plan(&p, &pod_state())),
        Err(NextState::CreatingService)
    ));
    let p = pod(vec![container(Some(vec![mount("v", "conf")]))], Some(vec![volume("v", Some("m"))]));
    let (targets, referenced) = CreatingConfig::plan_state(CreatingConfig::plan(&p, &pod_state())).unwrap();
    assert_eq!(vec![(String::from("/etc/c/default-test-42/conf"), String::from("m"))], targets);
    assert_eq!(vec![String::from("m")], referenced);
}

#[test]
fn fetched_config_maps_are_matched_to_targets() {
    let maps = vec![
        ConfigMap { name: Some(String::from("m")), data: None },
        ConfigMap { name: Some(String::from("n")), data: None },
        ConfigMap { name: Some(String::from("m")), data: None },
    ];
    let targets = vec![
        (String::from("/a"), String::from("m")),
        (String::from("/b"), String::from("x")),
        (String::from("/c"), String::from("n")),
    ];
    assert_eq!(
        vec![(String::from("/a"), 2usize), (String::from("/c"), 1usize)],
        CreatingConfig::targets_to_write(&targets, &maps)
    );
}

#[test]
fn config_maps_are_applied_until_one_fails() {
    let mut data = TemplateData::new();
    data.insert(String::from("logroot"), String::from("/var/log/x"));
    let maps = vec![
        ConfigMap { name: Some(String::from("good")), data: Some(vec![(String::from("a"), String::from("{{logroot}}"))]) },
        ConfigMap {
            name: Some(String::from("bad")),
            data: Some(vec![(String::from("b"), String::from("ok")), (String::from("c"), String::from("{{nope}}"))]),
        },
        ConfigMap { name: Some(String::from("late")), data: Some(vec![(String::from("d"), String::from("x"))]) },
    ];
    let writes = vec![(String::from("/c/1"), 0usize), (String::from("/c/2"), 1usize), (String::from("/c/3"), 2usize)];
    let (files, failure) = CreatingConfig::files_to_write(&writes, &maps, &data);
    assert_eq!(
        vec![
            (String::from("/c/1/a"), String::from("/var/log/x")),
            (String::from("/c/2/b"), String::from("ok")),
        ],
        files
    );
    assert!(matches!(failure, Some((1, StackableError::TemplateRenderError { .. }))));

    let (files, failure) = CreatingConfig::files_to_write(&vec![(String::from("/c/3"), 2usize)], &maps, &data);
    assert_eq!(vec![(String::from("/c/3/d"), String::from("x"))], files);
    assert!(failure.is_none());
}

#[test]
fn a_template_that_does_not_compile_is_a_template_error() {
    let data = TemplateData::new();
    assert!(matches!(
        CreatingConfig::render_config_template(&data, "{{#if a}}x"),
        Err(StackableError::TemplateError { .. })
    ));
    assert!(matches!(
        CreatingConfig::render_config_template(&data, "{{a}}"),
        Err(StackableError::TemplateRenderError { .. })
    ));
}

#[test]
fn a_repeated_mount_path_writes_the_last_map_only() {
    let mounts = vec![mount("v1", "conf"), mount("v2", "other"), mount("v3", "conf")];
    let volumes = vec![volume("v1", Some("m1")), volume("v2", Some("m2")), volume("v3", Some("m3"))];
    assert_eq!(
        vec![(String::from("/c/other"), String::from("m2")), (String::from("/c/conf"), String::from("m3"))],
        CreatingConfig::config_map_targets("/c", &mounts, &volumes)
    );
}

fn named_map(name: &str, entries: Vec<(&str, &str)>) -> ConfigMap {
    ConfigMap {
        name: Some(name.to_string()),
        data: Some(entries.into_iter().map(|(k, v)| (k.to_string(), v.to_string())).collect()),
    }
}

#[test]
fn creating_config_steps() {
    let step = CreatingConfig { target_directory: None };
    match step.step(&pod(vec![], None), &pod_state(), vec![]) {
        (NextState::Complete { error: Some(StackableError::PodValidationError { msg }) }, files) => {
            assert_eq!("Only pods containing exactly one container element are supported!", msg);
            assert!(files.is_empty());
        }
        other => panic!("unexpected {:?}", other),
    }
    let (next, files) = step.step(&pod(vec![container(None)], None), &pod_state(), vec![]);
    assert!(matches!(next, NextState::CreatingService) && files.is_empty());

    let p = pod(
        vec![container(Some(vec![mount("v", "conf")]))],
        Some(vec![volume("v", Some("m")), volume("w", Some("n"))]),
    );
    match step.step(&p, &pod_state(), vec![None, Some(named_map("n", vec![]))]) {
        (NextState::WaitingConfigMap { missing_config_maps }, files) => {
            assert_eq!(vec![String::from("m")], missing_config_maps);
            assert!(files.is_empty());
        }
        other => panic!("unexpected {:?}", other),
    }
    let maps = vec![Some(named_map("m", vec![("a.conf", "{{configroot}}")])), Some(named_map("n", vec![]))];
    let (next, files) = step.step(&p, &pod_state(), maps);
    assert!(matches!(next, NextState::CreatingService));
    assert_eq!(
        vec![(
            String::from("/etc/c/default-test-42/conf/a.conf"),
            String::from("/etc/c/default-test-42")
        )],
        files
    );
    let maps = vec![Some(named_map("m", vec![("a.conf", "x"), ("b.conf", "{{nope}}")])), Some(named_map("n", vec![]))];
    match step.step(&p, &pod_state(), maps) {
        (NextState::SetupFailed { message }, files) => {
            assert_eq!(
                "Failed to create config file [/etc/c/default-test-42/conf] from config map [m]",
                message
            );
            assert_eq!(vec![(String::from("/etc/c/default-test-42/conf/a.conf"), String::from("x"))], files);
        }
        other => panic!("unexpected {:?}", other),
    }
}
