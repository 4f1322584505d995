use stackable_agent::config::{
    check_values, get_exactly_one_string, parse_port, parse_values, AgentConfig, AgentConfigError, ConfigFailure, InterfaceAddress,
    OptionKey,
};

fn defaults() -> Vec<(OptionKey, Option<Vec<String>>)> {
    let mut values = Vec::new();
    for key in OptionKey::all() {
        let option = key.option();
        let value = option.default.map(|d| vec![d.to_string()]);
        values.push((key, value));
    }
    values
}

fn with(mut values: Vec<(OptionKey, Option<Vec<String>>)>, key: OptionKey, value: Option<Vec<&str>>) -> Vec<(OptionKey, Option<Vec<String>>)> {
    values.push((key, value.map(|v| v.into_iter().map(String::from).collect())));
    values
}

fn parse(values: &Vec<(OptionKey, Option<Vec<String>>)>) -> Result<AgentConfig, ConfigFailure> {
    match check_values(values) {
        Some(failure) => Err(failure),
        None => parse_values(values, String::from("node1"), String::from("10.0.0.1")),
    }
}

fn errors(result: Result<AgentConfig, ConfigFailure>) -> Vec<String> {
    match result {
        Err(ConfigFailure::InvalidArguments { errors }) => errors
            .into_iter()
            .map(|e| match e {
                AgentConfigError::ArgumentParseError { name } => name,
                AgentConfigError::WrongArgumentCount { .. } => String::from("count"),
            })
            .collect(),
        other => panic!("Invalid arguments expected but got {:?}", other),
    }
}

#[test]
fn defaults_give_a_configuration() {
    let config = parse(&defaults()).unwrap();
    assert_eq!("node1", config.hostname);
    assert_eq!("10.0.0.1", config.server_ip_address);
    assert_eq!("/var/lib/stackable/agent", config.data_directory);
    assert_eq!("/etc/stackable/stackable-agent/bootstrap-kubelet.conf", config.bootstrap_file);
    assert_eq!("/opt/stackable/packages", config.parcel_directory);
    assert_eq!("/etc/stackable/serviceconfig", config.config_directory);
    assert_eq!("/var/log/stackable/servicelogs", config.log_directory);
    assert_eq!("/etc/stackable/stackable-agent/secret/agent.crt", config.server_cert_file);
    assert_eq!("/etc/stackable/stackable-agent/secret/agent.key", config.server_key_file);
    assert_eq!(3000, config.server_port);
    assert_eq!("", config.pod_cidr);
    assert!(config.tags.is_empty());
    assert!(!config.session);
    assert_eq!("/etc/stackable/stackable-agent/secret", config.server_cert_file_dir());
    assert_eq!("/etc/stackable/stackable-agent/secret", config.server_key_file_dir());
}

#[test]
fn paths_are_normalized_and_tags_split() {
    let values = with(defaults(), OptionKey::PackageDir, Some(vec!["/opt//packages/./x/"]));
    let values = with(values, OptionKey::Tag, Some(vec!["a=1", "b=2", "a=3"]));
    let values = with(values, OptionKey::SessionSystemd, Some(vec![]));
    let values = with(values, OptionKey::ServerCertFile, Some(vec!["agent.crt"]));
    let config = parse(&values).unwrap();
    assert_eq!("/opt/packages/x", config.parcel_directory);
    assert_eq!(
        vec![(String::from("b"), String::from("2")), (String::from("a"), String::from("3"))],
        config.tags
    );
    assert!(config.session);
    assert_eq!("", config.server_cert_file_dir());
}

#[test]
fn invalid_values_are_reported_together() {
    let values = with(defaults(), OptionKey::ServerCertFile, Some(vec!["/"]));
    let values = with(values, OptionKey::ServerKeyFile, Some(vec!["/etc/.."]));
    let values = with(values, OptionKey::ServerPort, Some(vec!["70000"]));
    let values = with(values, OptionKey::Tag, Some(vec!["a=1", "b", "c=d=e"]));
    assert_eq!(
        vec!["server-cert-file", "server-key-file", "server-port", "tag", "tag"],
        errors(parse(&values))
    );
}

#[test]
fn missing_values_stop_the_reading() {
    let values = with(defaults(), OptionKey::LogDir, None);
    let values = with(values, OptionKey::DataDir, Some(vec!["a", "b"]));
    match parse(&values) {
        Err(ConfigFailure::MissingValue { option }) => assert_eq!(OptionKey::DataDir, option),
        other => panic!("Missing value expected but got {:?}", other),
    }
    let values: Vec<(OptionKey, Option<Vec<String>>)> =
        defaults().into_iter().filter(|(k, _)| *k != OptionKey::SessionSystemd).collect();
    assert!(matches!(parse(&values), Err(ConfigFailure::MissingSessionValue)));
}

#[test]
fn exactly_one_value() {
    let values = with(defaults(), OptionKey::Hostname, Some(vec!["h"]));
    assert_eq!("h", get_exactly_one_string(&values, OptionKey::Hostname).unwrap());
    assert!(matches!(
        get_exactly_one_string(&defaults(), OptionKey::Hostname),
        Err(AgentConfigError::WrongArgumentCount { option: OptionKey::Hostname })
    ));
}

#[test]
fn ports_are_read_like_u16() {
    for text in ["0", "3000", "+80", "00080", "65535", "", "+", "-1", "65536", "12a", " 80", "999999999999"] {
        assert_eq!(text.parse::<u16>().ok(), parse_port(text), "port {:?}", text);
    }
}

#[test]
fn documentation_lists_all_options() {
    let doc = AgentConfig::get_documentation();
    assert!(doc.starts_with("\n\n\n=== hostname\n\n*Default value*: `No default value`\n\n*Required*: false\n\n*Multiple values:* false\n\n\nThe hostname"));
    assert!(doc.contains("=== tag\n\n*Default value*: `No default value`\n\n*Required*: false\n\n*Multiple values:* true"));
    assert!(doc.contains("=== server-port\n\n*Default value*: `3000`"));
    assert_eq!(14, doc.matches("\n=== ").count());
}

#[test]
fn default_address_is_the_first_usable_interface() {
    let interfaces = vec![
        InterfaceAddress { interface_name: String::from("lo"), up: true, loopback: true, inet_address: Some(String::from("127.0.0.1")) },
        InterfaceAddress { interface_name: String::from("eth0"), up: false, loopback: false, inet_address: Some(String::from("10.0.0.2")) },
        InterfaceAddress { interface_name: String::from("eth1"), up: true, loopback: false, inet_address: None },
        InterfaceAddress { interface_name: String::from("eth2"), up: true, loopback: false, inet_address: Some(String::from("10.0.0.3")) },
    ];
    assert_eq!(Some(String::from("10.0.0.3")), AgentConfig::get_default_ipaddress(&interfaces));
    let mut unusable = interfaces;
    unusable.pop();
    assert_eq!(None, AgentConfig::get_default_ipaddress(&unusable));
}

#[test]
fn a_tag_must_be_one_key_value_pair() {
    let values = with(defaults(), OptionKey::Tag, Some(vec!["k=v=w"]));
    match check_values(&values) {
        Some(ConfigFailure::InvalidArguments { errors }) => {
            assert!(matches!(&errors[..], [AgentConfigError::ArgumentParseError { name }] if name == "tag"))
        }
        other => panic!("Invalid arguments expected but got {:?}", other),
    }
    assert!(check_values(&defaults()).is_none());
}

#[test]
fn a_later_tag_replaces_an_earlier_one() {
    let values = with(defaults(), OptionKey::Tag, Some(vec!["k=a", "j=c", "k=b"]));
    let config = parse(&values).unwrap();
    assert_eq!(vec![(String::from("j"), String::from("c")), (String::from("k"), String::from("b"))], config.tags);
    assert_eq!("j=c,k=b", stackable_agent::agent::node_labels(&config.tags));
}
