use stackable_agent::agent::{
    directories_where_write_access_is_required, directory_to_check, node_labels, notify_bootstrap,
    print_startup_string,
};
use stackable_agent::config::{AgentConfig, OptionKey};

fn config() -> AgentConfig {
    AgentConfig {
        hostname: String::from("node"),
        parcel_directory: String::from("/p"),
        config_directory: String::from("/c"),
        log_directory: String::from("/l"),
        bootstrap_file: String::from("/b"),
        data_directory: String::from("/d"),
        server_ip_address: String::from("10.0.0.1"),
        server_port: 3000,
        server_cert_file: String::from("/s/agent.crt"),
        server_key_file: String::from("agent.key"),
        tags: vec![(String::from("a"), String::from("1")), (String::from("b"), String::from("2"))],
        session: false,
        pod_cidr: String::new(),
    }
}

#[test]
fn startup_lines() {
    assert_eq!(
        vec![
            String::from("Starting the Stackable Agent"),
            String::from("This is version 0.7.0 (Git information: abc), built for x86_64 by rustc 1.55 at today"),
        ],
        print_startup_string("0.7.0", Some("abc"), "x86_64", "today", "rustc 1.55")
    );
    assert_eq!(
        "This is version 0.7.0, built for x86_64 by rustc 1.55 at today",
        print_startup_string("0.7.0", None, "x86_64", "today", "rustc 1.55")[1]
    );
    assert_eq!("Successfully bootstrapped TLS certificate: ok", notify_bootstrap(String::from("ok")));
}

#[test]
fn labels_from_tags() {
    assert_eq!("a=1,b=2", node_labels(&config().tags));
    assert_eq!("", node_labels(&vec![]));
}

#[test]
fn directories_to_write() {
    let dirs = directories_where_write_access_is_required(&config(), true, false);
    assert_eq!(
        vec![
            (OptionKey::PackageDir, String::from("/p")),
            (OptionKey::ConfigDir, String::from("/c")),
            (OptionKey::LogDir, String::from("/l")),
            (OptionKey::DataDir, String::from("/d")),
            (OptionKey::ServerKeyFile, String::from("")),
        ],
        dirs
    );
    let dirs = directories_where_write_access_is_required(&config(), false, true);
    assert_eq!((OptionKey::ServerCertFile, String::from("/s")), dirs[4]);
    assert_eq!(".", directory_to_check(""));
    assert_eq!("/", directory_to_check("/"));
    assert_eq!("/p", directory_to_check("/p"));
}
