//! The command line configuration of the agent.
use vstd::prelude::*;
use crate::fsext::{component_texts, lemma_normalize_idempotent, ends_in_normal_name, is_valid_file_path, lemma_file_path_has_parent, normalize_path, normalized, parent_of, parent_path};
use crate::provider::states::pod::creating_config::{entries_map, keep_last, keys_unique, lemma_keep_last_later_wins, pair_views, put_last};
use crate::text::{chars_of, copy_str, copy_strings, opt_view, opt_views, string_from_chars, views};

verus! {

/// The options of the agent.
#[derive(Clone, Copy, Debug, PartialEq, Eq, Structural)]
pub enum OptionKey {
    Hostname,
    DataDir,
    BootstrapFile,
    ServerIpAddress,
    ServerCertFile,
    ServerKeyFile,
    ServerPort,
    PackageDir,
    ConfigDir,
    LogDir,
    NoConfig,
    Tag,
    SessionSystemd,
    PodCidr,
}

/// The description of an option.
pub struct ConfigOption {
    pub name: &'static str,
    pub default: Option<&'static str>,
    pub required: bool,
    pub takes_argument: bool,
    pub help: &'static str,
    pub documentation: &'static str,
    pub list: bool,
}

/// The name of an option on the command line.
pub open spec fn option_name(k: OptionKey) -> Seq<char> {
    match k {
        OptionKey::Hostname => "hostname"@,
        OptionKey::DataDir => "data-directory"@,
        OptionKey::BootstrapFile => "bootstrap-file"@,
        OptionKey::ServerIpAddress => "server-bind-ip"@,
        OptionKey::ServerCertFile => "server-cert-file"@,
        OptionKey::ServerKeyFile => "server-key-file"@,
        OptionKey::ServerPort => "server-port"@,
        OptionKey::PackageDir => "package-directory"@,
        OptionKey::ConfigDir => "config-directory"@,
        OptionKey::LogDir => "log-directory"@,
        OptionKey::NoConfig => "no-config"@,
        OptionKey::Tag => "tag"@,
        OptionKey::SessionSystemd => "session"@,
        OptionKey::PodCidr => "pod-cidr"@,
    }
}

/// The default value of an option, where it has one.
pub open spec fn option_default(k: OptionKey) -> Option<Seq<char>> {
    match k {
        OptionKey::Hostname => None,
        OptionKey::DataDir => Some("/var/lib/stackable/agent"@),
        OptionKey::BootstrapFile => Some("/etc/stackable/stackable-agent/bootstrap-kubelet.conf"@),
        OptionKey::ServerIpAddress => None,
        OptionKey::ServerCertFile => Some("/etc/stackable/stackable-agent/secret/agent.crt"@),
        OptionKey::ServerKeyFile => Some("/etc/stackable/stackable-agent/secret/agent.key"@),
        OptionKey::ServerPort => Some("3000"@),
        OptionKey::PackageDir => Some("/opt/stackable/packages"@),
        OptionKey::ConfigDir => Some("/etc/stackable/serviceconfig"@),
        OptionKey::LogDir => Some("/var/log/stackable/servicelogs"@),
        OptionKey::NoConfig => None,
        OptionKey::Tag => None,
        OptionKey::SessionSystemd => None,
        OptionKey::PodCidr => Some(""@),
    }
}

/// The help text of an option.
pub open spec fn option_help(k: OptionKey) -> Seq<char> {
    match k {
        OptionKey::Hostname => "The hostname to register the node under in Kubernetes - defaults to system hostname."@,
        OptionKey::DataDir => "The directory where the stackable agent should keep its working data."@,
        OptionKey::BootstrapFile => "The bootstrap file to use in case Kubernetes bootstraping is used to add the agent."@,
        OptionKey::ServerIpAddress => "The local IP to register as the node's ip with the apiserver. Will be automatically set to the first address of the first non-loopback interface if not specified."@,
        OptionKey::ServerCertFile => "The certificate file for the local webserver which the Krustlet starts."@,
        OptionKey::ServerKeyFile => "Private key file (in PKCS8 format) to use for the local webserver the Krustlet starts."@,
        OptionKey::ServerPort => "Port to listen on for callbacks."@,
        OptionKey::PackageDir => "The base directory under which installed packages will be stored."@,
        OptionKey::ConfigDir => "The base directory under which configuration will be generated for all executed services."@,
        OptionKey::LogDir => "The base directory under which log files will be placed for all services."@,
        OptionKey::NoConfig => "If this option is specified, any file referenced in AGENT_CONF environment variable will be ignored."@,
        OptionKey::Tag => "A \"key=value\" pair that should be assigned to this agent as tag. This can be specified multiple times to assign additional tags."@,
        OptionKey::SessionSystemd => "When specified causes the agent to run services in the session instance of systemd, not the system wide systemd."@,
        OptionKey::PodCidr => "An IP range in CIDR notation which designates the range that pods assigned to this node should have their ip addresses in."@,
    }
}

/// The option is followed by a value on the command line.
pub open spec fn option_takes_argument(k: OptionKey) -> bool {
    k != OptionKey::NoConfig && k != OptionKey::SessionSystemd
}

/// The view of an optional static string.
pub open spec fn static_view(o: Option<&'static str>) -> Option<Seq<char>> {
    match o {
        Some(s) => Some(s@),
        None => None,
    }
}

/// All options, in the order in which they are documented.
pub open spec fn all_options() -> Seq<OptionKey> {
    seq![
        OptionKey::Hostname,
        OptionKey::DataDir,
        OptionKey::ServerIpAddress,
        OptionKey::ServerCertFile,
        OptionKey::ServerKeyFile,
        OptionKey::ServerPort,
        OptionKey::PackageDir,
        OptionKey::ConfigDir,
        OptionKey::LogDir,
        OptionKey::NoConfig,
        OptionKey::Tag,
        OptionKey::BootstrapFile,
        OptionKey::SessionSystemd,
        OptionKey::PodCidr,
    ]
}

impl OptionKey {
    /// All options, in the order in which they are documented.
    pub fn all() -> (r: Vec<OptionKey>)
        ensures
            r@ == all_options(),
            r@ == seq![
                OptionKey::Hostname,
                OptionKey::DataDir,
                OptionKey::ServerIpAddress,
                OptionKey::ServerCertFile,
                OptionKey::ServerKeyFile,
                OptionKey::ServerPort,
                OptionKey::PackageDir,
                OptionKey::ConfigDir,
                OptionKey::LogDir,
                OptionKey::NoConfig,
                OptionKey::Tag,
                OptionKey::BootstrapFile,
                OptionKey::SessionSystemd,
                OptionKey::PodCidr,
            ],
    {
        let mut r = Vec::new();
        r.push(OptionKey::Hostname);
        r.push(OptionKey::DataDir);
        r.push(OptionKey::ServerIpAddress);
        r.push(OptionKey::ServerCertFile);
        r.push(OptionKey::ServerKeyFile);
        r.push(OptionKey::ServerPort);
        r.push(OptionKey::PackageDir);
        r.push(OptionKey::ConfigDir);
        r.push(OptionKey::LogDir);
        r.push(OptionKey::NoConfig);
        r.push(OptionKey::Tag);
        r.push(OptionKey::BootstrapFile);
        r.push(OptionKey::SessionSystemd);
        r.push(OptionKey::PodCidr);
        assert(r@ =~= seq![
            OptionKey::Hostname,
            OptionKey::DataDir,
            OptionKey::ServerIpAddress,
            OptionKey::ServerCertFile,
            OptionKey::ServerKeyFile,
            OptionKey::ServerPort,
            OptionKey::PackageDir,
            OptionKey::ConfigDir,
            OptionKey::LogDir,
            OptionKey::NoConfig,
            OptionKey::Tag,
            OptionKey::BootstrapFile,
            OptionKey::SessionSystemd,
            OptionKey::PodCidr,
        ]);
        r
    }

    /// The description of the option.
    pub fn option(&self) -> (r: ConfigOption)
        ensures
            r.name@ == option_name(*self),
            static_view(r.default) == option_default(*self),
            !r.required,
            r.takes_argument == option_takes_argument(*self),
            r.help@ == option_help(*self),
            r.documentation@.len() == 0,
            r.list == (*self == OptionKey::Tag),
    {
        proof {
            reveal_strlit("");
        }
        match self {
            OptionKey::Hostname => ConfigOption {
                name: "hostname",
                default: None,
                required: false,
                takes_argument: true,
                help: "The hostname to register the node under in Kubernetes - defaults to system hostname.",
                documentation: "",
                list: false,
            },
            OptionKey::DataDir => ConfigOption {
                name: "data-directory",
                default: Some("/var/lib/stackable/agent"),
                required: false,
                takes_argument: true,
                help: "The directory where the stackable agent should keep its working data.",
                documentation: "",
                list: false,
            },
            OptionKey::BootstrapFile => ConfigOption {
                name: "bootstrap-file",
                default: Some("/etc/stackable/stackable-agent/bootstrap-kubelet.conf"),
                required: false,
                takes_argument: true,
                help: "The bootstrap file to use in case Kubernetes bootstraping is used to add the agent.",
                documentation: "",
                list: false,
            },
            OptionKey::ServerIpAddress => ConfigOption {
                name: "server-bind-ip",
                default: None,
                required: false,
                takes_argument: true,
                help: "The local IP to register as the node's ip with the apiserver. Will be automatically set to the first address of the first non-loopback interface if not specified.",
                documentation: "",
                list: false,
            },
            OptionKey::ServerCertFile => ConfigOption {
                name: "server-cert-file",
                default: Some("/etc/stackable/stackable-agent/secret/agent.crt"),
                required: false,
                takes_argument: true,
                help: "The certificate file for the local webserver which the Krustlet starts.",
                documentation: "",
                list: false,
            },
            OptionKey::ServerKeyFile => ConfigOption {
                name: "server-key-file",
                default: Some("/etc/stackable/stackable-agent/secret/agent.key"),
                required: false,
                takes_argument: true,
                help: "Private key file (in PKCS8 format) to use for the local webserver the Krustlet starts.",
                documentation: "",
                list: false,
            },
            OptionKey::ServerPort => ConfigOption {
                name: "server-port",
                default: Some("3000"),
                required: false,
                takes_argument: true,
                help: "Port to listen on for callbacks.",
                documentation: "",
                list: false,
            },
            OptionKey::PackageDir => ConfigOption {
                name: "package-directory",
                default: Some("/opt/stackable/packages"),
                required: false,
                takes_argument: true,
                help: "The base directory under which installed packages will be stored.",
                documentation: "",
                list: false,
            },
            OptionKey::ConfigDir => ConfigOption {
                name: "config-directory",
                default: Some("/etc/stackable/serviceconfig"),
                required: false,
                takes_argument: true,
                help: "The base directory under which configuration will be generated for all executed services.",
                documentation: "",
                list: false,
            },
            OptionKey::LogDir => ConfigOption {
                name: "log-directory",
                default: Some("/var/log/stackable/servicelogs"),
                required: false,
                takes_argument: true,
                help: "The base directory under which log files will be placed for all services.",
                documentation: "",
                list: false,
            },
            OptionKey::NoConfig => ConfigOption {
                name: "no-config",
                default: None,
                required: false,
                takes_argument: false,
                help: "If this option is specified, any file referenced in AGENT_CONF environment variable will be ignored.",
                documentation: "",
                list: false,
            },
            OptionKey::Tag => ConfigOption {
                name: "tag",
                default: None,
                required: false,
                takes_argument: true,
                help: "A \"key=value\" pair that should be assigned to this agent as tag. This can be specified multiple times to assign additional tags.",
                documentation: "",
                list: true,
            },
            OptionKey::SessionSystemd => ConfigOption {
                name: "session",
                default: None,
                required: false,
                takes_argument: false,
                help: "When specified causes the agent to run services in the session instance of systemd, not the system wide systemd.",
                documentation: "",
                list: false,
            },
            OptionKey::PodCidr => ConfigOption {
                name: "pod-cidr",
                default: Some(""),
                required: false,
                takes_argument: true,
                help: "An IP range in CIDR notation which designates the range that pods assigned to this node should have their ip addresses in.",
                documentation: "",
                list: false,
            },
        }
    }
}

/// An error found in the value of an option.
#[derive(Debug)]
pub enum AgentConfigError {
    /// The option was given no value or more than one.
    WrongArgumentCount { option: OptionKey },
    /// The value of the option named `name` could not be parsed.
    ArgumentParseError { name: String },
}

/// Why no configuration could be built from the parsed values.
#[derive(Debug)]
pub enum ConfigFailure {
    /// An option that has a default value has not exactly one value.
    MissingValue { option: OptionKey },
    /// The values hold no entry for the session option.
    MissingSessionValue,
    /// Values could not be parsed; the errors are listed in the order in
    /// which the options are read.
    InvalidArguments { errors: Vec<AgentConfigError> },
}

/// The configuration of the agent.
#[derive(Debug)]
pub struct AgentConfig {
    pub hostname: String,
    pub parcel_directory: String,
    pub config_directory: String,
    pub log_directory: String,
    pub bootstrap_file: String,
    pub data_directory: String,
    pub server_ip_address: String,
    pub server_port: u16,
    pub server_cert_file: String,
    pub server_key_file: String,
    /// The tags as `key=value` pairs in the order given; a later pair for
    /// the same key replaces an earlier one.
    pub tags: Vec<(String, String)>,
    pub session: bool,
    pub pod_cidr: String,
}

/// The parsed values of the command line, one entry per option.
pub open spec fn values_view(v: Seq<(OptionKey, Option<Vec<String>>)>) -> Seq<(OptionKey, Option<Seq<Seq<char>>>)> {
    v.map_values(|e: (OptionKey, Option<Vec<String>>)| (e.0, opt_views(e.1)))
}

/// The entry for option `k`; where there are several, the last one counts.
pub open spec fn lookup(v: Seq<(OptionKey, Option<Seq<Seq<char>>>)>, k: OptionKey) -> Option<Option<Seq<Seq<char>>>>
    decreases v.len(),
{
    if v.len() == 0 {
        None
    } else if v.last().0 == k {
        Some(v.last().1)
    } else {
        lookup(v.drop_last(), k)
    }
}

/// The value of option `k` where it was given exactly one value.
pub open spec fn exactly_one(v: Seq<(OptionKey, Option<Seq<Seq<char>>>)>, k: OptionKey) -> Option<Seq<char>> {
    match lookup(v, k) {
        Some(Some(l)) => if l.len() == 1 { Some(l[0]) } else { None },
        _ => None,
    }
}

/// A decimal digit.
pub open spec fn is_digit(c: char) -> bool {
    '0' <= c && c <= '9'
}

/// The number that the decimal digits `s` stand for.
pub open spec fn decimal_value(s: Seq<char>) -> nat
    decreases s.len(),
{
    if s.len() == 0 {
        0
    } else {
        decimal_value(s.drop_last()) * 10 + ((s.last() as int) - ('0' as int)) as nat
    }
}

/// `s` without a leading plus sign.
pub open spec fn unsigned_part(s: Seq<char>) -> Seq<char> {
    if s.len() > 0 && s[0] == '+' {
        s.drop_first()
    } else {
        s
    }
}

/// The port number that `s` stands for, as `u16::from_str` reads it: an
/// optional plus sign, then at least one decimal digit, for a value that
/// fits in 16 bits.
pub open spec fn port_number(s: Seq<char>) -> Option<u16> {
    let d = unsigned_part(s);
    if d.len() > 0 && (forall|i: int| 0 <= i < d.len() ==> is_digit(#[trigger] d[i]))
        && decimal_value(d) <= 65535 {
        Some(decimal_value(d) as u16)
    } else {
        None
    }
}

/// How often `c` occurs in `s`.
pub open spec fn count_of(s: Seq<char>, c: char) -> nat
    decreases s.len(),
{
    if s.len() == 0 {
        0
    } else {
        count_of(s.drop_last(), c) + if s.last() == c { 1nat } else { 0nat }
    }
}

/// The first index at which `c` occurs in `s`, or -1.
pub open spec fn first_index_of(s: Seq<char>, c: char) -> int
    decreases s.len(),
{
    if s.len() == 0 {
        -1
    } else if first_index_of(s.drop_last(), c) >= 0 {
        first_index_of(s.drop_last(), c)
    } else if s.last() == c {
        s.len() - 1
    } else {
        -1
    }
}

/// A tag `key=value` split at its only `=`; a text with no `=` or with
/// more than one is no tag.
pub open spec fn split_tag(s: Seq<char>) -> Option<(Seq<char>, Seq<char>)> {
    if count_of(s, '=') == 1 {
        let i = first_index_of(s, '=');
        Some((s.subrange(0, i), s.subrange(i + 1, s.len() as int)))
    } else {
        None
    }
}

/// The key-value pairs of the well-formed tags, in order.
pub open spec fn tag_pairs(tags: Seq<Seq<char>>) -> Seq<(Seq<char>, Seq<char>)>
    decreases tags.len(),
{
    if tags.len() == 0 {
        Seq::empty()
    } else {
        match split_tag(tags.last()) {
            Some(p) => tag_pairs(tags.drop_last()).push(p),
            None => tag_pairs(tags.drop_last()),
        }
    }
}

/// The number of malformed tags.
pub open spec fn malformed_tags(tags: Seq<Seq<char>>) -> nat
    decreases tags.len(),
{
    if tags.len() == 0 {
        0
    } else {
        malformed_tags(tags.drop_last()) + if split_tag(tags.last()) is Some { 0nat } else { 1nat }
    }
}

/// The values given for the tag option.
pub open spec fn tag_values(v: Seq<(OptionKey, Option<Seq<Seq<char>>>)>) -> Seq<Seq<char>> {
    match lookup(v, OptionKey::Tag) {
        Some(Some(l)) => l,
        _ => Seq::empty(),
    }
}

/// The first option that has a default value but not exactly one value,
/// in the order in which the options are read.
pub open spec fn first_missing(v: Seq<(OptionKey, Option<Seq<Seq<char>>>)>) -> Option<OptionKey> {
    if exactly_one(v, OptionKey::DataDir) is None {
        Some(OptionKey::DataDir)
    } else if exactly_one(v, OptionKey::BootstrapFile) is None {
        Some(OptionKey::BootstrapFile)
    } else if exactly_one(v, OptionKey::LogDir) is None {
        Some(OptionKey::LogDir)
    } else if exactly_one(v, OptionKey::ConfigDir) is None {
        Some(OptionKey::ConfigDir)
    } else if exactly_one(v, OptionKey::PackageDir) is None {
        Some(OptionKey::PackageDir)
    } else if exactly_one(v, OptionKey::PodCidr) is None {
        Some(OptionKey::PodCidr)
    } else if exactly_one(v, OptionKey::ServerCertFile) is None {
        Some(OptionKey::ServerCertFile)
    } else if exactly_one(v, OptionKey::ServerKeyFile) is None {
        Some(OptionKey::ServerKeyFile)
    } else if exactly_one(v, OptionKey::ServerPort) is None {
        Some(OptionKey::ServerPort)
    } else {
        None
    }
}

/// The names of the options whose values cannot be parsed, in the order
/// in which they are read: the certificate file and the key file where
/// they do not name a file, the port where it is no port number, and the
/// tag option once for each malformed tag.
pub open spec fn parse_error_names(v: Seq<(OptionKey, Option<Seq<Seq<char>>>)>) -> Seq<Seq<char>> {
    let cert = normalized(exactly_one(v, OptionKey::ServerCertFile).unwrap());
    let key = normalized(exactly_one(v, OptionKey::ServerKeyFile).unwrap());
    let port = exactly_one(v, OptionKey::ServerPort).unwrap();
    (if ends_in_normal_name(cert) { Seq::empty() } else { seq![option_name(OptionKey::ServerCertFile)] })
        + (if ends_in_normal_name(key) { Seq::empty() } else { seq![option_name(OptionKey::ServerKeyFile)] })
        + (if port_number(port) is Some { Seq::empty() } else { seq![option_name(OptionKey::ServerPort)] })
        + Seq::new(malformed_tags(tag_values(v)), |i: int| option_name(OptionKey::Tag))
}

/// The names carried by parse errors.
pub open spec fn error_names(errors: Seq<AgentConfigError>) -> Seq<Seq<char>> {
    errors.map_values(|e: AgentConfigError| match e {
        AgentConfigError::WrongArgumentCount { option } => option_name(option),
        AgentConfigError::ArgumentParseError { name } => name@,
    })
}

/// The configuration read from values that hold all that is needed.
pub open spec fn config_matches(c: AgentConfig, v: Seq<(OptionKey, Option<Seq<Seq<char>>>)>, hostname: Seq<char>, ip: Seq<char>) -> bool {
    &&& c.hostname@ == hostname
    &&& c.server_ip_address@ == ip
    &&& c.data_directory@ == normalized(exactly_one(v, OptionKey::DataDir).unwrap())
    &&& c.bootstrap_file@ == normalized(exactly_one(v, OptionKey::BootstrapFile).unwrap())
    &&& c.log_directory@ == normalized(exactly_one(v, OptionKey::LogDir).unwrap())
    &&& c.config_directory@ == normalized(exactly_one(v, OptionKey::ConfigDir).unwrap())
    &&& c.parcel_directory@ == normalized(exactly_one(v, OptionKey::PackageDir).unwrap())
    &&& c.pod_cidr@ == exactly_one(v, OptionKey::PodCidr).unwrap()
    &&& c.server_cert_file@ == normalized(exactly_one(v, OptionKey::ServerCertFile).unwrap())
    &&& c.server_key_file@ == normalized(exactly_one(v, OptionKey::ServerKeyFile).unwrap())
    &&& Some(c.server_port) == port_number(exactly_one(v, OptionKey::ServerPort).unwrap())
    &&& pair_views(c.tags@) == keep_last(tag_pairs(tag_values(v)))
    &&& c.session == (lookup(v, OptionKey::SessionSystemd) matches Some(Some(_)))
}

/// The index of the entry for option `k` that counts, if there is one.
fn find_entry(parsed_values: &Vec<(OptionKey, Option<Vec<String>>)>, k: OptionKey) -> (r: Option<usize>)
    ensures
        match r {
            Some(i) => i < parsed_values@.len() && parsed_values@[i as int].0 == k
                && lookup(values_view(parsed_values@), k) == Some(opt_views(parsed_values@[i as int].1)),
            None => lookup(values_view(parsed_values@), k) is None,
        },
{
    let ghost vv = values_view(parsed_values@);
    let mut i = parsed_values.len();
    assert(vv.subrange(0, i as int) =~= vv);
    while i > 0
        invariant
            i <= parsed_values@.len(),
            vv == values_view(parsed_values@),
            lookup(vv, k) == lookup(vv.subrange(0, i as int), k),
        decreases i,
    {
        assert(vv.subrange(0, i as int).drop_last() =~= vv.subrange(0, i - 1));
        if parsed_values[i - 1].0 == k {
            return Some(i - 1);
        }
        i = i - 1;
    }
    None
}

/// Returns the only value given for `option`, or `WrongArgumentCount`
/// where there is none or more than one.
pub fn get_exactly_one_string(parsed_values: &Vec<(OptionKey, Option<Vec<String>>)>, option: OptionKey) -> (r: Result<String, AgentConfigError>)
    ensures
        match r {
            Ok(s) => exactly_one(values_view(parsed_values@), option) == Some(s@),
            Err(e) => exactly_one(values_view(parsed_values@), option) is None
                && e == (AgentConfigError::WrongArgumentCount { option }),
        },
{
    match find_entry(parsed_values, option) {
        Some(i) => match &parsed_values[i].1 {
            Some(list) => {
                if list.len() == 1 {
                    Ok(list[0].clone())
                } else {
                    Err(AgentConfigError::WrongArgumentCount { option })
                }
            },
            None => Err(AgentConfigError::WrongArgumentCount { option }),
        },
        None => Err(AgentConfigError::WrongArgumentCount { option }),
    }
}

/// Reads a port number as `u16::from_str` does: an optional plus sign,
/// then decimal digits for a value of at most 65535.
pub fn parse_port(s: &str) -> (r: Option<u16>)
    ensures
        r == port_number(s@),
{
    let chars = chars_of(s);
    let n = chars.len();
    let start: usize = if n > 0 && chars[0] == '+' { 1 } else { 0 };
    let ghost d = unsigned_part(s@);
    assert(d =~= chars@.subrange(start as int, n as int));
    if start == n {
        assert(d.len() == 0);
        return None;
    }
    let mut acc: u32 = 0;
    let mut big = false;
    let mut j = start;
    assert(chars@.subrange(start as int, start as int) =~= Seq::<char>::empty());
    while j < n
        invariant
            start <= j <= n,
            n == chars@.len(),
            chars@ == s@,
            d == unsigned_part(s@),
            d == chars@.subrange(start as int, n as int),
            forall|i: int| start <= i < j ==> is_digit(#[trigger] chars@[i]),
            big == (decimal_value(chars@.subrange(start as int, j as int)) > 65535),
            !big ==> acc == decimal_value(chars@.subrange(start as int, j as int)),
        decreases n - j,
    {
        let c = chars[j];
        if !('0' <= c && c <= '9') {
            assert(d[j - start] == c);
            assert(!is_digit(d[j - start]));
            return None;
        }
        assert(chars@.subrange(start as int, j + 1).drop_last() =~= chars@.subrange(start as int, j as int));
        if !big {
            let v: u32 = acc * 10 + ((c as u32) - ('0' as u32));
            if v > 65535 {
                big = true;
            } else {
                acc = v;
            }
        }
        j = j + 1;
    }
    assert forall|i: int| 0 <= i < d.len() implies is_digit(#[trigger] d[i]) by {
        assert(d[i] == chars@[start + i]);
    }
    if big {
        None
    } else {
        Some(acc as u16)
    }
}

/// Splits a tag `key=value` at its only `=`.
fn split_tag_text(tag: &str) -> (r: Option<(String, String)>)
    ensures
        match r {
            Some(p) => split_tag(tag@) == Some((p.0@, p.1@)),
            None => split_tag(tag@) is None,
        },
{
    let chars = chars_of(tag);
    let n = chars.len();
    let mut count: usize = 0;
    let mut first: usize = 0;
    let mut j: usize = 0;
    assert(chars@.subrange(0, 0) =~= Seq::<char>::empty());
    while j < n
        invariant
            j <= n,
            n == chars@.len(),
            chars@ == tag@,
            count <= j,
            count == count_of(chars@.subrange(0, j as int), '='),
            first_index_of(chars@.subrange(0, j as int), '=') == if count > 0 { first as int } else { -1 },
            count > 0 ==> first < j,
            count > 0 ==> chars@[first as int] == '=',
        decreases n - j,
    {
        assert(chars@.subrange(0, j + 1).drop_last() =~= chars@.subrange(0, j as int));
        if chars[j] == '=' {
            if count == 0 {
                first = j;
            }
            count = count + 1;
        }
        j = j + 1;
    }
    assert(chars@.subrange(0, n as int) =~= chars@);
    if count == 1 {
        Some((string_from_chars(&chars, 0, first), string_from_chars(&chars, first + 1, n)))
    } else {
        None
    }
}

/// The well-formed tags as pairs, a later pair for a key replacing an
/// earlier one, and the number of malformed tags.
fn parse_tags(tags: &Vec<String>) -> (r: (Vec<(String, String)>, usize))
    ensures
        pair_views(r.0@) == keep_last(tag_pairs(views(tags@))),
        r.1 == malformed_tags(views(tags@)),
{
    let mut pairs: Vec<(String, String)> = Vec::new();
    let mut bad: usize = 0;
    let mut i: usize = 0;
    assert(views(tags@.subrange(0, 0)) =~= Seq::<Seq<char>>::empty());
    while i < tags.len()
        invariant
            i <= tags@.len(),
            bad <= i,
            pair_views(pairs@) == keep_last(tag_pairs(views(tags@.subrange(0, i as int)))),
            bad == malformed_tags(views(tags@.subrange(0, i as int))),
        decreases tags@.len() - i,
    {
        assert(views(tags@.subrange(0, i + 1)).drop_last() =~= views(tags@.subrange(0, i as int)));
        assert(views(tags@.subrange(0, i + 1)).last() == tags@[i as int]@);
        match split_tag_text(tags[i].as_str()) {
            Some(p) => {
                let ghost pv = (p.0@, p.1@);
                let ghost tp = tag_pairs(views(tags@.subrange(0, i as int)));
                let (k, v) = p;
                put_last(&mut pairs, k, v);
                assert(tp.push(pv).drop_last() =~= tp);
            },
            None => {
                bad = bad + 1;
            },
        }
        i = i + 1;
    }
    assert(tags@.subrange(0, i as int) =~= tags@);
    (pairs, bad)
}

/// The name of an option as a string.
fn option_name_string(k: OptionKey) -> (r: String)
    ensures
        r@ == option_name(k),
{
    let o = k.option();
    copy_str(o.name)
}

/// Whether the session option was given, if the values hold an entry for it.
fn session_flag(parsed_values: &Vec<(OptionKey, Option<Vec<String>>)>) -> (r: Option<bool>)
    ensures
        match lookup(values_view(parsed_values@), OptionKey::SessionSystemd) {
            Some(o) => r == Some(o is Some),
            None => r is None,
        },
{
    match find_entry(parsed_values, OptionKey::SessionSystemd) {
        Some(i) => Some(parsed_values[i].1.is_some()),
        None => None,
    }
}

/// The values given for the tag option.
fn tag_list(parsed_values: &Vec<(OptionKey, Option<Vec<String>>)>) -> (r: Vec<String>)
    ensures
        views(r@) == tag_values(values_view(parsed_values@)),
{
    match find_entry(parsed_values, OptionKey::Tag) {
        Some(i) => match &parsed_values[i].1 {
            Some(list) => copy_strings(list),
            None => Vec::new(),
        },
        None => {
            let r: Vec<String> = Vec::new();
            assert(views(r@) =~= Seq::<Seq<char>>::empty());
            r
        },
    }
}

/// Appends a parse error for option `k`.
fn push_parse_error(errors: &mut Vec<AgentConfigError>, k: OptionKey)
    ensures
        error_names(final(errors)@) == error_names(old(errors)@).push(option_name(k)),
        forall|i: int| 0 <= i < old(errors)@.len() ==> final(errors)@[i] == old(errors)@[i],
        final(errors)@.len() == old(errors)@.len() + 1,
        final(errors)@.last() is ArgumentParseError,
{
    let name = option_name_string(k);
    let ghost before = errors@;
    errors.push(AgentConfigError::ArgumentParseError { name });
    assert(error_names(errors@) =~= error_names(before).push(option_name(k)));
}

/// Checks the parsed command line values in the order in which the
/// options are read: an option with a default value that has not exactly
/// one value stops the reading, then a missing entry for the session
/// option; the values that cannot be parsed (directories and files, the
/// port, tags that are not `key=value`) are collected and reported
/// together. `None` where the values can be read.
pub fn check_values(parsed_values: &Vec<(OptionKey, Option<Vec<String>>)>) -> (r: Option<ConfigFailure>)
    ensures
        ({
            let v = values_view(parsed_values@);
            &&& r is None <==> values_readable(v)
            &&& match r {
                Some(ConfigFailure::MissingValue { option }) => first_missing(v) == Some(option),
                Some(ConfigFailure::MissingSessionValue) => first_missing(v) is None
                    && lookup(v, OptionKey::SessionSystemd) is None,
                Some(ConfigFailure::InvalidArguments { errors }) => first_missing(v) is None
                    && lookup(v, OptionKey::SessionSystemd) is Some
                    && parse_error_names(v).len() > 0
                    && error_names(errors@) == parse_error_names(v)
                    && (forall|i: int| 0 <= i < errors@.len() ==> #[trigger] errors@[i] is ArgumentParseError),
                None => true,
            }
        }),
{
    match read_values(parsed_values, String::new(), String::new()) {
        Ok(_) => None,
        Err(e) => Some(e),
    }
}

/// The parsed values can be read into a configuration: every option with
/// a default value has exactly one value, the session option has an entry
/// and every value can be parsed.
pub open spec fn values_readable(v: Seq<(OptionKey, Option<Seq<Seq<char>>>)>) -> bool {
    &&& first_missing(v) is None
    &&& lookup(v, OptionKey::SessionSystemd) is Some
    &&& parse_error_names(v).len() == 0
}

/// Builds the configuration from the parsed command line values, which
/// must be readable (see [`check_values`]; the program stops with the
/// failure otherwise).
///
/// `hostname` and `server_ip_address` are the host name and address that
/// were chosen for the node (given on the command line, or else looked up
/// on the system). The directories and files are normalized.
pub fn parse_values(
    parsed_values: &Vec<(OptionKey, Option<Vec<String>>)>,
    hostname: String,
    server_ip_address: String,
) -> (r: Result<AgentConfig, ConfigFailure>)
    requires
        values_readable(values_view(parsed_values@)),
    ensures
        r matches Ok(c) && config_matches(c, values_view(parsed_values@), hostname@, server_ip_address@),
{
    read_values(parsed_values, hostname, server_ip_address)
}

/// Builds the configuration from the parsed command line values.
///
/// `hostname` and `server_ip_address` are the host name and address that
/// were chosen for the node (given on the command line, or else looked up
/// on the system).
///
/// The directories and files are normalized. The checks are made in the
/// order in which the options are read: an option with a default value
/// that has not exactly one value stops the reading, then a missing entry
/// for the session option; the values that cannot be parsed are collected
/// and reported together.
fn read_values(
    parsed_values: &Vec<(OptionKey, Option<Vec<String>>)>,
    hostname: String,
    server_ip_address: String,
) -> (r: Result<AgentConfig, ConfigFailure>)
    ensures
        ({
            let v = values_view(parsed_values@);
            match r {
                Err(ConfigFailure::MissingValue { option }) => first_missing(v) == Some(option),
                Err(ConfigFailure::MissingSessionValue) => first_missing(v) is None
                    && lookup(v, OptionKey::SessionSystemd) is None,
                Err(ConfigFailure::InvalidArguments { errors }) => first_missing(v) is None
                    && lookup(v, OptionKey::SessionSystemd) is Some
                    && parse_error_names(v).len() > 0
                    && error_names(errors@) == parse_error_names(v)
                    && (forall|i: int| 0 <= i < errors@.len() ==> #[trigger] errors@[i] is ArgumentParseError),
                Ok(c) => first_missing(v) is None
                    && lookup(v, OptionKey::SessionSystemd) is Some
                    && parse_error_names(v).len() == 0
                    && config_matches(c, v, hostname@, server_ip_address@),
            }
        }),
{
    let ghost v = values_view(parsed_values@);
    let data_dir = match get_exactly_one_string(parsed_values, OptionKey::DataDir) {
        Ok(s) => s,
        Err(_) => return Err(ConfigFailure::MissingValue { option: OptionKey::DataDir }),
    };
    let bootstrap_file = match get_exactly_one_string(parsed_values, OptionKey::BootstrapFile) {
        Ok(s) => s,
        Err(_) => return Err(ConfigFailure::MissingValue { option: OptionKey::BootstrapFile }),
    };
    let log_dir = match get_exactly_one_string(parsed_values, OptionKey::LogDir) {
        Ok(s) => s,
        Err(_) => return Err(ConfigFailure::MissingValue { option: OptionKey::LogDir }),
    };
    let config_dir = match get_exactly_one_string(parsed_values, OptionKey::ConfigDir) {
        Ok(s) => s,
        Err(_) => return Err(ConfigFailure::MissingValue { option: OptionKey::ConfigDir }),
    };
    let package_dir = match get_exactly_one_string(parsed_values, OptionKey::PackageDir) {
        Ok(s) => s,
        Err(_) => return Err(ConfigFailure::MissingValue { option: OptionKey::PackageDir }),
    };
    let pod_cidr = match get_exactly_one_string(parsed_values, OptionKey::PodCidr) {
        Ok(s) => s,
        Err(_) => return Err(ConfigFailure::MissingValue { option: OptionKey::PodCidr }),
    };
    let cert_file = match get_exactly_one_string(parsed_values, OptionKey::ServerCertFile) {
        Ok(s) => s,
        Err(_) => return Err(ConfigFailure::MissingValue { option: OptionKey::ServerCertFile }),
    };
    let key_file = match get_exactly_one_string(parsed_values, OptionKey::ServerKeyFile) {
        Ok(s) => s,
        Err(_) => return Err(ConfigFailure::MissingValue { option: OptionKey::ServerKeyFile }),
    };
    let port_text = match get_exactly_one_string(parsed_values, OptionKey::ServerPort) {
        Ok(s) => s,
        Err(_) => return Err(ConfigFailure::MissingValue { option: OptionKey::ServerPort }),
    };
    assert(first_missing(v) is None);

    let mut errors: Vec<AgentConfigError> = Vec::new();
    let cert_file = normalize_path(cert_file.as_str());
    if !is_valid_file_path(cert_file.as_str()) {
        push_parse_error(&mut errors, OptionKey::ServerCertFile);
    }
    let key_file = normalize_path(key_file.as_str());
    if !is_valid_file_path(key_file.as_str()) {
        push_parse_error(&mut errors, OptionKey::ServerKeyFile);
    }
    let port = parse_port(port_text.as_str());
    if port.is_none() {
        push_parse_error(&mut errors, OptionKey::ServerPort);
    }
    let ghost checked = error_names(errors@);
    let tags = tag_list(parsed_values);
    let (pairs, bad) = parse_tags(&tags);
    let mut k: usize = 0;
    while k < bad
        invariant
            k <= bad,
            error_names(errors@) == checked + Seq::new(k as nat, |i: int| option_name(OptionKey::Tag)),
            forall|i: int| 0 <= i < errors@.len() ==> #[trigger] errors@[i] is ArgumentParseError,
        decreases bad - k,
    {
        push_parse_error(&mut errors, OptionKey::Tag);
        assert(error_names(errors@) =~= checked + Seq::new((k + 1) as nat, |i: int| option_name(OptionKey::Tag)));
        k = k + 1;
    }
    assert(error_names(errors@) =~= parse_error_names(v));

    let session = match session_flag(parsed_values) {
        Some(b) => b,
        None => return Err(ConfigFailure::MissingSessionValue),
    };
    if errors.len() > 0 {
        return Err(ConfigFailure::InvalidArguments { errors });
    }
    let server_port = port.unwrap();
    Ok(AgentConfig {
        hostname,
        parcel_directory: normalize_path(package_dir.as_str()),
        config_directory: normalize_path(config_dir.as_str()),
        log_directory: normalize_path(log_dir.as_str()),
        bootstrap_file: normalize_path(bootstrap_file.as_str()),
        data_directory: normalize_path(data_dir.as_str()),
        server_ip_address,
        server_port,
        server_cert_file: cert_file,
        server_key_file: key_file,
        tags: pairs,
        session,
        pod_cidr,
    })
}

/// `true` or `false`.
pub open spec fn bool_text(b: bool) -> Seq<char> {
    if b {
        "true"@
    } else {
        "false"@
    }
}

/// The section of the documentation about option `k`: its name, default
/// value, whether it is required and takes several values, then its
/// documentation, or its help text where it has no documentation.
pub open spec fn option_section(k: OptionKey) -> Seq<char> {
    "\n\n\n=== "@ + option_name(k) + "\n\n"@
        + "*Default value*: `"@ + (match option_default(k) {
            Some(d) => d,
            None => "No default value"@,
        }) + "`\n\n"@
        + "*Required*: "@ + bool_text(false) + "\n\n"@
        + "*Multiple values:* "@ + bool_text(k == OptionKey::Tag) + "\n\n\n"@
        + option_help(k)
}

/// The documentation of the options `keys`, one section each, in order.
pub open spec fn documentation_of(keys: Seq<OptionKey>) -> Seq<char>
    decreases keys.len(),
{
    if keys.len() == 0 {
        Seq::empty()
    } else {
        documentation_of(keys.drop_last()) + option_section(keys.last())
    }
}

/// Appends the text of a boolean.
fn append_bool(s: &mut String, b: bool)
    ensures
        final(s)@ == old(s)@ + bool_text(b),
{
    if b {
        s.append("true");
    } else {
        s.append("false");
    }
}

impl AgentConfig {
    /// Returns the directory in which the `server_cert_file` is located.
    /// The file must end in a file name (not in `..`, `.` or the root).
    ///
    /// If `server_cert_file` contains only a file name then the empty path
    /// is returned.
    pub fn server_cert_file_dir(&self) -> (r: String)
        requires
            ends_in_normal_name(self.server_cert_file@),
        ensures
            r@ == parent_of(self.server_cert_file@),
    {
        proof {
            lemma_file_path_has_parent(self.server_cert_file@);
        }
        parent_path(self.server_cert_file.as_str())
    }

    /// Returns the directory in which the `server_key_file` is located.
    /// The file must end in a file name (not in `..`, `.` or the root).
    ///
    /// If `server_key_file` contains only a file name then the empty path
    /// is returned.
    pub fn server_key_file_dir(&self) -> (r: String)
        requires
            ends_in_normal_name(self.server_key_file@),
        ensures
            r@ == parent_of(self.server_key_file@),
    {
        proof {
            lemma_file_path_has_parent(self.server_key_file@);
        }
        parent_path(self.server_key_file.as_str())
    }

    /// The documentation of all options in AsciiDoc.
    pub fn get_documentation() -> (r: String)
        ensures
            r@ == documentation_of(all_options()),
    {
        let keys = OptionKey::all();
        let mut doc = String::new();
        let mut i: usize = 0;
        while i < keys.len()
            invariant
                i <= keys@.len(),
                keys@ == all_options(),
                doc@ == documentation_of(keys@.subrange(0, i as int)),
            decreases keys@.len() - i,
        {
            assert(keys@.subrange(0, i + 1).drop_last() =~= keys@.subrange(0, i as int));
            let k = keys[i];
            let o = k.option();
            doc.append("\n\n\n=== ");
            doc.append(o.name);
            doc.append("\n\n");
            doc.append("*Default value*: `");
            match o.default {
                Some(d) => doc.append(d),
                None => doc.append("No default value"),
            }
            doc.append("`\n\n");
            doc.append("*Required*: ");
            append_bool(&mut doc, o.required);
            doc.append("\n\n");
            doc.append("*Multiple values:* ");
            append_bool(&mut doc, o.list);
            doc.append("\n\n\n");
            if o.documentation.unicode_len() == 0 {
                doc.append(o.help);
            } else {
                doc.append(o.documentation);
            }
            proof {
                assert(doc@ =~= documentation_of(keys@.subrange(0, i as int)) + option_section(k));
            }
            i = i + 1;
        }
        assert(keys@.subrange(0, i as int) =~= keys@);
        doc
    }
}

/// The tags of a configuration that `parse_values` returned map each key
/// to the value of the last well-formed tag given for it, and no key
/// occurs twice.
pub proof fn lemma_parsed_tags_later_wins(
    c: AgentConfig,
    v: Seq<(OptionKey, Option<Seq<Seq<char>>>)>,
    hostname: Seq<char>,
    ip: Seq<char>,
)
    requires
        config_matches(c, v, hostname, ip),
    ensures
        entries_map(pair_views(c.tags@)) == entries_map(tag_pairs(tag_values(v))),
        keys_unique(pair_views(c.tags@)),
{
    lemma_keep_last_later_wins(tag_pairs(tag_values(v)));
}

/// A configuration that `parse_values` returned names a file for the
/// server certificate and for the private key, so that both have a
/// directory.
pub proof fn lemma_parsed_files_have_directories(
    c: AgentConfig,
    v: Seq<(OptionKey, Option<Seq<Seq<char>>>)>,
    hostname: Seq<char>,
    ip: Seq<char>,
)
    requires
        first_missing(v) is None,
        parse_error_names(v).len() == 0,
        config_matches(c, v, hostname, ip),
    ensures
        ends_in_normal_name(c.server_cert_file@),
        ends_in_normal_name(c.server_key_file@),
{
    let cert = normalized(exactly_one(v, OptionKey::ServerCertFile).unwrap());
    let key = normalized(exactly_one(v, OptionKey::ServerKeyFile).unwrap());
    if !ends_in_normal_name(cert) {
        assert(parse_error_names(v).len() > 0);
    }
    if !ends_in_normal_name(key) {
        assert(parse_error_names(v).len() > 0);
    }
}

/// A network interface and its first address.
#[derive(Debug)]
pub struct InterfaceAddress {
    pub interface_name: String,
    pub up: bool,
    pub loopback: bool,
    /// The IP address, where the interface has an internet address.
    pub inet_address: Option<String>,
}

/// The interface is up, not the loopback, and has an internet address.
pub open spec fn usable_interface(i: InterfaceAddress) -> bool {
    i.up && !i.loopback && i.inet_address is Some
}

impl AgentConfig {
    /// The address of the first interface that is up, is not the loopback
    /// interface and has an internet address; this should usually be the
    /// default interface.
    pub fn get_default_ipaddress(interfaces: &Vec<InterfaceAddress>) -> (r: Option<String>)
        ensures
            match r {
                Some(a) => exists|i: int|
                    0 <= i < interfaces@.len() && usable_interface(#[trigger] interfaces@[i])
                        && opt_view(interfaces@[i].inet_address) == Some(a@)
                        && forall|j: int| 0 <= j < i ==> !usable_interface(#[trigger] interfaces@[j]),
                None => forall|j: int| 0 <= j < interfaces@.len() ==> !usable_interface(#[trigger] interfaces@[j]),
            },
    {
        let mut k: usize = 0;
        while k < interfaces.len()
            invariant
                k <= interfaces@.len(),
                forall|j: int| 0 <= j < k ==> !usable_interface(#[trigger] interfaces@[j]),
            decreases interfaces@.len() - k,
        {
            let i = &interfaces[k];
            if i.up && !i.loopback {
                if let Some(a) = &i.inet_address {
                    return Some(a.clone());
                }
            }
            k = k + 1;
        }
        None
    }
}

/// Occurrences in a concatenation add up.
proof fn lemma_count_concat(a: Seq<char>, b: Seq<char>, c: char)
    ensures
        count_of(a + b, c) == count_of(a, c) + count_of(b, c),
    decreases b.len(),
{
    if b.len() == 0 {
        assert(a + b =~= a);
    } else {
        assert((a + b).drop_last() =~= a + b.drop_last());
        lemma_count_concat(a, b.drop_last(), c);
    }
}

/// A character that does not occur has no first index.
proof fn lemma_first_absent(s: Seq<char>, c: char)
    requires
        count_of(s, c) == 0,
    ensures
        first_index_of(s, c) == -1,
    decreases s.len(),
{
    if s.len() > 0 {
        lemma_first_absent(s.drop_last(), c);
    }
}

/// What follows the first occurrence does not change it.
proof fn lemma_first_prefix(x: Seq<char>, y: Seq<char>, c: char)
    requires
        first_index_of(x, c) >= 0,
    ensures
        first_index_of(x + y, c) == first_index_of(x, c),
    decreases y.len(),
{
    if y.len() == 0 {
        assert(x + y =~= x);
    } else {
        assert((x + y).drop_last() =~= x + y.drop_last());
        lemma_first_prefix(x, y.drop_last(), c);
    }
}

/// A tag written as `key=value`, where neither the key nor the value holds
/// a `=`, is read back as that key and value.
pub proof fn lemma_tag_round_trip(key: Seq<char>, value: Seq<char>)
    requires
        count_of(key, '=') == 0,
        count_of(value, '=') == 0,
    ensures
        split_tag(key + "="@ + value) == Some((key, value)),
{
    reveal_strlit("=");
    let eq = "="@;
    assert(eq =~= seq!['=']);
    let x = key + eq;
    let s = x + value;
    assert(key + "="@ + value == s);
    lemma_count_concat(key, eq, '=');
    assert(eq.drop_last() =~= Seq::<char>::empty());
    assert(eq.last() == '=');
    assert(count_of(eq.drop_last(), '=') == 0);
    assert(count_of(eq, '=') == 1);
    lemma_count_concat(x, value, '=');
    lemma_first_absent(key, '=');
    assert(x.drop_last() =~= key);
    assert(first_index_of(x, '=') == key.len());
    lemma_first_prefix(x, value, '=');
    assert(s.subrange(0, key.len() as int) =~= key);
    assert(s.subrange(key.len() as int + 1, s.len() as int) =~= value);
}

/// The directories and files of a configuration that `parse_values`
/// returned are in normal form: normalizing them again changes nothing.
pub proof fn lemma_parsed_paths_are_normal(
    c: AgentConfig,
    v: Seq<(OptionKey, Option<Seq<Seq<char>>>)>,
    hostname: Seq<char>,
    ip: Seq<char>,
)
    requires
        config_matches(c, v, hostname, ip),
    ensures
        normalized(c.data_directory@) == c.data_directory@,
        normalized(c.bootstrap_file@) == c.bootstrap_file@,
        normalized(c.log_directory@) == c.log_directory@,
        normalized(c.config_directory@) == c.config_directory@,
        normalized(c.parcel_directory@) == c.parcel_directory@,
        normalized(c.server_cert_file@) == c.server_cert_file@,
        normalized(c.server_key_file@) == c.server_key_file@,
{
    lemma_normalize_idempotent(exactly_one(v, OptionKey::DataDir).unwrap());
    lemma_normalize_idempotent(exactly_one(v, OptionKey::BootstrapFile).unwrap());
    lemma_normalize_idempotent(exactly_one(v, OptionKey::LogDir).unwrap());
    lemma_normalize_idempotent(exactly_one(v, OptionKey::ConfigDir).unwrap());
    lemma_normalize_idempotent(exactly_one(v, OptionKey::PackageDir).unwrap());
    lemma_normalize_idempotent(exactly_one(v, OptionKey::ServerCertFile).unwrap());
    lemma_normalize_idempotent(exactly_one(v, OptionKey::ServerKeyFile).unwrap());
}

/// The option `k` was given the values `l` last: the last entry for `k`
/// among the parsed values holds `l`.
pub open spec fn given_last(v: Seq<(OptionKey, Option<Seq<Seq<char>>>)>, k: OptionKey, l: Option<Seq<Seq<char>>>) -> bool {
    exists|i: int| 0 <= i < v.len() && #[trigger] v[i] == (k, l) && forall|j: int| i < j < v.len() ==> (#[trigger] v[j]).0 != k
}

/// The entry that counts for an option is the last one for it.
proof fn lemma_lookup_last(v: Seq<(OptionKey, Option<Seq<Seq<char>>>)>, k: OptionKey, l: Option<Seq<Seq<char>>>)
    requires
        given_last(v, k, l),
    ensures
        lookup(v, k) == Some(l),
    decreases v.len(),
{
    let i = choose|i: int| 0 <= i < v.len() && #[trigger] v[i] == (k, l) && forall|j: int| i < j < v.len() ==> (#[trigger] v[j]).0 != k;
    if i < v.len() - 1 {
        let d = v.drop_last();
        assert(v[v.len() - 1].0 != k);
        assert(d[i] == v[i]);
        assert forall|j: int| i < j < d.len() implies (#[trigger] d[j]).0 != k by {
            assert(d[j] == v[j]);
        }
        lemma_lookup_last(d, k, l);
    }
}

/// A configuration read from the command line holds the values given for
/// its options, each option being given one value, the last one counting:
/// the directories and files normalized, the port as read, the pod CIDR
/// as given; the session is on exactly where its option was given; host
/// name and address are those chosen for the node.
pub proof fn lemma_configuration_holds_given_values(
    c: AgentConfig,
    v: Seq<(OptionKey, Option<Seq<Seq<char>>>)>,
    hostname: Seq<char>,
    ip: Seq<char>,
)
    requires
        config_matches(c, v, hostname, ip),
    ensures
        c.hostname@ == hostname,
        c.server_ip_address@ == ip,
        forall|x: Seq<char>| given_last(v, OptionKey::PodCidr, Some(seq![x])) ==> c.pod_cidr@ == x,
        forall|x: Seq<char>| given_last(v, OptionKey::DataDir, Some(seq![x])) ==> c.data_directory@ == normalized(x),
        forall|x: Seq<char>| given_last(v, OptionKey::BootstrapFile, Some(seq![x])) ==> c.bootstrap_file@ == normalized(x),
        forall|x: Seq<char>| given_last(v, OptionKey::LogDir, Some(seq![x])) ==> c.log_directory@ == normalized(x),
        forall|x: Seq<char>| given_last(v, OptionKey::ConfigDir, Some(seq![x])) ==> c.config_directory@ == normalized(x),
        forall|x: Seq<char>| given_last(v, OptionKey::PackageDir, Some(seq![x])) ==> c.parcel_directory@ == normalized(x),
        forall|x: Seq<char>| given_last(v, OptionKey::ServerCertFile, Some(seq![x])) ==> c.server_cert_file@ == normalized(x),
        forall|x: Seq<char>| given_last(v, OptionKey::ServerKeyFile, Some(seq![x])) ==> c.server_key_file@ == normalized(x),
        forall|x: Seq<char>| given_last(v, OptionKey::ServerPort, Some(seq![x])) ==> Some(c.server_port) == port_number(x),
        forall|l: Option<Seq<Seq<char>>>| given_last(v, OptionKey::SessionSystemd, l) ==> c.session == l is Some,
{
    assert forall|x: Seq<char>| given_last(v, OptionKey::PodCidr, Some(seq![x])) implies c.pod_cidr@ == x by {
        lemma_lookup_last(v, OptionKey::PodCidr, Some(seq![x]));
    }
    assert forall|x: Seq<char>| given_last(v, OptionKey::DataDir, Some(seq![x])) implies c.data_directory@ == normalized(x) by {
        lemma_lookup_last(v, OptionKey::DataDir, Some(seq![x]));
    }
    assert forall|x: Seq<char>| given_last(v, OptionKey::BootstrapFile, Some(seq![x])) implies c.bootstrap_file@ == normalized(x) by {
        lemma_lookup_last(v, OptionKey::BootstrapFile, Some(seq![x]));
    }
    assert forall|x: Seq<char>| given_last(v, OptionKey::LogDir, Some(seq![x])) implies c.log_directory@ == normalized(x) by {
        lemma_lookup_last(v, OptionKey::LogDir, Some(seq![x]));
    }
    assert forall|x: Seq<char>| given_last(v, OptionKey::ConfigDir, Some(seq![x])) implies c.config_directory@ == normalized(x) by {
        lemma_lookup_last(v, OptionKey::ConfigDir, Some(seq![x]));
    }
    assert forall|x: Seq<char>| given_last(v, OptionKey::PackageDir, Some(seq![x])) implies c.parcel_directory@ == normalized(x) by {
        lemma_lookup_last(v, OptionKey::PackageDir, Some(seq![x]));
    }
    assert forall|x: Seq<char>| given_last(v, OptionKey::ServerCertFile, Some(seq![x])) implies c.server_cert_file@ == normalized(x) by {
        lemma_lookup_last(v, OptionKey::ServerCertFile, Some(seq![x]));
    }
    assert forall|x: Seq<char>| given_last(v, OptionKey::ServerKeyFile, Some(seq![x])) implies c.server_key_file@ == normalized(x) by {
        lemma_lookup_last(v, OptionKey::ServerKeyFile, Some(seq![x]));
    }
    assert forall|x: Seq<char>| given_last(v, OptionKey::ServerPort, Some(seq![x])) implies Some(c.server_port) == port_number(x) by {
        lemma_lookup_last(v, OptionKey::ServerPort, Some(seq![x]));
    }
    assert forall|l: Option<Seq<Seq<char>>>| given_last(v, OptionKey::SessionSystemd, l) implies c.session == l is Some by {
        lemma_lookup_last(v, OptionKey::SessionSystemd, l);
    }
}

} // verus!
