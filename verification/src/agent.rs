//! What the agent reports when it starts and what it hands on to the
//! kubelet.
use vstd::prelude::*;
use crate::config::{AgentConfig, OptionKey};
use crate::fsext::{component_texts, ends_in_normal_name, has_root, parent_of};
use crate::provider::states::pod::creating_config::pair_views;
use crate::text::{concat2, concat3, copy_str, join};

verus! {

/// The git information in the version line: empty without one.
pub open spec fn git_information(git_version: Option<Seq<char>>) -> Seq<char> {
    match git_version {
        None => Seq::empty(),
        Some(git) => " (Git information: "@ + git + ")"@,
    }
}

/// The line that tells which version of the agent starts.
pub open spec fn version_line(
    pkg_version: Seq<char>,
    git_version: Option<Seq<char>>,
    target: Seq<char>,
    built_time: Seq<char>,
    rustc_version: Seq<char>,
) -> Seq<char> {
    "This is version "@ + pkg_version + git_information(git_version) + ", built for "@ + target
        + " by "@ + rustc_version + " at "@ + built_time
}

/// The lines to log when the agent starts: a greeting, then the version
/// and how the agent was built.
pub fn print_startup_string(
    pkg_version: &str,
    git_version: Option<&str>,
    target: &str,
    built_time: &str,
    rustc_version: &str,
) -> (r: Vec<String>)
    ensures
        r@.len() == 2,
        r@[0]@ == "Starting the Stackable Agent"@,
        r@[1]@ == version_line(
            pkg_version@,
            match git_version {
                Some(g) => Some(g@),
                None => None,
            },
            target@,
            built_time@,
            rustc_version@,
        ),
{
    let git_information = match git_version {
        None => String::new(),
        Some(git) => concat3(" (Git information: ", git, ")"),
    };
    let mut line = concat2("This is version ", pkg_version);
    line.append(git_information.as_str());
    line.append(", built for ");
    line.append(target);
    line.append(" by ");
    line.append(rustc_version);
    line.append(" at ");
    line.append(built_time);
    proof {
        reveal_strlit("");
    }
    let mut r = Vec::new();
    r.push(copy_str("Starting the Stackable Agent"));
    r.push(line);
    r
}

/// The line to log when the TLS certificate was bootstrapped.
pub fn notify_bootstrap(message: String) -> (r: String)
    ensures
        r@ == "Successfully bootstrapped TLS certificate: "@ + message@,
{
    concat2("Successfully bootstrapped TLS certificate: ", message.as_str())
}

/// The tags as `key=value`, one per pair.
pub open spec fn label_texts(tags: Seq<(Seq<char>, Seq<char>)>) -> Seq<Seq<char>> {
    tags.map_values(|p: (Seq<char>, Seq<char>)| p.0 + "="@ + p.1)
}

/// The node labels handed to the kubelet: the tags as `key=value`,
/// separated by commas.
pub fn node_labels(tags: &Vec<(String, String)>) -> (r: String)
    ensures
        r@ == join(label_texts(pair_views(tags@)), ","@),
{
    let mut r = String::new();
    let mut i: usize = 0;
    let ghost all = label_texts(pair_views(tags@));
    while i < tags.len()
        invariant
            i <= tags@.len(),
            all == label_texts(pair_views(tags@)),
            r@ == join(all.subrange(0, i as int), ","@),
        decreases tags@.len() - i,
    {
        assert(all.subrange(0, i + 1).drop_last() =~= all.subrange(0, i as int));
        if i > 0 {
            r.append(",");
        }
        r.append(tags[i].0.as_str());
        r.append("=");
        r.append(tags[i].1.as_str());
        proof {
            assert(all[i as int] == tags@[i as int].0@ + "="@ + tags@[i as int].1@);
            if i > 0 {
                assert(r@ =~= join(all.subrange(0, i as int), ","@) + ","@ + all[i as int]);
            } else {
                reveal_strlit("");
                assert(r@ =~= all[0]);
            }
        }
        i = i + 1;
    }
    assert(all.subrange(0, i as int) =~= all);
    r
}

/// The directories where the agent needs to write, each with the option
/// that names it: the package, config, log and data directories, then the
/// directories of the certificate and the key file where these files do
/// not exist yet.
pub open spec fn writable_directories(
    c: AgentConfig,
    cert_is_file: bool,
    key_is_file: bool,
) -> Seq<(OptionKey, Seq<char>)> {
    seq![
        (OptionKey::PackageDir, c.parcel_directory@),
        (OptionKey::ConfigDir, c.config_directory@),
        (OptionKey::LogDir, c.log_directory@),
        (OptionKey::DataDir, c.data_directory@),
    ] + (if cert_is_file {
        Seq::empty()
    } else {
        seq![(OptionKey::ServerCertFile, parent_of(c.server_cert_file@))]
    }) + (if key_is_file {
        Seq::empty()
    } else {
        seq![(OptionKey::ServerKeyFile, parent_of(c.server_key_file@))]
    })
}

/// Returns all directories configured in `config` where write access is
/// required. `cert_is_file` and `key_is_file` tell whether the certificate
/// and the key file exist.
pub fn directories_where_write_access_is_required(
    config: &AgentConfig,
    cert_is_file: bool,
    key_is_file: bool,
) -> (r: Vec<(OptionKey, String)>)
    requires
        !cert_is_file ==> ends_in_normal_name(config.server_cert_file@),
        !key_is_file ==> ends_in_normal_name(config.server_key_file@),
    ensures
        r@.map_values(|e: (OptionKey, String)| (e.0, e.1@)) == writable_directories(*config, cert_is_file, key_is_file),
{
    let mut dirs: Vec<(OptionKey, String)> = Vec::new();
    dirs.push((OptionKey::PackageDir, config.parcel_directory.clone()));
    dirs.push((OptionKey::ConfigDir, config.config_directory.clone()));
    dirs.push((OptionKey::LogDir, config.log_directory.clone()));
    dirs.push((OptionKey::DataDir, config.data_directory.clone()));
    if !cert_is_file {
        dirs.push((OptionKey::ServerCertFile, config.server_cert_file_dir()));
    }
    if !key_is_file {
        dirs.push((OptionKey::ServerKeyFile, config.server_key_file_dir()));
    }
    assert(dirs@.map_values(|e: (OptionKey, String)| (e.0, e.1@)) =~= writable_directories(*config, cert_is_file, key_is_file));
    dirs
}

/// The directory to check for write access: a path without components
/// stands for the current directory.
pub open spec fn directory_to_check_of(d: Seq<char>) -> Seq<char> {
    if !has_root(d) && component_texts(d).len() == 0 {
        "."@
    } else {
        d
    }
}

/// Returns `directory`, or `.` where it has no components.
pub fn directory_to_check(directory: &str) -> (r: String)
    ensures
        r@ == directory_to_check_of(directory@),
{
    let (root, _, texts) = crate::fsext::components(directory);
    if !root && texts.len() == 0 {
        copy_str(".")
    } else {
        copy_str(directory)
    }
}

/// The directories to check on startup: always the package, config, log
/// and data directories, in this order; the directory of the certificate
/// exactly where the certificate file does not exist, and the directory of
/// the key exactly where the key file does not exist, each independent of
/// the other file; nothing else.
pub proof fn lemma_writable_directories_per_file(c: AgentConfig, cert_is_file: bool, key_is_file: bool)
    ensures
        ({
            let d = writable_directories(c, cert_is_file, key_is_file);
            &&& d.len() == 4 + (if cert_is_file { 0int } else { 1int }) + (if key_is_file { 0int } else { 1int })
            &&& d[0] == (OptionKey::PackageDir, c.parcel_directory@)
            &&& d[1] == (OptionKey::ConfigDir, c.config_directory@)
            &&& d[2] == (OptionKey::LogDir, c.log_directory@)
            &&& d[3] == (OptionKey::DataDir, c.data_directory@)
            &&& (exists|i: int| 0 <= i < d.len() && #[trigger] d[i] == (OptionKey::ServerCertFile, parent_of(
                c.server_cert_file@,
            ))) <==> !cert_is_file
            &&& (exists|i: int| 0 <= i < d.len() && #[trigger] d[i] == (OptionKey::ServerKeyFile, parent_of(
                c.server_key_file@,
            ))) <==> !key_is_file
        }),
{
    let d = writable_directories(c, cert_is_file, key_is_file);
    let cert = (OptionKey::ServerCertFile, parent_of(c.server_cert_file@));
    let key = (OptionKey::ServerKeyFile, parent_of(c.server_key_file@));
    if !cert_is_file {
        assert(d[4] == cert);
    } else {
        assert forall|i: int| 0 <= i < d.len() implies #[trigger] d[i] != cert by {
            assert(d[i].0 != OptionKey::ServerCertFile);
        }
    }
    if !key_is_file {
        assert(d[d.len() - 1] == key);
    } else {
        assert forall|i: int| 0 <= i < d.len() implies #[trigger] d[i] != key by {
            assert(d[i].0 != OptionKey::ServerKeyFile);
        }
    }
}

} // verus!
