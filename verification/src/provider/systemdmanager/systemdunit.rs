//! Systemd units: how the units of the containers of a pod are derived
//! from the pod and how their unit files read.
use vstd::prelude::*;
use vstd::seq_lib::lemma_sorted_unique;
use crate::fsext::{join_path, path_join};
use crate::provider::error::{is_template_failure, is_validation_error, validation_error, StackableError};
use crate::provider::kubernetes::pod::{Container, EnvVar, Pod};
use crate::provider::states::pod::creating_config::{
    copy_pairs, pair_views, render_data, rendered_all, CreatingConfig, TemplateData,
};
use crate::provider::states::pod::PodState;
use crate::provider::systemdmanager::manager::{unit_extension, UnitTypes};
use crate::text::{
    chars_of, concat2, concat3, copy_str, ends_with, join, join_strings, opt_view, opt_views,
    seq_ends_with, seq_starts_with, sort_strings, starts_with, str_eq, string_from_chars,
    string_order, views,
};

verus! {

/// Sections of a systemd unit, in the order in which they are written
/// into the unit file.
#[derive(Clone, Copy, Debug, PartialEq, Eq, Structural)]
pub enum Section {
    Unit,
    Service,
    Install,
}

/// The name of a section as it stands in its header.
pub open spec fn section_name(s: Section) -> Seq<char> {
    match s {
        Section::Unit => "Unit"@,
        Section::Service => "Service"@,
        Section::Install => "Install"@,
    }
}

impl Section {
    /// The name of the section.
    pub fn to_string(&self) -> (r: String)
        ensures
            r@ == section_name(*self),
    {
        match self {
            Section::Unit => String::from_str("Unit"),
            Section::Service => String::from_str("Service"),
            Section::Install => String::from_str("Install"),
        }
    }
}

/// The properties of a section: keys with their values, in the order in
/// which the keys were first set.
pub type PropsView = Seq<(Seq<char>, Seq<char>)>;

/// No key occurs twice.
pub open spec fn keys_distinct(p: PropsView) -> bool {
    forall|i: int, j: int| 0 <= i < j < p.len() ==> p[i].0 != p[j].0
}

/// The key is set.
pub open spec fn has_key(p: PropsView, k: Seq<char>) -> bool {
    exists|i: int| 0 <= i < p.len() && p[i].0 == k
}

/// Where the key stands.
pub open spec fn key_index(p: PropsView, k: Seq<char>) -> int {
    choose|i: int| 0 <= i < p.len() && p[i].0 == k
}

/// The properties with `k` set to `v`: a set key gets the new value, a
/// new key is added.
pub open spec fn props_insert(p: PropsView, k: Seq<char>, v: Seq<char>) -> PropsView {
    if has_key(p, k) {
        p.update(key_index(p, k), (k, v))
    } else {
        p.push((k, v))
    }
}

/// The value of `k`.
pub open spec fn props_get(p: PropsView, k: Seq<char>) -> Option<Seq<char>> {
    if has_key(p, k) {
        Some(p[key_index(p, k)].1)
    } else {
        None
    }
}

/// A systemd unit as a value: its name, its type and the properties of
/// each section that has any.
pub struct SystemDUnitView {
    pub name: Seq<char>,
    pub unit_type: UnitTypes,
    pub unit: Option<PropsView>,
    pub service: Option<PropsView>,
    pub install: Option<PropsView>,
}

/// A unit with no sections.
pub open spec fn empty_unit(name: Seq<char>, unit_type: UnitTypes) -> SystemDUnitView {
    SystemDUnitView { name, unit_type, unit: None, service: None, install: None }
}

impl SystemDUnitView {
    pub open spec fn section(self, s: Section) -> Option<PropsView> {
        match s {
            Section::Unit => self.unit,
            Section::Service => self.service,
            Section::Install => self.install,
        }
    }

    pub open spec fn with_section(self, s: Section, p: PropsView) -> SystemDUnitView {
        match s {
            Section::Unit => SystemDUnitView { unit: Some(p), ..self },
            Section::Service => SystemDUnitView { service: Some(p), ..self },
            Section::Install => SystemDUnitView { install: Some(p), ..self },
        }
    }

    /// The unit with `k=v` in section `s`.
    pub open spec fn with_property(self, s: Section, k: Seq<char>, v: Seq<char>) -> SystemDUnitView {
        let p = match self.section(s) {
            Some(p) => p,
            None => Seq::empty(),
        };
        self.with_section(s, props_insert(p, k, v))
    }

    /// The value of `k` in section `s`.
    pub open spec fn property(self, s: Section, k: Seq<char>) -> Option<Seq<char>> {
        match self.section(s) {
            Some(p) => props_get(p, k),
            None => None,
        }
    }

    pub open spec fn with_name(self, name: Seq<char>) -> SystemDUnitView {
        SystemDUnitView { name, ..self }
    }

    /// No key occurs twice in a section.
    pub open spec fn wf(self) -> bool {
        &&& (self.unit matches Some(p) ==> keys_distinct(p))
        &&& (self.service matches Some(p) ==> keys_distinct(p))
        &&& (self.install matches Some(p) ==> keys_distinct(p))
    }
}

/// The lines of a section: `key=value`, in the order of the properties.
pub open spec fn property_lines(p: PropsView) -> Seq<Seq<char>> {
    p.map_values(|e: (Seq<char>, Seq<char>)| e.0 + "="@ + e.1)
}

/// A section as written into the unit file: the header `[Name]`, then the
/// lines `key=value` in the order of strings, one per line.
pub open spec fn section_text(s: Section, p: PropsView) -> Seq<char> {
    join(
        seq!["["@ + section_name(s) + "]"@] + property_lines(p).sort_by(string_order()),
        "\n"@,
    )
}

/// The texts of the sections of the unit that has them, from `first` on.
pub open spec fn section_texts(u: SystemDUnitView) -> Seq<Seq<char>> {
    let a = match u.unit {
        Some(p) => seq![section_text(Section::Unit, p)],
        None => Seq::empty(),
    };
    let b = match u.service {
        Some(p) => seq![section_text(Section::Service, p)],
        None => Seq::empty(),
    };
    let c = match u.install {
        Some(p) => seq![section_text(Section::Install, p)],
        None => Seq::empty(),
    };
    a + b + c
}

/// The unit file: the sections that have properties, in the order Unit,
/// Service, Install, separated by an empty line.
pub open spec fn unit_file_content(u: SystemDUnitView) -> Seq<char> {
    join(section_texts(u), "\n\n"@)
}

/// The fully qualified name of the unit: `name.service`.
pub open spec fn qualified_name(u: SystemDUnitView) -> Seq<char> {
    u.name + "."@ + lower_type_name(u.unit_type)
}

/// The name of a unit type in lower case.
pub open spec fn lower_type_name(t: UnitTypes) -> Seq<char> {
    match t {
        UnitTypes::Service => "service"@,
    }
}

/// The sections of a unit; a section is there once a property is set in
/// it.
#[derive(Debug)]
pub struct UnitSections {
    pub unit: Option<Vec<(String, String)>>,
    pub service: Option<Vec<(String, String)>>,
    pub install: Option<Vec<(String, String)>>,
}

/// A struct that represents an individual systemd unit
#[derive(Debug)]
pub struct SystemDUnit {
    pub name: String,
    pub unit_type: UnitTypes,
    pub sections: UnitSections,
}

/// The view of an optional list of properties.
pub open spec fn opt_props(o: Option<Vec<(String, String)>>) -> Option<PropsView> {
    match o {
        Some(v) => Some(pair_views(v@)),
        None => None,
    }
}

impl View for SystemDUnit {
    type V = SystemDUnitView;

    open spec fn view(&self) -> SystemDUnitView {
        SystemDUnitView {
            name: self.name@,
            unit_type: self.unit_type,
            unit: opt_props(self.sections.unit),
            service: opt_props(self.sections.service),
            install: opt_props(self.sections.install),
        }
    }
}

fn copy_opt_props(p: &Option<Vec<(String, String)>>) -> (r: Option<Vec<(String, String)>>)
    ensures
        opt_props(r) == opt_props(*p),
{
    match p {
        Some(v) => Some(copy_pairs(v)),
        None => None,
    }
}

/// Sets `key` to `value` in a list of properties.
fn props_set(p: &mut Vec<(String, String)>, key: &str, value: &str)
    requires
        keys_distinct(pair_views(old(p)@)),
    ensures
        pair_views(final(p)@) == props_insert(pair_views(old(p)@), key@, value@),
        keys_distinct(pair_views(final(p)@)),
{
    let ghost pv = pair_views(p@);
    let mut i: usize = 0;
    while i < p.len()
        invariant
            i <= p@.len(),
            pv == pair_views(p@),
            pv == pair_views(old(p)@),
            keys_distinct(pv),
            forall|j: int| 0 <= j < i ==> pv[j].0 != key@,
        decreases p@.len() - i,
    {
        if str_eq(p[i].0.as_str(), key) {
            proof {
                assert(has_key(pv, key@)) by {
                    assert(pv[i as int].0 == key@);
                }
                let j = key_index(pv, key@);
                assert(j == i as int);
            }
            p.set(i, (String::from_str(key), String::from_str(value)));
            assert(pair_views(p@) =~= pv.update(i as int, (key@, value@)));
            return;
        }
        i = i + 1;
    }
    assert(!has_key(pv, key@));
    p.push((String::from_str(key), String::from_str(value)));
    assert(pair_views(p@) =~= pv.push((key@, value@)));
}

/// Sets `key` to `value` in an optional list of properties, creating it.
fn section_set(o: &mut Option<Vec<(String, String)>>, key: &str, value: &str)
    requires
        *old(o) matches Some(p) ==> keys_distinct(pair_views(p@)),
    ensures
        opt_props(*final(o)) == Some(
            props_insert(
                match opt_props(*old(o)) {
                    Some(p) => p,
                    None => Seq::empty(),
                },
                key@,
                value@,
            ),
        ),
        *final(o) matches Some(p) && keys_distinct(pair_views(p@)),
{
    match o {
        Some(p) => {
            props_set(p, key, value);
        },
        None => {
            let mut p: Vec<(String, String)> = Vec::new();
            assert(pair_views(p@) =~= Seq::empty());
            props_set(&mut p, key, value);
            *o = Some(p);
        },
    }
}

/// The lines `key=value` of a list of properties.
fn format_lines(p: &Vec<(String, String)>) -> (r: Vec<String>)
    ensures
        views(r@) == property_lines(pair_views(p@)),
{
    let mut r: Vec<String> = Vec::new();
    let mut i: usize = 0;
    while i < p.len()
        invariant
            i <= p@.len(),
            views(r@) == property_lines(pair_views(p@.subrange(0, i as int))),
        decreases p@.len() - i,
    {
        let line = concat3(p[i].0.as_str(), "=", p[i].1.as_str());
        let ghost old_r = r@;
        r.push(line);
        assert(views(r@) =~= views(old_r).push(line@));
        assert(pair_views(p@.subrange(0, i + 1)) =~= pair_views(p@.subrange(0, i as int)).push(
            (p@[i as int].0@, p@[i as int].1@),
        ));
        assert(property_lines(pair_views(p@.subrange(0, i + 1))) =~= property_lines(
            pair_views(p@.subrange(0, i as int)),
        ).push(line@));
        i = i + 1;
    }
    assert(p@.subrange(0, i as int) =~= p@);
    r
}

impl SystemDUnit {
    /// A unit with the given name and type and no sections.
    pub fn empty(name: String, unit_type: UnitTypes) -> (r: SystemDUnit)
        ensures
            r@ == empty_unit(name@, unit_type),
    {
        SystemDUnit {
            name,
            unit_type,
            sections: UnitSections { unit: None, service: None, install: None },
        }
    }

    /// A copy of this unit.
    pub fn duplicate(&self) -> (r: SystemDUnit)
        ensures
            r@ == self@,
    {
        SystemDUnit {
            name: self.name.clone(),
            unit_type: self.unit_type,
            sections: UnitSections {
                unit: copy_opt_props(&self.sections.unit),
                service: copy_opt_props(&self.sections.service),
                install: copy_opt_props(&self.sections.install),
            },
        }
    }

    /// Add a key=value entry to the specified section; a value set before
    /// for the key is replaced.
    pub fn add_property(&mut self, section: Section, key: &str, value: &str)
        requires
            old(self)@.wf(),
        ensures
            final(self)@ == old(self)@.with_property(section, key@, value@),
            final(self)@.wf(),
    {
        match section {
            Section::Unit => section_set(&mut self.sections.unit, key, value),
            Section::Service => section_set(&mut self.sections.service, key, value),
            Section::Install => section_set(&mut self.sections.install, key, value),
        }
    }

    /// Convenience function to retrieve the _fully qualified_ systemd
    /// name, which includes the `.servicetype` part.
    pub fn get_name(&self) -> (r: String)
        ensures
            r@ == qualified_name(self@),
    {
        let lower_type = match self.unit_type {
            UnitTypes::Service => "service",
        };
        concat3(self.name.as_str(), ".", lower_type)
    }

    /// The extension of the unit type: `.service`.
    pub fn get_type_string(&self) -> (r: &str)
        ensures
            r@ == unit_extension(self.unit_type),
    {
        match self.unit_type {
            UnitTypes::Service => ".service",
        }
    }

    /// One section as it is written into the unit file.
    pub fn write_section(section: &Section, entries: &Vec<(String, String)>) -> (r: String)
        ensures
            r@ == section_text(*section, pair_views(entries@)),
    {
        let name = section.to_string();
        let header = concat3("[", name.as_str(), "]");
        let body = sort_strings(format_lines(entries));
        let mut lines: Vec<String> = Vec::new();
        lines.push(header);
        let mut i: usize = 0;
        while i < body.len()
            invariant
                i <= body@.len(),
                views(lines@) == seq!["["@ + section_name(*section) + "]"@] + views(
                    body@.subrange(0, i as int),
                ),
            decreases body@.len() - i,
        {
            let line = body[i].clone();
            let ghost old_lines = lines@;
            lines.push(line);
            assert(views(lines@) =~= views(old_lines).push(line@));
            assert(views(body@.subrange(0, i + 1)) =~= views(body@.subrange(0, i as int)).push(
                line@,
            ));
            assert(views(lines@) =~= seq!["["@ + section_name(*section) + "]"@] + views(
                body@.subrange(0, i + 1),
            ));
            i = i + 1;
        }
        assert(body@.subrange(0, i as int) =~= body@);
        join_strings(&lines, "\n")
    }

    /// Retrieve content of the unit file as it should be written to disk
    pub fn get_unit_file_content(&self) -> (r: String)
        ensures
            r@ == unit_file_content(self@),
    {
        let mut parts: Vec<String> = Vec::new();
        if let Some(p) = &self.sections.unit {
            parts.push(SystemDUnit::write_section(&Section::Unit, p));
        }
        let ghost a = views(parts@);
        if let Some(p) = &self.sections.service {
            parts.push(SystemDUnit::write_section(&Section::Service, p));
        }
        let ghost b = views(parts@);
        if let Some(p) = &self.sections.install {
            parts.push(SystemDUnit::write_section(&Section::Install, p));
        }
        proof {
            assert(views(parts@) =~= section_texts(self@));
        }
        join_strings(&parts, "\n\n")
    }
}


/// The pattern that user names must match to comply with the strict mode
/// of systemd (see <https://systemd.io/USER_NAMES/>).
pub const USER_NAME_PATTERN: &'static str = "^[a-zA-Z_][a-zA-Z0-9_-]{0,30}$";

/// A letter or an underscore.
pub open spec fn is_name_start(c: char) -> bool {
    ('a' <= c && c <= 'z') || ('A' <= c && c <= 'Z') || c == '_'
}

/// A letter, a digit, an underscore or a hyphen.
pub open spec fn is_name_char(c: char) -> bool {
    is_name_start(c) || ('0' <= c && c <= '9') || c == '-'
}

/// The text matches [`USER_NAME_PATTERN`]: one to 31 characters, the
/// first a letter or an underscore, the others letters, digits,
/// underscores or hyphens.
pub open spec fn is_systemd_user_name(s: Seq<char>) -> bool {
    &&& 1 <= s.len() <= 31
    &&& is_name_start(s[0])
    &&& forall|i: int| 1 <= i < s.len() ==> is_name_char(#[trigger] s[i])
}

/// Matches `text` against `pattern` with the `regex` crate
/// (`Regex::new(pattern)` and `Regex::is_match`).
///
/// The contract admits the one pattern the library uses, which compiles,
/// and states what it matches: `^` and `$` anchor the match at both ends
/// of the text and the classes and the repetition `{0,30}` accept the
/// characters and lengths that `is_systemd_user_name` lists.
#[verifier::external_body]
fn regex_is_match(pattern: &str, text: &str) -> (r: bool)
    requires
        pattern@ == USER_NAME_PATTERN@,
    ensures
        r == is_systemd_user_name(text@),
{
    match regex::Regex::new(pattern) {
        Ok(re) => re.is_match(text),
        Err(_) => false,
    }
}

/// `Unknown value [policy] for RestartPolicy in pod [pod]`
pub open spec fn unknown_policy_message(policy: Seq<char>, pod: Seq<char>) -> Seq<char> {
    "Unknown value ["@ + policy + "] for RestartPolicy in pod ["@ + pod + "]"@
}

/// The error message for an invalid user name in the security context of
/// a pod.
pub open spec fn pod_user_name_message(pod: Seq<char>, user: Seq<char>) -> Seq<char> {
    "The validation of the pod ["@ + pod + "] failed. The user name ["@ + user
        + "] in spec.securityContext.windowsOptions.runAsUserName must match the regular expression \""@
        + USER_NAME_PATTERN@ + "\"."@
}

/// The error message for an invalid user name in the security context of
/// a container.
pub open spec fn container_user_name_message(pod: Seq<char>, user: Seq<char>, container: Seq<char>) -> Seq<
    char,
> {
    "The validation of the pod ["@ + pod + "] failed. The user name ["@ + user
        + "] in spec.containers[name = "@ + container
        + "].securityContext.windowsOptions.runAsUserName must match the regular expression \""@
        + USER_NAME_PATTERN@ + "\"."@
}

/// The error message for a container without a command.
pub open spec fn missing_command_message(container: Seq<char>) -> Seq<char> {
    "Error creating systemd unit for container "@ + container
        + ", due to missing command element."@
}

/// The error message for a container with an empty command.
pub open spec fn empty_command_message(container: Seq<char>) -> Seq<char> {
    "Unable to convert command for container ["@ + container + "] to utf8."@
}

/// The systemd restart setting for a Kubernetes restart policy.
pub open spec fn restart_setting(policy: Seq<char>) -> Option<Seq<char>> {
    if policy == "Always"@ {
        Some("always"@)
    } else if policy == "OnFailure"@ {
        Some("on-failure"@)
    } else if policy == "Never"@ {
        Some("no"@)
    } else {
        None
    }
}

/// The restart policy a pod names, `Never` where it names none.
pub open spec fn named_policy(pod: Pod) -> Seq<char> {
    match pod.restart_policy {
        Some(p) => p@,
        None => "Never"@,
    }
}

/// The unit with the settings that all containers of the pod share: the
/// restart setting and, outside the user session, the user of the pod;
/// or the message why the pod is invalid.
pub open spec fn unit_from_pod(pod: Pod, user_mode: bool) -> Result<SystemDUnitView, Seq<char>> {
    let policy = named_policy(pod);
    match restart_setting(policy) {
        None => Err(unknown_policy_message(policy, pod.name@)),
        Some(setting) => {
            let u = empty_unit(pod.name@, UnitTypes::Service).with_property(
                Section::Service,
                "Restart"@,
                setting,
            );
            match pod.run_as_user_name {
                None => Ok(u),
                Some(n) => if !is_systemd_user_name(n@) {
                    Err(pod_user_name_message(pod.name@, n@))
                } else if user_mode {
                    Ok(u)
                } else {
                    Ok(u.with_property(Section::Service, "User"@, n@))
                },
            }
        },
    }
}

/// Why a unit for a container could not be created: the pod is invalid,
/// with a message, or a template failed to render.
pub enum UnitFailure {
    Invalid(Seq<char>),
    Template,
}

/// The error `e` is the failure `f`.
pub open spec fn failure_matches(e: StackableError, f: UnitFailure) -> bool {
    match f {
        UnitFailure::Invalid(m) => is_validation_error(e, m),
        UnitFailure::Template => is_template_failure(e),
    }
}

/// The binary with the package directory put in front, unless it starts
/// with the `{{packageroot}}` placeholder itself.
pub open spec fn binary_path(binary: Seq<char>, package_root: Seq<char>) -> Seq<char> {
    if seq_starts_with(binary, "{{packageroot}}"@) {
        binary
    } else {
        path_join(package_root, binary)
    }
}

/// The parts of the command line: the binary, the rest of the command and
/// the arguments.
pub open spec fn command_parts(
    command: Seq<Seq<char>>,
    args: Option<Seq<Seq<char>>>,
    package_root: Seq<char>,
) -> Seq<Seq<char>> {
    seq![binary_path(command[0], package_root)] + command.drop_first() + match args {
        Some(a) => a,
        None => Seq::empty(),
    }
}

/// The command line of a container: its parts rendered as templates and
/// joined by spaces.
pub open spec fn command_line(
    container: Container,
    data: Map<Seq<char>, Seq<char>>,
    package_root: Seq<char>,
) -> Result<Seq<char>, UnitFailure> {
    match opt_views(container.command) {
        None => Err(UnitFailure::Invalid(missing_command_message(container.name@))),
        Some(c) => if c.len() == 0 {
            Err(UnitFailure::Invalid(empty_command_message(container.name@)))
        } else {
            match rendered_all(data, command_parts(c, opt_views(container.args), package_root)) {
                None => Err(UnitFailure::Template),
                Some(r) => Ok(join(r, " "@)),
            }
        },
    }
}

/// The values of environment variables, the empty text where none is set.
pub open spec fn env_values(vars: Seq<EnvVar>) -> Seq<Seq<char>> {
    vars.map_values(
        |v: EnvVar|
            match v.value {
                Some(x) => x@,
                None => Seq::empty(),
            },
    )
}

/// The environment of a container: each variable with its value rendered
/// as a template, or `None` if one fails to render.
pub open spec fn environment(container: Container, data: Map<Seq<char>, Seq<char>>) -> Option<
    PropsView,
> {
    match container.env {
        None => Some(Seq::empty()),
        Some(vars) => match rendered_all(data, env_values(vars@)) {
            None => None,
            Some(r) => Some(
                Seq::new(vars@.len(), |i: int| (vars@[i].name@, r[i])),
            ),
        },
    }
}

/// `"name=value"`, in quotes.
pub open spec fn env_assignment(e: (Seq<char>, Seq<char>)) -> Seq<char> {
    "\""@ + e.0 + "="@ + e.1 + "\""@
}

/// The value of the `Environment` property: the assignments in the order
/// of strings, separated by spaces.
pub open spec fn environment_value(env: PropsView) -> Seq<char> {
    join(
        env.map_values(|e: (Seq<char>, Seq<char>)| env_assignment(e)).sort_by(string_order()),
        " "@,
    )
}

/// The container name without the extension of the unit type.
pub open spec fn trimmed_name(name: Seq<char>, extension: Seq<char>) -> Seq<char> {
    if seq_ends_with(name, extension) {
        name.subrange(0, name.len() - extension.len())
    } else {
        name
    }
}

/// The unit of a container: the common settings of the pod, the name
/// `prefix + container name`, the command, the environment, the journal
/// as output, the user of the container and the install target.
pub open spec fn unit_from_container(
    common: SystemDUnitView,
    name_prefix: Seq<char>,
    container: Container,
    data: Map<Seq<char>, Seq<char>>,
    package_root: Seq<char>,
    user_mode: bool,
) -> Result<SystemDUnitView, UnitFailure> {
    let name = name_prefix + trimmed_name(container.name@, unit_extension(common.unit_type));
    let u1 = common.with_name(name).with_property(Section::Unit, "Description"@, name);
    match command_line(container, data, package_root) {
        Err(f) => Err(f),
        Ok(cmd) => {
            let u2 = u1.with_property(Section::Service, "ExecStart"@, cmd);
            match environment(container, data) {
                None => Err(UnitFailure::Invalid("Failed to render a template"@)),
                Some(env) => {
                    let u3 = if env.len() == 0 {
                        u2
                    } else {
                        u2.with_property(Section::Service, "Environment"@, environment_value(env))
                    };
                    let u4 = u3.with_property(Section::Service, "StandardOutput"@, "journal"@).with_property(
                        Section::Service,
                        "StandardError"@,
                        "journal"@,
                    );
                    match container.run_as_user_name {
                        Some(n) => if !is_systemd_user_name(n@) {
                            Err(
                                UnitFailure::Invalid(
                                    container_user_name_message(name, n@, container.name@),
                                ),
                            )
                        } else {
                            let u5 = if user_mode {
                                u4
                            } else {
                                u4.with_property(Section::Service, "User"@, n@)
                            };
                            Ok(u5.with_property(Section::Install, "WantedBy"@, "multi-user.target"@))
                        },
                        None => Ok(
                            u4.with_property(Section::Install, "WantedBy"@, "multi-user.target"@),
                        ),
                    }
                },
            }
        },
    }
}

impl SystemDUnit {
    /// Create a new unit which inherits all common elements from
    /// `common_properties` and parses everything else from the
    /// `container`; the templates are rendered with the directories of the
    /// service.
    pub fn new(
        common_properties: &SystemDUnit,
        name_prefix: &str,
        container: &Container,
        user_mode: bool,
        pod_state: &PodState,
    ) -> (r: Result<SystemDUnit, StackableError>)
        requires
            common_properties@.wf(),
        ensures
            match unit_from_container(
                common_properties@,
                name_prefix@,
                *container,
                render_data(*pod_state),
                pod_state.service_package_directory(),
                user_mode,
            ) {
                Ok(u) => r matches Ok(x) && x@ == u && x@.wf(),
                Err(f) => r matches Err(e) && failure_matches(e, f),
            },
    {
        let template_data = CreatingConfig::create_render_data(pod_state);
        let package_root = pod_state.get_service_package_directory();
        SystemDUnit::new_from_container(
            common_properties,
            name_prefix,
            container,
            pod_state.service_name.as_str(),
            &template_data,
            package_root.as_str(),
            user_mode,
        )
    }

    /// The unit of a container, see [`unit_from_container`].
    pub fn new_from_container(
        common_properties: &SystemDUnit,
        name_prefix: &str,
        container: &Container,
        service_name: &str,
        template_data: &TemplateData,
        package_root: &str,
        user_mode: bool,
    ) -> (r: Result<SystemDUnit, StackableError>)
        requires
            common_properties@.wf(),
        ensures
            match unit_from_container(
                common_properties@,
                name_prefix@,
                *container,
                template_data@,
                package_root@,
                user_mode,
            ) {
                Ok(u) => r matches Ok(x) && x@ == u && x@.wf(),
                Err(f) => r matches Err(e) && failure_matches(e, f),
            },
    {
        let mut unit = common_properties.duplicate();
        let extension = common_properties.get_type_string();
        let trimmed = if ends_with(container.name.as_str(), extension) {
            let chars = chars_of(container.name.as_str());
            let n = chars.len() - chars_of(extension).len();
            string_from_chars(&chars, 0, n)
        } else {
            container.name.clone()
        };
        unit.name = concat2(name_prefix, trimmed.as_str());
        let name = unit.name.clone();
        unit.add_property(Section::Unit, "Description", name.as_str());

        let command = match SystemDUnit::get_command(container, template_data, package_root) {
            Ok(c) => c,
            Err(e) => return Err(e),
        };
        unit.add_property(Section::Service, "ExecStart", command.as_str());

        let env_vars = match SystemDUnit::get_environment(container, service_name, template_data) {
            Ok(v) => v,
            Err(e) => return Err(e),
        };
        if env_vars.len() > 0 {
            let mut assignments: Vec<String> = Vec::new();
            let mut i: usize = 0;
            while i < env_vars.len()
                invariant
                    i <= env_vars@.len(),
                    views(assignments@) == pair_views(env_vars@.subrange(0, i as int)).map_values(
                        |e: (Seq<char>, Seq<char>)| env_assignment(e),
                    ),
                decreases env_vars@.len() - i,
            {
                let mut a = String::from_str("\"");
                a.append(env_vars[i].0.as_str());
                a.append("=");
                a.append(env_vars[i].1.as_str());
                a.append("\"");
                let ghost old_a = assignments@;
                assignments.push(a);
                proof {
                    assert(views(assignments@) =~= views(old_a).push(a@));
                    assert(pair_views(env_vars@.subrange(0, i + 1)) =~= pair_views(
                        env_vars@.subrange(0, i as int),
                    ).push((env_vars@[i as int].0@, env_vars@[i as int].1@)));
                    assert(views(assignments@) =~= pair_views(env_vars@.subrange(0, i + 1)).map_values(
                        |e: (Seq<char>, Seq<char>)| env_assignment(e),
                    ));
                }
                i = i + 1;
            }
            assert(env_vars@.subrange(0, i as int) =~= env_vars@);
            let sorted = sort_strings(assignments);
            let value = join_strings(&sorted, " ");
            unit.add_property(Section::Service, "Environment", value.as_str());
        }

        unit.add_property(Section::Service, "StandardOutput", "journal");
        unit.add_property(Section::Service, "StandardError", "journal");

        match SystemDUnit::get_user_name_from_security_context(container, name.as_str()) {
            Err(e) => return Err(e),
            Ok(Some(user_name)) => {
                if !user_mode {
                    unit.add_property(Section::Service, "User", user_name.as_str());
                }
            },
            Ok(None) => {},
        }

        unit.add_property(Section::Install, "WantedBy", "multi-user.target");
        Ok(unit)
    }

    /// The user name in the security context of the container, if it is
    /// valid; `pod_name` names the unit in the error message.
    fn get_user_name_from_security_context(container: &Container, pod_name: &str) -> (r: Result<
        Option<String>,
        StackableError,
    >)
        ensures
            match container.run_as_user_name {
                None => r matches Ok(None),
                Some(n) => if is_systemd_user_name(n@) {
                    r matches Ok(Some(x)) && x@ == n@
                } else {
                    r matches Err(e) && is_validation_error(
                        e,
                        container_user_name_message(pod_name@, n@, container.name@),
                    )
                },
            },
    {
        match &container.run_as_user_name {
            None => Ok(None),
            Some(user_name) => {
                if regex_is_match(USER_NAME_PATTERN, user_name.as_str()) {
                    Ok(Some(user_name.clone()))
                } else {
                    let mut msg = String::from_str("The validation of the pod [");
                    msg.append(pod_name);
                    msg.append("] failed. The user name [");
                    msg.append(user_name.as_str());
                    msg.append("] in spec.containers[name = ");
                    msg.append(container.name.as_str());
                    msg.append(
                        "].securityContext.windowsOptions.runAsUserName must match the regular expression \"",
                    );
                    msg.append(USER_NAME_PATTERN);
                    msg.append("\".");
                    Err(validation_error(msg))
                }
            },
        }
    }

    /// Parse a pod object and retrieve the generic settings which will be
    /// the same across all service units created for containers in this
    /// pod; see [`unit_from_pod`].
    pub fn new_from_pod(pod: &Pod, user_mode: bool) -> (r: Result<SystemDUnit, StackableError>)
        ensures
            match unit_from_pod(*pod, user_mode) {
                Ok(u) => r matches Ok(x) && x@ == u && x@.wf(),
                Err(m) => r matches Err(e) && is_validation_error(e, m),
            },
    {
        let mut unit = SystemDUnit::empty(pod.name.clone(), UnitTypes::Service);
        let policy: &str = match &pod.restart_policy {
            Some(p) => p.as_str(),
            None => "Never",
        };
        let setting = if str_eq(policy, "Always") {
            "always"
        } else if str_eq(policy, "OnFailure") {
            "on-failure"
        } else if str_eq(policy, "Never") {
            "no"
        } else {
            let mut msg = String::from_str("Unknown value [");
            msg.append(policy);
            msg.append("] for RestartPolicy in pod [");
            msg.append(pod.name.as_str());
            msg.append("]");
            return Err(validation_error(msg));
        };
        unit.add_property(Section::Service, "Restart", setting);

        match SystemDUnit::get_user_name_from_pod_security_context(pod) {
            Err(e) => return Err(e),
            Ok(Some(user_name)) => {
                if !user_mode {
                    unit.add_property(Section::Service, "User", user_name.as_str());
                }
            },
            Ok(None) => {},
        }
        Ok(unit)
    }

    /// The user name in the security context of the pod, if it is valid.
    fn get_user_name_from_pod_security_context(pod: &Pod) -> (r: Result<
        Option<String>,
        StackableError,
    >)
        ensures
            match pod.run_as_user_name {
                None => r matches Ok(None),
                Some(n) => if is_systemd_user_name(n@) {
                    r matches Ok(Some(x)) && x@ == n@
                } else {
                    r matches Err(e) && is_validation_error(e, pod_user_name_message(pod.name@, n@))
                },
            },
    {
        match &pod.run_as_user_name {
            None => Ok(None),
            Some(user_name) => {
                if regex_is_match(USER_NAME_PATTERN, user_name.as_str()) {
                    Ok(Some(user_name.clone()))
                } else {
                    let mut msg = String::from_str("The validation of the pod [");
                    msg.append(pod.name.as_str());
                    msg.append("] failed. The user name [");
                    msg.append(user_name.as_str());
                    msg.append(
                        "] in spec.securityContext.windowsOptions.runAsUserName must match the regular expression \"",
                    );
                    msg.append(USER_NAME_PATTERN);
                    msg.append("\".");
                    Err(validation_error(msg))
                }
            },
        }
    }

    /// The environment of the container: each variable with its value
    /// rendered as a template. If one rendering fails the whole pod is
    /// invalid.
    pub fn get_environment(
        container: &Container,
        service_name: &str,
        template_data: &TemplateData,
    ) -> (r: Result<Vec<(String, String)>, StackableError>)
        ensures
            match environment(*container, template_data@) {
                Some(env) => r matches Ok(v) && pair_views(v@) == env,
                None => r matches Err(e) && is_validation_error(e, "Failed to render a template"@),
            },
    {
        match &container.env {
            None => {
                let v: Vec<(String, String)> = Vec::new();
                assert(pair_views(v@) =~= Seq::empty());
                Ok(v)
            },
            Some(vars) => {
                let mut values: Vec<String> = Vec::new();
                let mut i: usize = 0;
                while i < vars.len()
                    invariant
                        i <= vars@.len(),
                        views(values@) == env_values(vars@.subrange(0, i as int)),
                    decreases vars@.len() - i,
                {
                    let value = match &vars[i].value {
                        Some(x) => x.clone(),
                        None => String::new(),
                    };
                    let ghost old_values = values@;
                    values.push(value);
                    proof {
                        assert(views(values@) =~= views(old_values).push(value@));
                        assert(env_values(vars@.subrange(0, i + 1)) =~= env_values(
                            vars@.subrange(0, i as int),
                        ).push(value@));
                    }
                    i = i + 1;
                }
                assert(vars@.subrange(0, i as int) =~= vars@);
                match CreatingConfig::render_all(template_data, &values) {
                    Err(_) => Err(validation_error(String::from_str("Failed to render a template"))),
                    Ok(rendered) => {
                        let ghost rv = views(rendered@);
                        proof {
                            lemma_rendered_all_len(template_data@, env_values(vars@));
                        }
                        let mut env: Vec<(String, String)> = Vec::new();
                        let mut j: usize = 0;
                        while j < vars.len()
                            invariant
                                j <= vars@.len(),
                                rendered@.len() == vars@.len(),
                                rv == views(rendered@),
                                pair_views(env@) == Seq::new(
                                    j as nat,
                                    |k: int| (vars@[k].name@, rv[k]),
                                ),
                            decreases vars@.len() - j,
                        {
                            let name = vars[j].name.clone();
                            let value = rendered[j].clone();
                            let ghost old_env = env@;
                            env.push((name, value));
                            proof {
                                assert(pair_views(env@) =~= pair_views(old_env).push(
                                    (vars@[j as int].name@, rv[j as int]),
                                ));
                                assert(pair_views(env@) =~= Seq::new(
                                    (j + 1) as nat,
                                    |k: int| (vars@[k].name@, rv[k]),
                                ));
                            }
                            j = j + 1;
                        }
                        Ok(env)
                    },
                }
            },
        }
    }

    /// The command line of the container, see [`command_line`].
    pub fn get_command(container: &Container, template_data: &TemplateData, package_root: &str) -> (r:
        Result<String, StackableError>)
        ensures
            match command_line(*container, template_data@, package_root@) {
                Ok(c) => r matches Ok(x) && x@ == c,
                Err(f) => r matches Err(e) && failure_matches(e, f),
            },
    {
        let command = match &container.command {
            Some(c) => c,
            None => {
                let msg = concat3(
                    "Error creating systemd unit for container ",
                    container.name.as_str(),
                    ", due to missing command element.",
                );
                return Err(validation_error(msg));
            },
        };
        if command.len() == 0 {
            let msg = concat3(
                "Unable to convert command for container [",
                container.name.as_str(),
                "] to utf8.",
            );
            return Err(validation_error(msg));
        }
        let binary = command[0].as_str();
        let binary_with_path = if starts_with(binary, "{{packageroot}}") {
            copy_str(binary)
        } else {
            join_path(package_root, binary)
        };
        let mut parts: Vec<String> = Vec::new();
        parts.push(binary_with_path);
        let ghost cv = views(command@);
        let ghost av: Seq<Seq<char>> = match opt_views(container.args) {
            Some(a) => a,
            None => Seq::empty(),
        };
        let mut i: usize = 1;
        assert(views(parts@) =~= seq![binary_path(cv[0], package_root@)] + cv.subrange(1, 1));
        while i < command.len()
            invariant
                1 <= i <= command@.len(),
                cv == views(command@),
                views(parts@) == seq![binary_path(cv[0], package_root@)] + cv.subrange(1, i as int),
            decreases command@.len() - i,
        {
            let x = command[i].clone();
            let ghost old_parts = parts@;
            parts.push(x);
            proof {
                assert(views(parts@) =~= views(old_parts).push(x@));
                assert(cv.subrange(1, i + 1) =~= cv.subrange(1, i as int).push(x@));
            }
            i = i + 1;
        }
        assert(cv.subrange(1, i as int) =~= cv.drop_first());
        let ghost base = views(parts@);
        if let Some(args) = &container.args {
            let mut j: usize = 0;
            while j < args.len()
                invariant
                    j <= args@.len(),
                    av == views(args@),
                    views(parts@) == base + av.subrange(0, j as int),
                decreases args@.len() - j,
            {
                let x = args[j].clone();
                let ghost old_parts = parts@;
                parts.push(x);
                proof {
                    assert(views(parts@) =~= views(old_parts).push(x@));
                    assert(av.subrange(0, j + 1) =~= av.subrange(0, j as int).push(x@));
                }
                j = j + 1;
            }
            assert(av.subrange(0, j as int) =~= av);
        } else {
            assert(base + av =~= base);
        }
        assert(views(parts@) == command_parts(cv, opt_views(container.args), package_root@));
        match CreatingConfig::render_all(template_data, &parts) {
            Ok(rendered) => Ok(join_strings(&rendered, " ")),
            Err(e) => Err(e),
        }
    }
}

/// Rendering keeps the number of templates.
pub proof fn lemma_rendered_all_len(data: Map<Seq<char>, Seq<char>>, templates: Seq<Seq<char>>)
    ensures
        rendered_all(data, templates) matches Some(r) ==> r.len() == templates.len(),
    decreases templates.len(),
{
    if templates.len() > 0 {
        lemma_rendered_all_len(data, templates.drop_last());
    }
}

/// In a section whose keys are distinct, the value of a key stands at
/// its index.
proof fn lemma_props_get_at(p: PropsView, j: int)
    requires
        keys_distinct(p),
        0 <= j < p.len(),
    ensures
        props_get(p, p[j].0) == Some(p[j].1),
{
    let k = p[j].0;
    assert(has_key(p, k));
    let i = key_index(p, k);
    assert(p[i].0 == k);
    assert(i == j);
}

/// After a property is set, reading it gives the value that was set, and
/// the other properties of the unit read as before.
pub proof fn lemma_property_after_set(u: SystemDUnitView, s: Section, k: Seq<char>, v: Seq<char>, other: Section, k2: Seq<char>)
    requires
        u.wf(),
    ensures
        u.with_property(s, k, v).property(s, k) == Some(v),
        (other != s || k2 != k) ==> u.with_property(s, k, v).property(other, k2) == u.property(other, k2),
{
    let p = match u.section(s) {
        Some(p) => p,
        None => Seq::empty(),
    };
    assert(keys_distinct(p));
    let q = props_insert(p, k, v);
    let j = if has_key(p, k) { key_index(p, k) } else { p.len() as int };
    assert(q[j] == (k, v));
    assert(keys_distinct(q)) by {
        if !has_key(p, k) {
            assert forall|a: int, b: int| 0 <= a < b < q.len() implies q[a].0 != q[b].0 by {
                if b == p.len() {
                    assert(p[a].0 != k);
                }
            }
        }
    }
    lemma_props_get_at(q, j);
    if other == s && k2 != k {
        if has_key(p, k2) {
            let i = key_index(p, k2);
            assert(q[i] == p[i]);
            lemma_props_get_at(q, i);
            lemma_props_get_at(p, i);
        } else {
            assert(!has_key(q, k2)) by {
                if has_key(q, k2) {
                    let i = key_index(q, k2);
                    if i < p.len() && i != j {
                        assert(p[i].0 == k2);
                    }
                }
            }
        }
    }
}

/// In a section whose keys are distinct, the index of a key is where it
/// stands.
proof fn lemma_key_index_at(p: PropsView, i: int)
    requires
        keys_distinct(p),
        0 <= i < p.len(),
    ensures
        has_key(p, p[i].0),
        key_index(p, p[i].0) == i,
{
    assert(has_key(p, p[i].0));
}

/// Setting a key keeps the keys distinct.
proof fn lemma_insert_keeps_distinct(p: PropsView, k: Seq<char>, v: Seq<char>)
    requires
        keys_distinct(p),
    ensures
        keys_distinct(props_insert(p, k, v)),
        forall|k2: Seq<char>| k2 != k ==> (has_key(props_insert(p, k, v), k2) <==> has_key(p, k2)),
{
    let q = props_insert(p, k, v);
    if has_key(p, k) {
        let i = key_index(p, k);
        assert forall|k2: Seq<char>| k2 != k implies (has_key(q, k2) <==> has_key(p, k2)) by {
            if has_key(p, k2) {
                let j = choose|j: int| 0 <= j < p.len() && p[j].0 == k2;
                assert(q[j].0 == k2);
            }
            if has_key(q, k2) {
                let j = choose|j: int| 0 <= j < q.len() && q[j].0 == k2;
                assert(p[j].0 == k2);
            }
        }
    } else {
        assert forall|a: int, b: int| 0 <= a < b < q.len() implies q[a].0 != q[b].0 by {
            if b == p.len() {
                assert(p[a].0 != k);
            }
        }
        assert forall|k2: Seq<char>| k2 != k implies (has_key(q, k2) <==> has_key(p, k2)) by {
            if has_key(p, k2) {
                let j = choose|j: int| 0 <= j < p.len() && p[j].0 == k2;
                assert(q[j].0 == k2);
            }
            if has_key(q, k2) {
                let j = choose|j: int| 0 <= j < q.len() && q[j].0 == k2;
                assert(j < p.len());
                assert(p[j].0 == k2);
            }
        }
    }
}

/// Setting two different keys in either order gives the same lines, up to
/// their order.
proof fn lemma_insert_commutes(p: PropsView, k1: Seq<char>, v1: Seq<char>, k2: Seq<char>, v2: Seq<char>)
    requires
        keys_distinct(p),
        k1 != k2,
    ensures
        property_lines(props_insert(props_insert(p, k1, v1), k2, v2)).to_multiset()
            == property_lines(props_insert(props_insert(p, k2, v2), k1, v1)).to_multiset(),
{
    broadcast use vstd::seq_lib::group_to_multiset_ensures;

    lemma_insert_keeps_distinct(p, k1, v1);
    lemma_insert_keeps_distinct(p, k2, v2);
    let a = props_insert(props_insert(p, k1, v1), k2, v2);
    let b = props_insert(props_insert(p, k2, v2), k1, v1);
    if has_key(p, k1) && has_key(p, k2) {
        let i1 = key_index(p, k1);
        let i2 = key_index(p, k2);
        let p1 = p.update(i1, (k1, v1));
        let p2 = p.update(i2, (k2, v2));
        assert(p1[i2] == p[i2]);
        lemma_key_index_at(p1, i2);
        assert(p2[i1] == p[i1]);
        lemma_key_index_at(p2, i1);
        assert(a =~= b);
    } else if has_key(p, k1) {
        let i1 = key_index(p, k1);
        let p1 = p.update(i1, (k1, v1));
        let p2 = p.push((k2, v2));
        assert(p2[i1] == p[i1]);
        lemma_key_index_at(p2, i1);
        assert(a =~= b);
    } else if has_key(p, k2) {
        let i2 = key_index(p, k2);
        let p1 = p.push((k1, v1));
        assert(p1[i2] == p[i2]);
        lemma_key_index_at(p1, i2);
        assert(a =~= b);
    } else {
        let la = k1 + "="@ + v1;
        let lb = k2 + "="@ + v2;
        let lp = property_lines(p);
        assert(property_lines(a) =~= lp.push(la).push(lb));
        assert(property_lines(b) =~= lp.push(lb).push(la));
        assert(lp.push(la).push(lb).to_multiset() =~= lp.push(lb).push(la).to_multiset());
    }
}

/// The content of a unit file does not depend on the order in which two
/// different properties of a section were set: the lines of each section
/// are sorted.
pub proof fn lemma_content_independent_of_order(
    u: SystemDUnitView,
    s: Section,
    k1: Seq<char>,
    v1: Seq<char>,
    k2: Seq<char>,
    v2: Seq<char>,
)
    requires
        u.wf(),
        k1 != k2,
    ensures
        unit_file_content(u.with_property(s, k1, v1).with_property(s, k2, v2)) == unit_file_content(
            u.with_property(s, k2, v2).with_property(s, k1, v1),
        ),
{
    let p = match u.section(s) {
        Some(p) => p,
        None => Seq::empty(),
    };
    assert(keys_distinct(p));
    lemma_insert_commutes(p, k1, v1, k2, v2);
    let a = props_insert(props_insert(p, k1, v1), k2, v2);
    let b = props_insert(props_insert(p, k2, v2), k1, v1);
    crate::text::lemma_string_order_total();
    property_lines(a).lemma_sort_by_ensures(string_order());
    property_lines(b).lemma_sort_by_ensures(string_order());
    lemma_sorted_unique(
        property_lines(a).sort_by(string_order()),
        property_lines(b).sort_by(string_order()),
        string_order(),
    );
    assert(section_text(s, a) == section_text(s, b));
    let ua = u.with_property(s, k1, v1).with_property(s, k2, v2);
    let ub = u.with_property(s, k2, v2).with_property(s, k1, v1);
    assert(ua.section(s) == Some(a));
    assert(ub.section(s) == Some(b));
    assert(section_texts(ua) =~= section_texts(ub));
}

/// The command line of a container keeps its whole command: the first
/// part is the binary, put below the package root unless it starts with
/// the `{{packageroot}}` placeholder; then every further element of the
/// command follows in order, and then every argument; nothing else.
pub proof fn lemma_command_keeps_every_element(
    command: Seq<Seq<char>>,
    args: Option<Seq<Seq<char>>>,
    package_root: Seq<char>,
)
    requires
        command.len() > 0,
    ensures
        ({
            let parts = command_parts(command, args, package_root);
            let a = match args {
                Some(a) => a,
                None => Seq::empty(),
            };
            &&& parts.len() == command.len() + a.len()
            &&& seq_starts_with(command[0], "{{packageroot}}"@) ==> parts[0] == command[0]
            &&& !seq_starts_with(command[0], "{{packageroot}}"@) ==> parts[0] == path_join(package_root, command[0])
            &&& forall|i: int| 1 <= i < command.len() ==> #[trigger] parts[i] == command[i]
            &&& forall|j: int| 0 <= j < a.len() ==> #[trigger] parts[command.len() + j] == a[j]
        }),
{
    let parts = command_parts(command, args, package_root);
    let a = match args {
        Some(a) => a,
        None => Seq::<Seq<char>>::empty(),
    };
    assert(parts =~= seq![binary_path(command[0], package_root)] + command.drop_first() + a);
    assert forall|i: int| 1 <= i < command.len() implies #[trigger] parts[i] == command[i] by {
        assert(parts[i] == command.drop_first()[i - 1]);
    }
    assert forall|j: int| 0 <= j < a.len() implies #[trigger] parts[command.len() + j] == a[j] by {
        assert(parts[command.len() + j] == a[j]);
    }
}

/// Where the command line of a container can be built, it is its parts,
/// each rendered as a template, one rendered text per part, joined by
/// single spaces.
pub proof fn lemma_command_line_joins_rendered_parts(
    container: Container,
    data: Map<Seq<char>, Seq<char>>,
    package_root: Seq<char>,
)
    ensures
        command_line(container, data, package_root) matches Ok(line) ==> (opt_views(container.command) matches Some(
            c,
        ) && c.len() > 0 && exists|r: Seq<Seq<char>>|
            #[trigger] rendered_all(data, command_parts(c, opt_views(container.args), package_root)) == Some(r)
                && r.len() == command_parts(c, opt_views(container.args), package_root).len() && line == join(
                r,
                " "@,
            )),
{
    if let Some(c) = opt_views(container.command) {
        if c.len() > 0 {
            lemma_rendered_all_len(data, command_parts(c, opt_views(container.args), package_root));
        }
    }
}

/// Setting a property keeps the keys of each section distinct, and reads
/// back as the other properties of the unit did before.
proof fn lemma_set_property(u: SystemDUnitView, s: Section, k: Seq<char>, v: Seq<char>)
    requires
        u.wf(),
    ensures
        u.with_property(s, k, v).wf(),
        u.with_property(s, k, v).property(s, k) == Some(v),
        forall|other: Section, k2: Seq<char>|
            (other != s || k2 != k) ==> #[trigger] u.with_property(s, k, v).property(other, k2) == u.property(other, k2),
        u.with_property(s, k, v).name == u.name,
{
    let p = match u.section(s) {
        Some(p) => p,
        None => Seq::empty(),
    };
    lemma_insert_keeps_distinct(p, k, v);
    assert forall|other: Section, k2: Seq<char>|
        (other != s || k2 != k) implies #[trigger] u.with_property(s, k, v).property(other, k2) == u.property(other, k2) by {
        lemma_property_after_set(u, s, k, v, other, k2);
    }
    lemma_property_after_set(u, s, k, v, s, k);
}

/// The settings that a pod gives all its units: the restart setting is
/// `always` for the policy `Always`, `on-failure` for `OnFailure` and `no`
/// for `Never` or no policy, and any other policy is refused; outside the
/// user session the units run as the user of the pod, where it names a
/// valid one, and a name that is not a valid user name is refused; in the
/// user session no user is set.
pub proof fn lemma_pod_unit_settings(pod: Pod, user_mode: bool)
    ensures
        ({
            let policy = opt_view(pod.restart_policy);
            let known = policy is None || policy == Some("Never"@) || policy == Some("Always"@) || policy == Some(
                "OnFailure"@,
            );
            let user_ok = pod.run_as_user_name matches Some(n) ==> is_systemd_user_name(n@);
            &&& unit_from_pod(pod, user_mode) is Ok <==> known && user_ok
            &&& unit_from_pod(pod, user_mode) matches Ok(u) ==> {
                &&& u.name == pod.name@
                &&& u.wf()
                &&& (policy is None || policy == Some("Never"@)) ==> u.property(Section::Service, "Restart"@) == Some(
                    "no"@,
                )
                &&& policy == Some("Always"@) ==> u.property(Section::Service, "Restart"@) == Some("always"@)
                &&& policy == Some("OnFailure"@) ==> u.property(Section::Service, "Restart"@) == Some("on-failure"@)
                &&& !user_mode ==> (pod.run_as_user_name matches Some(n) ==> u.property(Section::Service, "User"@)
                    == Some(n@))
                &&& (pod.run_as_user_name is None || user_mode) ==> u.property(Section::Service, "User"@) is None
            }
        }),
{
    reveal_strlit("Never");
    reveal_strlit("Always");
    reveal_strlit("OnFailure");
    reveal_strlit("Restart");
    reveal_strlit("User");
    assert("User"@.len() == 4 && "Restart"@.len() == 7);
    assert("Never"@.len() == 5 && "Always"@.len() == 6 && "OnFailure"@.len() == 9);
    let e = empty_unit(pod.name@, UnitTypes::Service);
    assert(e.wf());
    let policy = named_policy(pod);
    if let Some(setting) = restart_setting(policy) {
        lemma_set_property(e, Section::Service, "Restart"@, setting);
        let u = e.with_property(Section::Service, "Restart"@, setting);
        assert(u.property(Section::Service, "User"@) == e.property(Section::Service, "User"@));
        if let Some(n) = pod.run_as_user_name {
            lemma_set_property(u, Section::Service, "User"@, n@);
            let w = u.with_property(Section::Service, "User"@, n@);
            assert(w.property(Section::Service, "Restart"@) == u.property(Section::Service, "Restart"@));
        }
    }
}

/// The unit of a container, where it can be made: it runs the command line
/// of the container, writes its output and errors to the journal, is
/// wanted by the multi-user target, keeps the restart setting of the pod,
/// is named by the prefix and the container, and, outside the user
/// session, runs as the user of the container where it names one.
pub proof fn lemma_container_unit_settings(
    common: SystemDUnitView,
    name_prefix: Seq<char>,
    container: Container,
    data: Map<Seq<char>, Seq<char>>,
    package_root: Seq<char>,
    user_mode: bool,
)
    requires
        common.wf(),
    ensures
        unit_from_container(common, name_prefix, container, data, package_root, user_mode) matches Ok(u) ==> {
            &&& command_line(container, data, package_root) matches Ok(cmd) && u.property(Section::Service, "ExecStart"@)
                == Some(cmd)
            &&& u.property(Section::Service, "StandardOutput"@) == Some("journal"@)
            &&& u.property(Section::Service, "StandardError"@) == Some("journal"@)
            &&& u.property(Section::Install, "WantedBy"@) == Some("multi-user.target"@)
            &&& u.property(Section::Service, "Restart"@) == common.property(Section::Service, "Restart"@)
            &&& u.name == name_prefix + trimmed_name(container.name@, unit_extension(common.unit_type))
            &&& !user_mode ==> (container.run_as_user_name matches Some(n) ==> u.property(Section::Service, "User"@)
                == Some(n@))
        },
{
    reveal_strlit("ExecStart");
    reveal_strlit("StandardOutput");
    reveal_strlit("StandardError");
    reveal_strlit("WantedBy");
    reveal_strlit("Restart");
    reveal_strlit("User");
    reveal_strlit("Description");
    reveal_strlit("Environment");
    assert("ExecStart"@.len() == 9 && "Environment"@.len() == 11 && "StandardOutput"@.len() == 14);
    assert("StandardError"@.len() == 13 && "User"@.len() == 4 && "Restart"@.len() == 7);
    let name = name_prefix + trimmed_name(container.name@, unit_extension(common.unit_type));
    let u0 = common.with_name(name);
    assert(u0.wf());
    lemma_set_property(u0, Section::Unit, "Description"@, name);
    let u1 = u0.with_property(Section::Unit, "Description"@, name);
    if let Ok(cmd) = command_line(container, data, package_root) {
        lemma_set_property(u1, Section::Service, "ExecStart"@, cmd);
        let u2 = u1.with_property(Section::Service, "ExecStart"@, cmd);
        if let Some(env) = environment(container, data) {
            let u3 = if env.len() == 0 {
                u2
            } else {
                lemma_set_property(u2, Section::Service, "Environment"@, environment_value(env));
                u2.with_property(Section::Service, "Environment"@, environment_value(env))
            };
            assert(u3.wf());
            assert(u3.property(Section::Service, "ExecStart"@) == Some(cmd));
            assert(u3.property(Section::Service, "Restart"@) == common.property(Section::Service, "Restart"@));
            lemma_set_property(u3, Section::Service, "StandardOutput"@, "journal"@);
            let u3a = u3.with_property(Section::Service, "StandardOutput"@, "journal"@);
            lemma_set_property(u3a, Section::Service, "StandardError"@, "journal"@);
            let u4 = u3a.with_property(Section::Service, "StandardError"@, "journal"@);
            assert(u4.property(Section::Service, "ExecStart"@) == Some(cmd));
            assert(u4.property(Section::Service, "StandardOutput"@) == Some("journal"@));
            assert(u4.property(Section::Service, "Restart"@) == common.property(Section::Service, "Restart"@));
            let u5 = match container.run_as_user_name {
                Some(n) => if user_mode {
                    u4
                } else {
                    lemma_set_property(u4, Section::Service, "User"@, n@);
                    u4.with_property(Section::Service, "User"@, n@)
                },
                None => u4,
            };
            assert(u5.wf());
            assert(u5.property(Section::Service, "ExecStart"@) == Some(cmd));
            assert(u5.property(Section::Service, "StandardOutput"@) == Some("journal"@));
            assert(u5.property(Section::Service, "StandardError"@) == Some("journal"@));
            assert(u5.property(Section::Service, "Restart"@) == common.property(Section::Service, "Restart"@));
            lemma_set_property(u5, Section::Install, "WantedBy"@, "multi-user.target"@);
        }
    }
}

} // verus!
