//! Rendering of templates and the files of config maps.
use vstd::prelude::*;
use crate::fsext::{join_path, path_join};
use crate::provider::error::{is_template_failure, is_validation_error, StackableError};
use crate::provider::kubernetes::pod::{Pod, Volume, VolumeMount};
use crate::provider::states::pod::{make_status, NextState, Phase, PodState, StatusPatch};
use crate::text::{chars_of, concat2, concat3, copy_str, opt_view, str_eq, views};

verus! {

/// The values that `{{name}}` placeholders of a template stand for.
#[derive(Debug)]
pub struct TemplateData {
    entries: Vec<(String, String)>,
}

/// The map that a list of entries makes, later entries replacing earlier
/// ones with the same name.
pub open spec fn entries_map(e: Seq<(Seq<char>, Seq<char>)>) -> Map<Seq<char>, Seq<char>>
    decreases e.len(),
{
    if e.len() == 0 {
        Map::empty()
    } else {
        entries_map(e.drop_last()).insert(e.last().0, e.last().1)
    }
}

/// The views of a list of pairs of strings.
pub open spec fn pair_views(e: Seq<(String, String)>) -> Seq<(Seq<char>, Seq<char>)> {
    e.map_values(|p: (String, String)| (p.0@, p.1@))
}

/// A copy of a list of pairs of strings.
pub fn copy_pairs(p: &Vec<(String, String)>) -> (r: Vec<(String, String)>)
    ensures
        pair_views(r@) == pair_views(p@),
{
    let mut r: Vec<(String, String)> = Vec::new();
    let mut i: usize = 0;
    while i < p.len()
        invariant
            i <= p@.len(),
            pair_views(r@) == pair_views(p@.subrange(0, i as int)),
        decreases p@.len() - i,
    {
        let k = p[i].0.clone();
        let v = p[i].1.clone();
        let ghost old_r = r@;
        r.push((k, v));
        assert(pair_views(r@) =~= pair_views(old_r).push((p@[i as int].0@, p@[i as int].1@)));
        assert(pair_views(p@.subrange(0, i + 1)) =~= pair_views(p@.subrange(0, i as int)).push(
            (p@[i as int].0@, p@[i as int].1@),
        ));
        i = i + 1;
    }
    assert(p@.subrange(0, i as int) =~= p@);
    r
}

impl View for TemplateData {
    type V = Map<Seq<char>, Seq<char>>;

    closed spec fn view(&self) -> Map<Seq<char>, Seq<char>> {
        entries_map(pair_views(self.entries@))
    }
}

impl TemplateData {
    /// No values.
    pub fn new() -> (r: TemplateData)
        ensures
            r@ == Map::<Seq<char>, Seq<char>>::empty(),
    {
        let r = TemplateData { entries: Vec::new() };
        assert(pair_views(r.entries@) =~= Seq::empty());
        r
    }

    /// Sets the value of `name`, replacing an earlier one.
    pub fn insert(&mut self, name: String, value: String)
        ensures
            final(self)@ == old(self)@.insert(name@, value@),
    {
        let ghost n = name@;
        let ghost v = value@;
        self.entries.push((name, value));
        assert(pair_views(self.entries@).drop_last() =~= pair_views(old(self).entries@));
        assert(pair_views(self.entries@).last() == (n, v));
    }

    /// The entries, later ones replacing earlier ones with the same name.
    pub fn entries(&self) -> (r: &Vec<(String, String)>)
        ensures
            entries_map(pair_views(r@)) == self@,
    {
        &self.entries
    }
}

/// Whether the handlebars template engine compiles `template`.
pub uninterp spec fn handlebars_compiles(template: Seq<char>) -> bool;

/// The result of rendering the compiled `template` in strict mode with the
/// handlebars template engine and the values in `data`: `None` where it
/// names a value that `data` lacks.
pub uninterp spec fn handlebars_render(data: Map<Seq<char>, Seq<char>>, template: Seq<char>) -> Option<
    Seq<char>,
>;

/// A template character that the template grammar skips between the
/// tokens of an expression.
pub open spec fn is_template_space(c: char) -> bool {
    c == ' ' || c == '\t' || c == '\n' || c == '\r'
}

/// The first position at or after `j` that holds no template space.
pub open spec fn skip_spaces(t: Seq<char>, j: int) -> int
    decreases t.len() - j,
{
    if 0 <= j < t.len() && is_template_space(t[j]) {
        skip_spaces(t, j + 1)
    } else {
        j
    }
}

/// The character at `j`, where there is one.
pub open spec fn char_at(t: Seq<char>, j: int) -> Option<char> {
    if 0 <= j < t.len() {
        Some(t[j])
    } else {
        None
    }
}

/// An expression opens at `i` that defines a template without a name: a
/// decorator (`{{*`), a decorator block such as an inline partial (`{{#*`)
/// or a partial block (`{{#>`), with an optional `~` and spaces between
/// the tokens.
pub open spec fn opens_partial_definition(t: Seq<char>, i: int) -> bool {
    &&& 0 <= i
    &&& i + 1 < t.len()
    &&& t[i] == '{'
    &&& t[i + 1] == '{'
    &&& {
        let a = skip_spaces(t, i + 2);
        let b = if char_at(t, a) == Some('~') {
            skip_spaces(t, a + 1)
        } else {
            a
        };
        let c = skip_spaces(t, b + 1);
        char_at(t, b) == Some('*') || (char_at(t, b) == Some('#') && (char_at(t, c) == Some('*')
            || char_at(t, c) == Some('>')))
    }
}

/// The template defines inline partials, decorators or partial blocks.
/// Such templates are refused: a partial that includes itself would be
/// expanded without end.
pub open spec fn defines_partials(t: Seq<char>) -> bool {
    exists|i: int| #[trigger] opens_partial_definition(t, i)
}

/// The result of rendering a template as this library does it: refused
/// where it defines partials, nothing where it does not compile, otherwise
/// what the template engine gives.
pub open spec fn template_render(data: Map<Seq<char>, Seq<char>>, template: Seq<char>) -> Option<Seq<char>> {
    if defines_partials(template) || !handlebars_compiles(template) {
        None
    } else {
        handlebars_render(data, template)
    }
}

/// The message of the error for a template that defines partials.
pub open spec fn partials_refused_message() -> Seq<char> {
    "Templates that define partials are not supported"@
}

/// The first position at or after `j` that holds no template space.
fn skip_template_spaces(t: &Vec<char>, j: usize) -> (r: usize)
    requires
        j <= t@.len(),
    ensures
        r as int == skip_spaces(t@, j as int),
        j <= r <= t@.len(),
{
    let mut k = j;
    while k < t.len() && (t[k] == ' ' || t[k] == '\t' || t[k] == '\n' || t[k] == '\r')
        invariant
            j <= k <= t@.len(),
            skip_spaces(t@, k as int) == skip_spaces(t@, j as int),
        decreases t@.len() - k,
    {
        k = k + 1;
    }
    k
}

/// Whether `c` stands at `j`.
fn char_is(t: &Vec<char>, j: usize, c: char) -> (r: bool)
    ensures
        r == (char_at(t@, j as int) == Some(c)),
{
    j < t.len() && t[j] == c
}

/// Whether an expression that defines a partial opens at `i`.
fn opens_partial_definition_at(t: &Vec<char>, i: usize) -> (r: bool)
    requires
        i < t@.len(),
    ensures
        r == opens_partial_definition(t@, i as int),
{
    if !(t.len() - i > 1 && t[i] == '{' && t[i + 1] == '{') {
        return false;
    }
    let a = skip_template_spaces(t, i + 2);
    let b = if char_is(t, a, '~') {
        if a < t.len() {
            skip_template_spaces(t, a + 1)
        } else {
            a
        }
    } else {
        a
    };
    if char_is(t, b, '*') {
        return true;
    }
    if !char_is(t, b, '#') {
        return false;
    }
    let c = skip_template_spaces(t, b + 1);
    char_is(t, c, '*') || char_is(t, c, '>')
}

/// Whether the template defines inline partials, decorators or partial
/// blocks.
pub fn template_defines_partials(template: &str) -> (r: bool)
    ensures
        r == defines_partials(template@),
{
    let t = chars_of(template);
    let mut i: usize = 0;
    while i < t.len()
        invariant
            t@ == template@,
            i <= t@.len(),
            forall|k: int| 0 <= k < i ==> !opens_partial_definition(t@, k),
        decreases t@.len() - i,
    {
        if opens_partial_definition_at(&t, i) {
            return true;
        }
        i = i + 1;
    }
    assert forall|k: int| !opens_partial_definition(t@, k) by {
        if 0 <= k < i {
        }
    }
    false
}

/// The templates rendered one by one, or `None` if one of them fails.
pub open spec fn rendered_all(data: Map<Seq<char>, Seq<char>>, templates: Seq<Seq<char>>) -> Option<
    Seq<Seq<char>>,
>
    decreases templates.len(),
{
    if templates.len() == 0 {
        Some(Seq::empty())
    } else {
        match rendered_all(data, templates.drop_last()) {
            None => None,
            Some(prev) => match template_render(data, templates.last()) {
                None => None,
                Some(x) => Some(prev.push(x)),
            },
        }
    }
}

/// The value of a template: `packageroot`, `configroot` and `logroot`
/// stand for the directories of the service.
pub open spec fn render_data(pod_state: PodState) -> Map<Seq<char>, Seq<char>> {
    Map::empty().insert("packageroot"@, pod_state.service_package_directory()).insert(
        "configroot"@,
        pod_state.service_config_directory(),
    ).insert("logroot"@, pod_state.service_log_directory())
}

/// Renders `template` in strict mode with the `handlebars` crate, as
/// `Handlebars::register_template_string` and `Handlebars::render` on a
/// new registry with strict mode set do it: the template is compiled
/// first, a template that does not compile is a template error; then
/// placeholders are replaced by the values in `data` and a placeholder
/// without a value is a render error.
///
/// The engine checks a partial that includes itself by name only, and
/// templates defined inside a template carry no name, so such a template
/// would be expanded without end; the call is made only on templates that
/// define no partials. The contract names whether the template compiles
/// with `handlebars_compiles` and the rendered text with
/// `handlebars_render`; which message an error carries is left unsaid.
#[verifier::external_body]
fn render_strict(data: &TemplateData, template: &str) -> (r: Result<String, StackableError>)
    requires
        !defines_partials(template@),
    ensures
        (r matches Err(e) && e is TemplateError) <==> !handlebars_compiles(template@),
        handlebars_compiles(template@) ==> (r is Ok <==> handlebars_render(data@, template@) is Some),
        r matches Ok(s) ==> Some(s@) == handlebars_render(data@, template@),
        r matches Err(e) ==> is_template_failure(e),
{
    let mut handlebars = handlebars::Handlebars::new();
    if let Err(e) = handlebars.register_template_string("t1", template) {
        return Err(StackableError::TemplateError { msg: e.to_string() });
    }
    handlebars.set_strict_mode(true);
    let map: std::collections::BTreeMap<&String, &String> = data.entries.iter().map(|e| (&e.0, &e.1)).collect();
    match handlebars.render("t1", &map) {
        Ok(s) => Ok(s),
        Err(e) => Err(StackableError::TemplateRenderError { msg: e.to_string() }),
    }
}

/// Creating the configuration of a service.
#[derive(Debug)]
pub struct CreatingConfig {
    pub target_directory: Option<String>,
}

impl CreatingConfig {
    /// Renders `template` in strict mode: a template that does not compile
    /// is a template error; placeholders are replaced by the values in
    /// `data` and a placeholder without a value is a render error, as is a
    /// template that defines partials.
    pub fn render_config_template(data: &TemplateData, template: &str) -> (r: Result<
        String,
        StackableError,
    >)
        ensures
            r is Ok <==> template_render(data@, template@) is Some,
            r matches Ok(s) ==> Some(s@) == template_render(data@, template@),
            r matches Err(e) ==> is_template_failure(e),
            !defines_partials(template@) ==> ((r matches Err(e) && e is TemplateError) <==> !handlebars_compiles(
                template@,
            )),
            defines_partials(template@) ==> (r matches Err(StackableError::TemplateRenderError { msg })
                && msg@ == partials_refused_message()),
    {
        if template_defines_partials(template) {
            return Err(StackableError::TemplateRenderError {
                msg: copy_str("Templates that define partials are not supported"),
            });
        }
        render_strict(data, template)
    }

    /// Renders each template with the same values; the first failure is
    /// returned.
    pub fn render_all(data: &TemplateData, templates: &Vec<String>) -> (r: Result<
        Vec<String>,
        StackableError,
    >)
        ensures
            r is Ok <==> rendered_all(data@, views(templates@)) is Some,
            r matches Ok(v) ==> Some(views(v@)) == rendered_all(data@, views(templates@)),
            r matches Err(e) ==> is_template_failure(e),
    {
        let mut out: Vec<String> = Vec::new();
        let mut i: usize = 0;
        while i < templates.len()
            invariant
                i <= templates@.len(),
                Some(views(out@)) == rendered_all(data@, views(templates@.subrange(0, i as int))),
            decreases templates@.len() - i,
        {
            assert(views(templates@.subrange(0, i + 1)).drop_last() =~= views(
                templates@.subrange(0, i as int),
            ));
            match CreatingConfig::render_config_template(data, templates[i].as_str()) {
                Ok(s) => {
                    out.push(s);
                    assert(views(out@) =~= views(out@).drop_last().push(views(out@).last()));
                },
                Err(e) => {
                    proof {
                        assert(views(templates@.subrange(0, i + 1)).last() == templates@[i as int]@);
                        assert(views(templates@).subrange(0, i + 1) =~= views(
                            templates@.subrange(0, i + 1),
                        ));
                        lemma_rendered_all_prefix_fails(
                            data@,
                            views(templates@),
                            i as int + 1,
                        );
                    }
                    return Err(e);
                },
            }
            i = i + 1;
        }
        assert(templates@.subrange(0, i as int) =~= templates@);
        Ok(out)
    }

    /// The values of the directories of the service: `packageroot` is the
    /// package directory, `configroot` the config directory and `logroot`
    /// the log directory.
    pub fn create_render_data(pod_state: &PodState) -> (r: TemplateData)
        ensures
            r@ == render_data(*pod_state),
    {
        let mut data = TemplateData::new();
        data.insert(String::from_str("packageroot"), pod_state.get_service_package_directory());
        data.insert(String::from_str("configroot"), pod_state.get_service_config_directory());
        data.insert(String::from_str("logroot"), pod_state.get_service_log_directory());
        data
    }
}

/// A failure in rendering a prefix makes the rendering of the whole list
/// fail.
proof fn lemma_rendered_all_prefix_fails(
    data: Map<Seq<char>, Seq<char>>,
    templates: Seq<Seq<char>>,
    n: int,
)
    requires
        0 <= n <= templates.len(),
        rendered_all(data, templates.subrange(0, n)) is None,
    ensures
        rendered_all(data, templates) is None,
    decreases templates.len() - n,
{
    if n < templates.len() {
        assert(templates.subrange(0, n + 1).drop_last() =~= templates.subrange(0, n));
        lemma_rendered_all_prefix_fails(data, templates, n + 1);
    } else {
        assert(templates.subrange(0, n) =~= templates);
    }
}

/// A config map as the agent reads it: its name and its entries, in the
/// order of their keys.
#[derive(Debug)]
pub struct ConfigMap {
    pub name: Option<String>,
    pub data: Option<Vec<(String, String)>>,
}

/// The result of fetching one config map from the API server.
#[derive(Debug)]
pub enum ConfigMapFetch {
    Found(ConfigMap),
    NotFound,
    /// The API server could not be asked.
    Failed { msg: String },
}

/// The config maps fetched so far and the names of those that are missing.
#[derive(Debug)]
pub struct ConfigMapCollection {
    pub found: Vec<ConfigMap>,
    pub missing: Vec<String>,
}

/// What creating the config does with a pod before it fetches config maps.
#[derive(Debug)]
pub enum ConfigPlan {
    /// The pod cannot be run.
    Fail { error: StackableError },
    /// Nothing is to be written: the service is created next.
    Skip,
    /// The config maps `referenced` are fetched, then each config map of
    /// `targets` is written to its directory, given first.
    Write { targets: Vec<(String, String)>, referenced: Vec<String> },
}

/// The names of the config maps that the volumes refer to, in order.
pub open spec fn referenced_config_maps(volumes: Seq<Volume>) -> Seq<Seq<char>>
    decreases volumes.len(),
{
    if volumes.len() == 0 {
        Seq::empty()
    } else {
        let rest = referenced_config_maps(volumes.drop_last());
        match volumes.last().config_map {
            Some(c) => match c.name {
                Some(n) => rest.push(n@),
                None => rest,
            },
            None => rest,
        }
    }
}

/// The config map volumes that a mount refers to, each as the mount path
/// and the name of the config map.
pub open spec fn mount_targets(m: VolumeMount, volumes: Seq<Volume>) -> Seq<(Seq<char>, Seq<char>)>
    decreases volumes.len(),
{
    if volumes.len() == 0 {
        Seq::empty()
    } else {
        let rest = mount_targets(m, volumes.drop_last());
        let v = volumes.last();
        if v.name@ == m.name@ && v.config_map is Some {
            rest.push((m.mount_path@, opt_view(v.config_map.unwrap().name).unwrap()))
        } else {
            rest
        }
    }
}

/// The config map volumes of all mounts, in order.
pub open spec fn mount_pairs(mounts: Seq<VolumeMount>, volumes: Seq<Volume>) -> Seq<(Seq<char>, Seq<char>)>
    decreases mounts.len(),
{
    if mounts.len() == 0 {
        Seq::empty()
    } else {
        mount_pairs(mounts.drop_last(), volumes) + mount_targets(mounts.last(), volumes)
    }
}

/// Every config map volume that a mount refers to names its config map.
pub open spec fn mounted_maps_named(mounts: Seq<VolumeMount>, volumes: Seq<Volume>) -> bool {
    forall|i: int, j: int|
        0 <= i < mounts.len() && 0 <= j < volumes.len() && #[trigger] volumes[j].name@ == #[trigger] mounts[i].name@
            && volumes[j].config_map is Some ==> volumes[j].config_map.unwrap().name is Some
}

/// The pairs without those with key `k`, in order.
pub open spec fn without_key(s: Seq<(Seq<char>, Seq<char>)>, k: Seq<char>) -> Seq<(Seq<char>, Seq<char>)>
    decreases s.len(),
{
    if s.len() == 0 {
        Seq::empty()
    } else if s.last().0 == k {
        without_key(s.drop_last(), k)
    } else {
        without_key(s.drop_last(), k).push(s.last())
    }
}

/// The pairs with only the last one for each key, each where it was put
/// last: a later pair replaces an earlier one with the same key.
pub open spec fn keep_last(s: Seq<(Seq<char>, Seq<char>)>) -> Seq<(Seq<char>, Seq<char>)>
    decreases s.len(),
{
    if s.len() == 0 {
        Seq::empty()
    } else {
        without_key(keep_last(s.drop_last()), s.last().0).push(s.last())
    }
}

/// No key occurs twice.
pub open spec fn keys_unique(s: Seq<(Seq<char>, Seq<char>)>) -> bool {
    forall|i: int, j: int| 0 <= i < j < s.len() ==> #[trigger] s[i].0 != #[trigger] s[j].0
}

/// The key occurs in the pairs.
pub open spec fn has_key(s: Seq<(Seq<char>, Seq<char>)>, k: Seq<char>) -> bool {
    exists|j: int| 0 <= j < s.len() && #[trigger] s[j].0 == k
}

/// Leaving out the pairs with key `k` removes `k` from their map.
proof fn lemma_without_key_map(t: Seq<(Seq<char>, Seq<char>)>, k: Seq<char>)
    ensures
        entries_map(without_key(t, k)) == entries_map(t).remove(k),
    decreases t.len(),
{
    if t.len() == 0 {
        assert(entries_map(without_key(t, k)) =~= entries_map(t).remove(k));
    } else {
        let x = t.last();
        lemma_without_key_map(t.drop_last(), k);
        if x.0 == k {
            assert(entries_map(without_key(t, k)) =~= entries_map(t).remove(k));
        } else {
            let w = without_key(t.drop_last(), k);
            assert(w.push(x).drop_last() =~= w);
            assert(entries_map(without_key(t, k)) =~= entries_map(t).remove(k));
        }
    }
}

/// Leaving out the pairs with key `k` keeps the keys unique, leaves no
/// `k`, and keeps only keys that were there.
proof fn lemma_without_key_unique(t: Seq<(Seq<char>, Seq<char>)>, k: Seq<char>)
    requires
        keys_unique(t),
    ensures
        keys_unique(without_key(t, k)),
        forall|i: int| 0 <= i < without_key(t, k).len() ==> (#[trigger] without_key(t, k)[i]).0 != k,
        forall|i: int| 0 <= i < without_key(t, k).len() ==> has_key(t, (#[trigger] without_key(t, k)[i]).0),
    decreases t.len(),
{
    if t.len() > 0 {
        let d = t.drop_last();
        let x = t.last();
        assert(keys_unique(d)) by {
            assert forall|i: int, j: int| 0 <= i < j < d.len() implies #[trigger] d[i].0 != #[trigger] d[j].0 by {
                assert(d[i] == t[i] && d[j] == t[j]);
            }
        }
        lemma_without_key_unique(d, k);
        let w = without_key(d, k);
        assert forall|i: int| 0 <= i < w.len() implies has_key(t, (#[trigger] w[i]).0) by {
            let j = choose|j: int| 0 <= j < d.len() && #[trigger] d[j].0 == w[i].0;
            assert(t[j] == d[j]);
        }
        if x.0 != k {
            let w2 = w.push(x);
            assert forall|i: int| 0 <= i < w.len() implies (#[trigger] w[i]).0 != x.0 by {
                let j = choose|j: int| 0 <= j < d.len() && #[trigger] d[j].0 == w[i].0;
                assert(t[j] == d[j]);
                assert(t[j].0 != t[t.len() - 1].0);
            }
            assert forall|i: int, j: int| 0 <= i < j < w2.len() implies #[trigger] w2[i].0 != #[trigger] w2[j].0 by {
                if j < w.len() {
                    assert(w2[i] == w[i] && w2[j] == w[j]);
                } else {
                    assert(w2[i] == w[i]);
                }
            }
            assert forall|i: int| 0 <= i < w2.len() implies has_key(t, (#[trigger] w2[i]).0) by {
                if i < w.len() {
                    assert(w2[i] == w[i]);
                } else {
                    assert(t[t.len() - 1].0 == w2[i].0);
                }
            }
        }
    }
}

/// Keeping only the last pair for each key gives the map in which a later
/// pair replaces an earlier one, and no key occurs twice.
pub proof fn lemma_keep_last_later_wins(s: Seq<(Seq<char>, Seq<char>)>)
    ensures
        entries_map(keep_last(s)) == entries_map(s),
        keys_unique(keep_last(s)),
    decreases s.len(),
{
    if s.len() > 0 {
        let x = s.last();
        lemma_keep_last_later_wins(s.drop_last());
        let k = keep_last(s.drop_last());
        lemma_without_key_map(k, x.0);
        lemma_without_key_unique(k, x.0);
        let w = without_key(k, x.0);
        assert(w.push(x).drop_last() =~= w);
        assert(entries_map(keep_last(s)) =~= entries_map(s));
        let r = w.push(x);
        assert forall|i: int, j: int| 0 <= i < j < r.len() implies #[trigger] r[i].0 != #[trigger] r[j].0 by {
            if j < w.len() {
                assert(r[i] == w[i] && r[j] == w[j]);
            } else {
                assert(r[i] == w[i]);
            }
        }
    }
}

/// Puts the pair `(k, v)` last, removing an earlier pair with key `k`.
pub fn put_last(r: &mut Vec<(String, String)>, k: String, v: String)
    ensures
        pair_views(final(r)@) == without_key(pair_views(old(r)@), k@).push((k@, v@)),
{
    let ghost orig = pair_views(r@);
    let mut kept: Vec<(String, String)> = Vec::new();
    let mut i: usize = 0;
    while i < r.len()
        invariant
            i <= r@.len(),
            orig == pair_views(r@),
            pair_views(kept@) == without_key(orig.subrange(0, i as int), k@),
        decreases r@.len() - i,
    {
        assert(orig.subrange(0, i + 1).drop_last() =~= orig.subrange(0, i as int));
        assert(orig.subrange(0, i + 1).last() == (r@[i as int].0@, r@[i as int].1@));
        if !str_eq(r[i].0.as_str(), k.as_str()) {
            let ghost prev = kept@;
            kept.push((r[i].0.clone(), r[i].1.clone()));
            assert(pair_views(kept@) =~= pair_views(prev).push((r@[i as int].0@, r@[i as int].1@)));
        }
        i = i + 1;
    }
    assert(orig.subrange(0, i as int) =~= orig);
    let ghost prev = kept@;
    let ghost kv = (k@, v@);
    kept.push((k, v));
    assert(pair_views(kept@) =~= pair_views(prev).push(kv));
    *r = kept;
}

/// The directories that the config maps are written to: each mount path
/// below the config directory of the service.
pub open spec fn target_directories(config_dir: Seq<char>, pairs: Seq<(Seq<char>, Seq<char>)>) -> Seq<(Seq<char>, Seq<char>)> {
    pairs.map_values(|p: (Seq<char>, Seq<char>)| (path_join(config_dir, p.0), p.1))
}

/// The templates rendered one by one up to the first that fails.
pub open spec fn render_prefix(data: Map<Seq<char>, Seq<char>>, templates: Seq<Seq<char>>) -> Seq<Seq<char>>
    decreases templates.len(),
{
    if templates.len() == 0 {
        Seq::empty()
    } else {
        let p = render_prefix(data, templates.drop_last());
        if p.len() < templates.len() - 1 {
            p
        } else {
            match template_render(data, templates.last()) {
                Some(x) => p.push(x),
                None => p,
            }
        }
    }
}

/// The files of a config map: for each rendered entry the file named by
/// its key in `dir`, with the rendered content.
pub open spec fn config_files(dir: Seq<char>, keys: Seq<Seq<char>>, rendered: Seq<Seq<char>>) -> Seq<(Seq<char>, Seq<char>)> {
    Seq::new(rendered.len(), |j: int| (path_join(dir, keys[j]), rendered[j]))
}

/// The last config map named `name`.
pub open spec fn last_named(maps: Seq<ConfigMap>, name: Seq<char>) -> Option<int>
    decreases maps.len(),
{
    if maps.len() == 0 {
        None
    } else if opt_view(maps.last().name) == Some(name) {
        Some(maps.len() - 1)
    } else {
        last_named(maps.drop_last(), name)
    }
}

/// The config maps to write: for each target directory the last fetched
/// config map with the target's name, where one was fetched.
pub open spec fn write_targets(targets: Seq<(Seq<char>, Seq<char>)>, maps: Seq<ConfigMap>) -> Seq<(Seq<char>, int)>
    decreases targets.len(),
{
    if targets.len() == 0 {
        Seq::empty()
    } else {
        let rest = write_targets(targets.drop_last(), maps);
        match last_named(maps, targets.last().1) {
            Some(i) => rest.push((targets.last().0, i)),
            None => rest,
        }
    }
}

/// The files that applying a config map to `dir` gives: none for a map
/// without name or data, otherwise one per entry up to the first entry
/// that fails to render.
pub open spec fn applied_files(map: ConfigMap, dir: Seq<char>, data: Map<Seq<char>, Seq<char>>) -> Seq<(Seq<char>, Seq<char>)> {
    match (map.name, map.data) {
        (Some(_), Some(d)) => {
            let e = pair_views(d@);
            config_files(
                dir,
                e.map_values(|p: (Seq<char>, Seq<char>)| p.0),
                render_prefix(data, e.map_values(|p: (Seq<char>, Seq<char>)| p.1)),
            )
        },
        _ => Seq::empty(),
    }
}

/// Applying a config map fails: it has no name, or one of its entries
/// fails to render.
pub open spec fn applying_fails(map: ConfigMap, data: Map<Seq<char>, Seq<char>>) -> bool {
    match (map.name, map.data) {
        (None, _) => true,
        (Some(_), None) => false,
        (Some(_), Some(d)) => rendered_all(data, pair_views(d@).map_values(|p: (Seq<char>, Seq<char>)| p.1)) is None,
    }
}

/// The files of the config maps applied in order, up to and including the
/// first map whose application fails, and the position of that map.
pub open spec fn all_applied(
    data: Map<Seq<char>, Seq<char>>,
    maps: Seq<ConfigMap>,
    writes: Seq<(Seq<char>, int)>,
) -> (Seq<(Seq<char>, Seq<char>)>, Option<int>)
    decreases writes.len(),
{
    if writes.len() == 0 {
        (Seq::empty(), None)
    } else {
        let (files, failed) = all_applied(data, maps, writes.drop_last());
        if failed is Some {
            (files, failed)
        } else {
            let w = writes.last();
            let m = maps[w.1];
            (
                files + applied_files(m, w.0, data),
                if applying_fails(m, data) {
                    Some(writes.len() - 1)
                } else {
                    None
                },
            )
        }
    }
}

/// A fetched config map counts as found where it was given and has a
/// name.
pub open spec fn is_found(m: Option<ConfigMap>) -> bool {
    m matches Some(c) && c.name is Some
}

/// The config maps that were found, in order.
pub open spec fn found_maps(maps: Seq<Option<ConfigMap>>) -> Seq<ConfigMap>
    decreases maps.len(),
{
    if maps.len() == 0 {
        Seq::empty()
    } else if is_found(maps.last()) {
        found_maps(maps.drop_last()).push(maps.last().unwrap())
    } else {
        found_maps(maps.drop_last())
    }
}

/// The names of the config maps that were not found, in order.
pub open spec fn missing_maps(names: Seq<Seq<char>>, maps: Seq<Option<ConfigMap>>) -> Seq<Seq<char>>
    decreases maps.len(),
{
    if maps.len() == 0 || names.len() == 0 {
        Seq::empty()
    } else if is_found(maps.last()) {
        missing_maps(names.drop_last(), maps.drop_last())
    } else {
        missing_maps(names.drop_last(), maps.drop_last()).push(names.last())
    }
}

/// Every config map that was found has a name.
pub proof fn lemma_found_maps_named(maps: Seq<Option<ConfigMap>>)
    ensures
        forall|i: int| 0 <= i < found_maps(maps).len() ==> (#[trigger] found_maps(maps)[i]).name is Some,
    decreases maps.len(),
{
    if maps.len() > 0 {
        lemma_found_maps_named(maps.drop_last());
        let rest = found_maps(maps.drop_last());
        let f = found_maps(maps);
        assert forall|i: int| 0 <= i < f.len() implies (#[trigger] f[i]).name is Some by {
            if i < rest.len() {
                assert(f[i] == rest[i]);
            }
        }
    }
}

/// The message of a failed setup where a config map could not be applied
/// to its directory.
pub open spec fn write_failure_message(dir: Seq<char>, name: Seq<char>) -> Seq<char> {
    "Failed to create config file ["@ + dir + "] from config map ["@ + name + "]"@
}

/// Every config map that a write refers to was fetched.
pub proof fn lemma_write_targets_in_range(targets: Seq<(Seq<char>, Seq<char>)>, maps: Seq<ConfigMap>)
    ensures
        forall|k: int| 0 <= k < write_targets(targets, maps).len() ==> 0 <= #[trigger] write_targets(targets, maps)[k].1 < maps.len(),
    decreases targets.len(),
{
    if targets.len() > 0 {
        lemma_write_targets_in_range(targets.drop_last(), maps);
        lemma_last_named_in_range(maps, targets.last().1);
        let rest = write_targets(targets.drop_last(), maps);
        let w = write_targets(targets, maps);
        assert forall|k: int| 0 <= k < w.len() implies 0 <= #[trigger] w[k].1 < maps.len() by {
            if k < rest.len() {
                assert(w[k] == rest[k]);
            }
        }
    }
}

/// The config map whose application failed is one of the writes.
pub proof fn lemma_failed_write_in_range(
    data: Map<Seq<char>, Seq<char>>,
    maps: Seq<ConfigMap>,
    writes: Seq<(Seq<char>, int)>,
)
    ensures
        all_applied(data, maps, writes).1 matches Some(k) ==> 0 <= k < writes.len(),
    decreases writes.len(),
{
    if writes.len() > 0 {
        lemma_failed_write_in_range(data, maps, writes.drop_last());
    }
}

/// The last config map with a name is one of the maps.
proof fn lemma_last_named_in_range(maps: Seq<ConfigMap>, name: Seq<char>)
    ensures
        last_named(maps, name) matches Some(i) ==> 0 <= i < maps.len(),
    decreases maps.len(),
{
    if maps.len() > 0 {
        lemma_last_named_in_range(maps.drop_last(), name);
    }
}

impl ConfigMapCollection {
    /// Nothing fetched yet.
    pub fn new() -> (r: ConfigMapCollection)
        ensures
            r.found@.len() == 0,
            r.missing@.len() == 0,
    {
        ConfigMapCollection { found: Vec::new(), missing: Vec::new() }
    }

    /// Records what fetching the config map `name` gave: a map that was not
    /// found or that has no name is missing; a failure to ask the API
    /// server is returned and ends the fetching.
    pub fn record(&mut self, name: String, fetch: ConfigMapFetch) -> (r: Option<StackableError>)
        ensures
            match fetch {
                ConfigMapFetch::Found(m) => r is None && if m.name is Some {
                    final(self).found@ == old(self).found@.push(m) && final(self).missing@ == old(self).missing@
                } else {
                    final(self).found@ == old(self).found@ && final(self).missing@ == old(self).missing@.push(name)
                },
                ConfigMapFetch::NotFound => r is None && final(self).found@ == old(self).found@
                    && final(self).missing@ == old(self).missing@.push(name),
                ConfigMapFetch::Failed { msg } => (r matches Some(StackableError::RuntimeError { msg: m }) && m@ == msg@)
                    && final(self).found@ == old(self).found@ && final(self).missing@ == old(self).missing@,
            },
    {
        match fetch {
            ConfigMapFetch::Found(m) => {
                if m.name.is_some() {
                    self.found.push(m);
                } else {
                    self.missing.push(name);
                }
                None
            },
            ConfigMapFetch::NotFound => {
                self.missing.push(name);
                None
            },
            ConfigMapFetch::Failed { msg } => Some(StackableError::RuntimeError { msg }),
        }
    }

    /// The config maps found where none is missing, else the error that
    /// names the missing ones.
    pub fn finish(self) -> (r: Result<Vec<ConfigMap>, StackableError>)
        ensures
            self.missing@.len() == 0 ==> (r matches Ok(v) && v@ == self.found@),
            self.missing@.len() > 0 ==> (r matches Err(StackableError::MissingConfigMapsError { missing_config_maps })
                && missing_config_maps@ == self.missing@),
    {
        if self.missing.len() == 0 {
            Ok(self.found)
        } else {
            Err(StackableError::MissingConfigMapsError { missing_config_maps: self.missing })
        }
    }
}

impl CreatingConfig {
    /// The names of the config maps that the volumes of the pod refer to.
    pub fn get_config_maps(pod: &Pod) -> (r: Vec<String>)
        ensures
            views(r@) == match pod.volumes {
                Some(v) => referenced_config_maps(v@),
                None => Seq::empty(),
            },
    {
        let mut r: Vec<String> = Vec::new();
        match &pod.volumes {
            None => {
                assert(views(r@) =~= Seq::empty());
            },
            Some(volumes) => {
                let mut i: usize = 0;
                assert(views(r@) =~= referenced_config_maps(volumes@.subrange(0, 0)));
                while i < volumes.len()
                    invariant
                        i <= volumes@.len(),
                        views(r@) == referenced_config_maps(volumes@.subrange(0, i as int)),
                    decreases volumes@.len() - i,
                {
                    assert(volumes@.subrange(0, i + 1).drop_last() =~= volumes@.subrange(0, i as int));
                    if let Some(c) = &volumes[i].config_map {
                        if let Some(n) = &c.name {
                            let ghost before = r@;
                            r.push(n.clone());
                            assert(views(r@) =~= views(before).push(n@));
                        }
                    }
                    i = i + 1;
                }
                assert(volumes@.subrange(0, i as int) =~= volumes@);
            },
        }
        r
    }

    /// For each mount, in order, the config map volumes it refers to, as
    /// the mount path and the name of the config map; where several name
    /// the same mount path only the last counts, in its place.
    pub fn mounted_config_maps(mounts: &Vec<VolumeMount>, volumes: &Vec<Volume>) -> (r: Vec<(String, String)>)
        requires
            mounted_maps_named(mounts@, volumes@),
        ensures
            pair_views(r@) == keep_last(mount_pairs(mounts@, volumes@)),
    {
        let mut r: Vec<(String, String)> = Vec::new();
        let mut i: usize = 0;
        assert(mount_pairs(mounts@.subrange(0, 0), volumes@) =~= Seq::empty());
        while i < mounts.len()
            invariant
                i <= mounts@.len(),
                mounted_maps_named(mounts@, volumes@),
                pair_views(r@) == keep_last(mount_pairs(mounts@.subrange(0, i as int), volumes@)),
            decreases mounts@.len() - i,
        {
            assert(mounts@.subrange(0, i + 1).drop_last() =~= mounts@.subrange(0, i as int));
            let m = &mounts[i];
            let ghost before_i = mount_pairs(mounts@.subrange(0, i as int), volumes@);
            let mut j: usize = 0;
            assert(mount_targets(*m, volumes@.subrange(0, 0)) =~= Seq::empty());
            assert(before_i + Seq::empty() =~= before_i);
            while j < volumes.len()
                invariant
                    i < mounts@.len(),
                    *m == mounts@[i as int],
                    j <= volumes@.len(),
                    mounted_maps_named(mounts@, volumes@),
                    pair_views(r@) == keep_last(before_i + mount_targets(*m, volumes@.subrange(0, j as int))),
                decreases volumes@.len() - j,
            {
                assert(volumes@.subrange(0, j + 1).drop_last() =~= volumes@.subrange(0, j as int));
                let v = &volumes[j];
                let ghost flat = before_i + mount_targets(*m, volumes@.subrange(0, j as int));
                if str_eq(v.name.as_str(), m.name.as_str()) {
                    if let Some(c) = &v.config_map {
                        assert(volumes@[j as int].name@ == mounts@[i as int].name@);
                        let name = match &c.name {
                            Some(n) => n.clone(),
                            None => String::new(),
                        };
                        put_last(&mut r, m.mount_path.clone(), name);
                        assert(before_i + mount_targets(*m, volumes@.subrange(0, j + 1)) =~= flat.push(
                            (m.mount_path@, name@),
                        ));
                        assert(flat.push((m.mount_path@, name@)).drop_last() =~= flat);
                    } else {
                        assert(mount_targets(*m, volumes@.subrange(0, j + 1)) == mount_targets(*m, volumes@.subrange(0, j as int)));
                    }
                } else {
                    assert(mount_targets(*m, volumes@.subrange(0, j + 1)) == mount_targets(*m, volumes@.subrange(0, j as int)));
                }
                j = j + 1;
            }
            assert(volumes@.subrange(0, j as int) =~= volumes@);
            i = i + 1;
        }
        assert(mounts@.subrange(0, i as int) =~= mounts@);
        r
    }

    /// For each mount, the config map volumes it refers to, as the
    /// directory below `config_dir` and the name of the config map; where
    /// several name the same mount path only the last counts.
    pub fn config_map_targets(config_dir: &str, mounts: &Vec<VolumeMount>, volumes: &Vec<Volume>) -> (r: Vec<(String, String)>)
        requires
            mounted_maps_named(mounts@, volumes@),
        ensures
            pair_views(r@) == target_directories(config_dir@, keep_last(mount_pairs(mounts@, volumes@))),
    {
        let pairs = CreatingConfig::mounted_config_maps(mounts, volumes);
        let mut r: Vec<(String, String)> = Vec::new();
        let mut i: usize = 0;
        while i < pairs.len()
            invariant
                i <= pairs@.len(),
                pair_views(r@) == target_directories(config_dir@, pair_views(pairs@.subrange(0, i as int))),
            decreases pairs@.len() - i,
        {
            let ghost prev = r@;
            let dir = join_path(config_dir, pairs[i].0.as_str());
            let ghost x = (dir@, pairs@[i as int].1@);
            r.push((dir, pairs[i].1.clone()));
            assert(pair_views(r@) =~= pair_views(prev).push(x));
            assert(pair_views(pairs@.subrange(0, i + 1)) =~= pair_views(pairs@.subrange(0, i as int)).push(
                (pairs@[i as int].0@, pairs@[i as int].1@),
            ));
            assert(target_directories(config_dir@, pair_views(pairs@.subrange(0, i + 1))) =~= target_directories(
                config_dir@,
                pair_views(pairs@.subrange(0, i as int)),
            ).push(x));
            assert(pair_views(r@) =~= target_directories(config_dir@, pair_views(pairs@.subrange(0, i + 1))));
            i = i + 1;
        }
        assert(pairs@.subrange(0, i as int) =~= pairs@);
        r
    }

    /// Decides what to do with the config of a pod: only pods with exactly
    /// one container are supported; where the container mounts nothing or
    /// the pod has no volumes there is nothing to write; otherwise the
    /// config maps of the mounted volumes are written below the config
    /// directory of the service.
    pub fn plan(pod: &Pod, pod_state: &PodState) -> (r: ConfigPlan)
        requires
            pod.containers@.len() == 1 && pod.containers@[0].volume_mounts is Some && pod.volumes is Some
                ==> mounted_maps_named(pod.containers@[0].volume_mounts.unwrap()@, pod.volumes.unwrap()@),
        ensures
            pod.containers@.len() != 1 ==> (r matches ConfigPlan::Fail { error } && is_validation_error(
                error,
                "Only pods containing exactly one container element are supported!"@,
            )),
            pod.containers@.len() == 1 && (pod.containers@[0].volume_mounts is None || pod.volumes is None)
                ==> r is Skip,
            pod.containers@.len() == 1 && pod.containers@[0].volume_mounts is Some && pod.volumes is Some
                ==> (r matches ConfigPlan::Write { targets, referenced }
                && pair_views(targets@) == target_directories(
                    pod_state.service_config_directory(),
                    keep_last(mount_pairs(pod.containers@[0].volume_mounts.unwrap()@, pod.volumes.unwrap()@)),
                ) && views(referenced@) == referenced_config_maps(pod.volumes.unwrap()@)),
    {
        if pod.containers.len() != 1 {
            return ConfigPlan::Fail {
                error: StackableError::PodValidationError {
                    msg: copy_str("Only pods containing exactly one container element are supported!"),
                },
            };
        }
        let mounts = match &pod.containers[0].volume_mounts {
            Some(m) => m,
            None => return ConfigPlan::Skip,
        };
        let volumes = match &pod.volumes {
            Some(v) => v,
            None => return ConfigPlan::Skip,
        };
        let config_dir = pod_state.get_service_config_directory();
        let targets = CreatingConfig::config_map_targets(config_dir.as_str(), mounts, volumes);
        let referenced = CreatingConfig::get_config_maps(pod);
        ConfigPlan::Write { targets, referenced }
    }

    /// The state to wait in when the config maps could not be fetched:
    /// the missing config maps where some are missing, otherwise the error,
    /// described by `description`.
    pub fn waiting_state(error: StackableError, description: &str) -> (r: NextState)
        ensures
            match error {
                StackableError::MissingConfigMapsError { missing_config_maps } => r matches NextState::WaitingConfigMap {
                    missing_config_maps: m,
                } && m@ == missing_config_maps@,
                _ => r matches NextState::WaitingConfigMap { missing_config_maps: m } && m@.len() == 1
                    && m@[0]@ == "An unexepected error occurred: "@ + description@,
            },
    {
        match error {
            StackableError::MissingConfigMapsError { missing_config_maps } => NextState::WaitingConfigMap {
                missing_config_maps,
            },
            _ => {
                let mut m = Vec::new();
                m.push(concat2("An unexepected error occurred: ", description));
                NextState::WaitingConfigMap { missing_config_maps: m }
            },
        }
    }

    /// The last of `maps` with the name `name`.
    pub fn config_map_named(maps: &Vec<ConfigMap>, name: &str) -> (r: Option<usize>)
        ensures
            match r {
                Some(i) => last_named(maps@, name@) == Some(i as int),
                None => last_named(maps@, name@) is None,
            },
    {
        let mut i = maps.len();
        assert(maps@.subrange(0, i as int) =~= maps@);
        while i > 0
            invariant
                i <= maps@.len(),
                last_named(maps@, name@) == last_named(maps@.subrange(0, i as int), name@),
            decreases i,
        {
            assert(maps@.subrange(0, i as int).drop_last() =~= maps@.subrange(0, i - 1));
            let found = match &maps[i - 1].name {
                Some(n) => str_eq(n.as_str(), name),
                None => false,
            };
            if found {
                return Some(i - 1);
            }
            i = i - 1;
        }
        None
    }

    /// Renders the entries of a config map for the files in
    /// `target_directory`: each key names a file, each value is a template
    /// for its content. The files are given up to the first entry that
    /// fails to render, followed by that failure.
    pub fn apply_config_map(map: &ConfigMap, target_directory: &str, template_data: &TemplateData) -> (r: (
        Vec<(String, String)>,
        Option<StackableError>,
    ))
        ensures
            map.name is None ==> r.0@.len() == 0 && (r.1 matches Some(StackableError::RuntimeError { msg })
                && msg@ == "Found ConfigMap with no Name set, this should never have happened"@),
            map.name is Some && map.data is None ==> r.0@.len() == 0 && r.1 is None,
            map.name is Some && map.data is Some ==> ({
                let d = pair_views(map.data.unwrap()@);
                let keys = d.map_values(|p: (Seq<char>, Seq<char>)| p.0);
                let templates = d.map_values(|p: (Seq<char>, Seq<char>)| p.1);
                &&& pair_views(r.0@) == config_files(target_directory@, keys, render_prefix(template_data@, templates))
                &&& (r.1 is None <==> rendered_all(template_data@, templates) is Some)
                &&& (r.1 matches Some(e) ==> is_template_failure(e))
            }),
    {
        let mut files: Vec<(String, String)> = Vec::new();
        if map.name.is_none() {
            return (files, Some(StackableError::RuntimeError {
                msg: copy_str("Found ConfigMap with no Name set, this should never have happened"),
            }));
        }
        let data = match &map.data {
            Some(d) => d,
            None => return (files, None),
        };
        let ghost d = pair_views(data@);
        let ghost keys = d.map_values(|p: (Seq<char>, Seq<char>)| p.0);
        let ghost templates = d.map_values(|p: (Seq<char>, Seq<char>)| p.1);
        let mut i: usize = 0;
        assert(pair_views(files@) =~= config_files(target_directory@, keys, Seq::empty()));
        assert(templates.subrange(0, 0) =~= Seq::<Seq<char>>::empty());
        while i < data.len()
            invariant
                i <= data@.len(),
                map.name is Some,
                map.data == Some(*data),
                d == pair_views(data@),
                keys == d.map_values(|p: (Seq<char>, Seq<char>)| p.0),
                templates == d.map_values(|p: (Seq<char>, Seq<char>)| p.1),
                render_prefix(template_data@, templates.subrange(0, i as int)).len() == i,
                rendered_all(template_data@, templates.subrange(0, i as int)) == Some(render_prefix(template_data@, templates.subrange(0, i as int))),
                pair_views(files@) == config_files(target_directory@, keys, render_prefix(template_data@, templates.subrange(0, i as int))),
            decreases data@.len() - i,
        {
            assert(templates.subrange(0, i + 1).drop_last() =~= templates.subrange(0, i as int));
            assert(templates.subrange(0, i + 1).last() == data@[i as int].1@);
            match CreatingConfig::render_config_template(template_data, data[i].1.as_str()) {
                Ok(content) => {
                    let file = join_path(target_directory, data[i].0.as_str());
                    let ghost prev = files@;
                    let ghost pr = render_prefix(template_data@, templates.subrange(0, i as int));
                    let ghost fv = (file@, content@);
                    files.push((file, content));
                    assert(render_prefix(template_data@, templates.subrange(0, i + 1)) == pr.push(fv.1));
                    assert(keys[i as int] == data@[i as int].0@);
                    assert(pair_views(files@) =~= pair_views(prev).push(fv));
                    assert(pair_views(files@) =~= config_files(target_directory@, keys, pr.push(fv.1)));
                },
                Err(e) => {
                    proof {
                        let pr = render_prefix(template_data@, templates.subrange(0, i as int));
                        assert(render_prefix(template_data@, templates.subrange(0, i + 1)) == pr);
                        lemma_render_prefix_stops(template_data@, templates, i as int + 1);
                        lemma_rendered_all_prefix_fails(template_data@, templates, i as int + 1);
                    }
                    return (files, Some(e));
                },
            }
            i = i + 1;
        }
        assert(templates.subrange(0, i as int) =~= templates);
        (files, None)
    }

    /// What follows the plan: a pod that cannot be run ends the state
    /// machine with the error, a pod with nothing to write goes on to
    /// create its service, otherwise the targets and the config maps to
    /// fetch are returned.
    pub fn plan_state(plan: ConfigPlan) -> (r: Result<(Vec<(String, String)>, Vec<String>), NextState>)
        ensures
            match plan {
                ConfigPlan::Fail { error } => r matches Err(NextState::Complete { error: e }) && e == Some(error),
                ConfigPlan::Skip => r matches Err(NextState::CreatingService),
                ConfigPlan::Write { targets, referenced } => r matches Ok((t, n)) && t == targets && n == referenced,
            },
    {
        match plan {
            ConfigPlan::Fail { error } => Err(NextState::Complete { error: Some(error) }),
            ConfigPlan::Skip => Err(NextState::CreatingService),
            ConfigPlan::Write { targets, referenced } => Ok((targets, referenced)),
        }
    }

    /// The config maps to write once they were fetched: for each target
    /// directory, in order, the index of the last fetched config map with
    /// the target's name; a target whose config map was not fetched is
    /// left out.
    pub fn targets_to_write(targets: &Vec<(String, String)>, maps: &Vec<ConfigMap>) -> (r: Vec<(String, usize)>)
        ensures
            r@.map_values(|p: (String, usize)| (p.0@, p.1 as int)) == write_targets(pair_views(targets@), maps@),
    {
        let mut r: Vec<(String, usize)> = Vec::new();
        let mut i: usize = 0;
        while i < targets.len()
            invariant
                i <= targets@.len(),
                r@.map_values(|p: (String, usize)| (p.0@, p.1 as int)) == write_targets(
                    pair_views(targets@.subrange(0, i as int)),
                    maps@,
                ),
            decreases targets@.len() - i,
        {
            assert(pair_views(targets@.subrange(0, i + 1)).drop_last() =~= pair_views(targets@.subrange(0, i as int)));
            assert(pair_views(targets@.subrange(0, i + 1)).last() == (targets@[i as int].0@, targets@[i as int].1@));
            let ghost before = r@;
            match CreatingConfig::config_map_named(maps, targets[i].1.as_str()) {
                Some(k) => {
                    r.push((targets[i].0.clone(), k));
                    assert(r@.map_values(|p: (String, usize)| (p.0@, p.1 as int)) =~= before.map_values(
                        |p: (String, usize)| (p.0@, p.1 as int),
                    ).push((targets@[i as int].0@, k as int)));
                },
                None => {},
            }
            i = i + 1;
        }
        assert(targets@.subrange(0, i as int) =~= targets@);
        r
    }

    /// Applies the fetched config maps to their target directories, in
    /// order: the files to write, and where a config map fails, its
    /// position among the targets and the error; the maps after it are not
    /// applied.
    pub fn files_to_write(
        writes: &Vec<(String, usize)>,
        maps: &Vec<ConfigMap>,
        template_data: &TemplateData,
    ) -> (r: (Vec<(String, String)>, Option<(usize, StackableError)>))
        requires
            forall|k: int| 0 <= k < writes@.len() ==> #[trigger] writes@[k].1 < maps@.len(),
        ensures
            ({
                let w = writes@.map_values(|p: (String, usize)| (p.0@, p.1 as int));
                let (files, failed) = all_applied(template_data@, maps@, w);
                &&& pair_views(r.0@) == files
                &&& match r.1 {
                    Some((k, _)) => failed == Some(k as int),
                    None => failed is None,
                }
            }),
    {
        let ghost w = writes@.map_values(|p: (String, usize)| (p.0@, p.1 as int));
        let mut files: Vec<(String, String)> = Vec::new();
        let mut i: usize = 0;
        while i < writes.len()
            invariant
                i <= writes@.len(),
                w == writes@.map_values(|p: (String, usize)| (p.0@, p.1 as int)),
                forall|k: int| 0 <= k < writes@.len() ==> #[trigger] writes@[k].1 < maps@.len(),
                all_applied(template_data@, maps@, w.subrange(0, i as int)).1 is None,
                pair_views(files@) == all_applied(template_data@, maps@, w.subrange(0, i as int)).0,
            decreases writes@.len() - i,
        {
            let ghost prev = files@;
            assert(w.subrange(0, i + 1).drop_last() =~= w.subrange(0, i as int));
            assert(w.subrange(0, i + 1).last() == (writes@[i as int].0@, writes@[i as int].1 as int));
            let k = writes[i].1;
            let (mut applied, error) = CreatingConfig::apply_config_map(&maps[k], writes[i].0.as_str(), template_data);
            proof {
                let m = maps@[k as int];
                if m.name is Some && m.data is Some {
                } else {
                    assert(applied@.len() == 0);
                    assert(pair_views(applied@) =~= Seq::<(Seq<char>, Seq<char>)>::empty());
                }
                assert(pair_views(applied@) == applied_files(m, writes@[i as int].0@, template_data@));
                assert(error is Some <==> applying_fails(m, template_data@));
            }
            let ghost app = applied@;
            files.append(&mut applied);
            assert(pair_views(files@) =~= pair_views(prev) + pair_views(app));
            match error {
                Some(e) => {
                    proof {
                        lemma_all_applied_stops(template_data@, maps@, w, i as int + 1);
                    }
                    return (files, Some((i, e)));
                },
                None => {},
            }
            i = i + 1;
        }
        assert(w.subrange(0, i as int) =~= w);
        (files, None)
    }

    /// One step of creating the config of a pod, given the config maps
    /// fetched for the names that its volumes refer to (`maps`, in the
    /// order of [`CreatingConfig::get_config_maps`], `None` where a map was
    /// not found). It returns the next state and the files to write, in
    /// order:
    ///
    /// * a pod without exactly one container ends the state machine with
    ///   the validation error;
    /// * without mounts or volumes nothing is written and the service is
    ///   created next;
    /// * where config maps are missing, nothing is written and the pod
    ///   waits for exactly the missing ones;
    /// * otherwise the mounted config maps are applied to their directories
    ///   below the config directory of the service, in order, and the
    ///   service is created next; where a map cannot be applied the files
    ///   up to that point are written and the setup failed.
    pub fn step(&self, pod: &Pod, pod_state: &PodState, maps: Vec<Option<ConfigMap>>) -> (r: (NextState, Vec<(String, String)>))
        requires
            pod.containers@.len() == 1 && pod.containers@[0].volume_mounts is Some && pod.volumes is Some ==> (
            mounted_maps_named(pod.containers@[0].volume_mounts.unwrap()@, pod.volumes.unwrap()@)
                && maps@.len() == referenced_config_maps(pod.volumes.unwrap()@).len()),
        ensures
            pod.containers@.len() != 1 ==> (r.0 matches NextState::Complete { error: Some(e) } && is_validation_error(
                e,
                "Only pods containing exactly one container element are supported!"@,
            )) && r.1@.len() == 0,
            pod.containers@.len() == 1 && (pod.containers@[0].volume_mounts is None || pod.volumes is None)
                ==> r.0 is CreatingService && r.1@.len() == 0,
            pod.containers@.len() == 1 && pod.containers@[0].volume_mounts is Some && pod.volumes is Some ==> ({
                let missing = missing_maps(referenced_config_maps(pod.volumes.unwrap()@), maps@);
                let found = found_maps(maps@);
                let writes = write_targets(
                    target_directories(
                        pod_state.service_config_directory(),
                        keep_last(mount_pairs(pod.containers@[0].volume_mounts.unwrap()@, pod.volumes.unwrap()@)),
                    ),
                    found,
                );
                let (files, failed) = all_applied(render_data(*pod_state), found, writes);
                &&& missing.len() > 0 ==> (r.0 matches NextState::WaitingConfigMap { missing_config_maps }
                    && views(missing_config_maps@) == missing) && r.1@.len() == 0
                &&& missing.len() == 0 ==> pair_views(r.1@) == files
                &&& missing.len() == 0 && failed is None ==> r.0 is CreatingService
                &&& missing.len() == 0 ==> (failed matches Some(k) ==> (r.0 matches NextState::SetupFailed { message }
                    && message@ == write_failure_message(writes[k].0, opt_view(found[writes[k].1].name).unwrap())))
            }),
    {
        let (targets, referenced) = match CreatingConfig::plan_state(CreatingConfig::plan(pod, pod_state)) {
            Ok(t) => t,
            Err(next) => return (next, Vec::new()),
        };
        let ghost names = views(referenced@);
        let ghost orig = maps@;
        let mut maps = maps;
        let mut collection = ConfigMapCollection::new();
        let mut i: usize = 0;
        assert(maps@.subrange(0, 0) =~= Seq::<Option<ConfigMap>>::empty());
        assert(orig.subrange(0, 0) =~= Seq::<Option<ConfigMap>>::empty());
        assert(names.subrange(0, 0) =~= Seq::<Seq<char>>::empty());
        assert(views(collection.missing@) =~= Seq::<Seq<char>>::empty());
        while i < referenced.len()
            invariant
                names == views(referenced@),
                orig.len() == names.len(),
                i <= names.len(),
                maps@ == orig.subrange(i as int, orig.len() as int),
                collection.found@ == found_maps(orig.subrange(0, i as int)),
                views(collection.missing@) == missing_maps(names.subrange(0, i as int), orig.subrange(0, i as int)),
            decreases names.len() - i,
        {
            assert(orig.subrange(0, i + 1).drop_last() =~= orig.subrange(0, i as int));
            assert(names.subrange(0, i + 1).drop_last() =~= names.subrange(0, i as int));
            assert(maps@[0] == orig[i as int]);
            let m = maps.remove(0);
            assert(maps@ =~= orig.subrange(i + 1, orig.len() as int));
            let ghost prev_missing = collection.missing@;
            let name = referenced[i].clone();
            let fetch = match m {
                Some(c) => ConfigMapFetch::Found(c),
                None => ConfigMapFetch::NotFound,
            };
            let _ = collection.record(name, fetch);
            proof {
                if !is_found(orig[i as int]) {
                    assert(views(collection.missing@) =~= views(prev_missing).push(names[i as int]));
                }
            }
            i = i + 1;
        }
        assert(orig.subrange(0, i as int) =~= orig);
        assert(names.subrange(0, i as int) =~= names);
        let found = match collection.finish() {
            Ok(f) => f,
            Err(e) => return (CreatingConfig::waiting_state(e, ""), Vec::new()),
        };
        let data = CreatingConfig::create_render_data(pod_state);
        let writes = CreatingConfig::targets_to_write(&targets, &found);
        proof {
            lemma_write_targets_in_range(pair_views(targets@), found@);
            assert forall|k: int| 0 <= k < writes@.len() implies #[trigger] writes@[k].1 < found@.len() by {
                assert(writes@.map_values(|p: (String, usize)| (p.0@, p.1 as int))[k].1 == writes@[k].1);
            }
        }
        let (files, failure) = CreatingConfig::files_to_write(&writes, &found, &data);
        proof {
            lemma_failed_write_in_range(data@, found@, writes@.map_values(|p: (String, usize)| (p.0@, p.1 as int)));
        }
        match failure {
            None => (NextState::CreatingService, files),
            Some((k, _)) => {
                let name = match &found[writes[k].1].name {
                    Some(n) => n.clone(),
                    None => String::new(),
                };
                let mut message = concat3("Failed to create config file [", writes[k].0.as_str(), "] from config map [");
                message = concat3(message.as_str(), name.as_str(), "]");
                proof {
                    lemma_found_maps_named(orig);
                    let w = writes@.map_values(|p: (String, usize)| (p.0@, p.1 as int));
                    assert(w[k as int].0 == writes@[k as int].0@);
                    assert(w[k as int].1 == writes@[k as int].1 as int);
                    assert(found@[writes@[k as int].1 as int].name matches Some(n) && n@ == name@);
                    assert(opt_view(found@[w[k as int].1].name).unwrap() == name@);
                    assert(message@ =~= write_failure_message(w[k as int].0, name@));
                }
                (NextState::SetupFailed { message }, files)
            },
        }
    }

    /// A file needs to be written unless it exists with the same content.
    pub fn needs_update(current: &Option<String>, content: &str) -> (r: bool)
        ensures
            r == (opt_view(*current) != Some(content@)),
    {
        match current {
            Some(c) => !str_eq(c.as_str(), content),
            None => true,
        }
    }

    /// Once the config files are written the service is created; a
    /// failure to write them is a failed setup with its description.
    pub fn next(failure: Option<String>) -> (r: NextState)
        ensures
            failure is None ==> r is CreatingService,
            failure matches Some(m) ==> (r matches NextState::SetupFailed { message } && message@ == m@),
    {
        match failure {
            None => NextState::CreatingService,
            Some(message) => NextState::SetupFailed { message },
        }
    }

    /// The pod is pending while its config is created.
    pub fn status(&self) -> (r: StatusPatch)
        ensures
            r.phase == Phase::Pending,
            r.reason@ == "CreatingConfig"@,
    {
        make_status(Phase::Pending, "CreatingConfig")
    }
}

/// Once a config map fails, the later ones are not applied.
proof fn lemma_all_applied_stops(
    data: Map<Seq<char>, Seq<char>>,
    maps: Seq<ConfigMap>,
    writes: Seq<(Seq<char>, int)>,
    n: int,
)
    requires
        0 < n <= writes.len(),
        all_applied(data, maps, writes.subrange(0, n)).1 is Some,
    ensures
        all_applied(data, maps, writes) == all_applied(data, maps, writes.subrange(0, n)),
    decreases writes.len() - n,
{
    if n < writes.len() {
        assert(writes.subrange(0, n + 1).drop_last() =~= writes.subrange(0, n));
        lemma_all_applied_stops(data, maps, writes, n + 1);
    } else {
        assert(writes.subrange(0, n) =~= writes);
    }
}

/// Once a template of a prefix fails, the later templates are not
/// rendered.
proof fn lemma_render_prefix_stops(data: Map<Seq<char>, Seq<char>>, templates: Seq<Seq<char>>, n: int)
    requires
        0 < n <= templates.len(),
        render_prefix(data, templates.subrange(0, n)).len() < n,
    ensures
        render_prefix(data, templates) == render_prefix(data, templates.subrange(0, n)),
    decreases templates.len() - n,
{
    if n < templates.len() {
        assert(templates.subrange(0, n + 1).drop_last() =~= templates.subrange(0, n));
        lemma_render_prefix_len(data, templates.subrange(0, n));
        lemma_render_prefix_stops(data, templates, n + 1);
    } else {
        assert(templates.subrange(0, n) =~= templates);
    }
}

/// The rendered prefix is never longer than the templates.
proof fn lemma_render_prefix_len(data: Map<Seq<char>, Seq<char>>, templates: Seq<Seq<char>>)
    ensures
        render_prefix(data, templates).len() <= templates.len(),
    decreases templates.len(),
{
    if templates.len() > 0 {
        lemma_render_prefix_len(data, templates.drop_last());
    }
}

/// The rendered prefix renders each template in turn: its length is that
/// of the templates exactly where all of them render, and each rendered
/// text is the rendering of the template at its place.
pub proof fn lemma_render_prefix_meaning(data: Map<Seq<char>, Seq<char>>, templates: Seq<Seq<char>>)
    ensures
        render_prefix(data, templates).len() <= templates.len(),
        (render_prefix(data, templates).len() == templates.len()) <==> rendered_all(data, templates) is Some,
        forall|j: int| 0 <= j < render_prefix(data, templates).len() ==> template_render(data, templates[j]) == Some(
            #[trigger] render_prefix(data, templates)[j],
        ),
    decreases templates.len(),
{
    if templates.len() > 0 {
        let d = templates.drop_last();
        lemma_render_prefix_meaning(data, d);
        lemma_rendered_all_prefix(data, d);
        let p = render_prefix(data, d);
        let r = render_prefix(data, templates);
        assert forall|j: int| 0 <= j < r.len() implies template_render(data, templates[j]) == Some(#[trigger] r[j]) by {
            if j < p.len() {
                assert(r[j] == p[j]);
                assert(d[j] == templates[j]);
            }
        }
    }
}

/// Where all templates render, the rendered prefix is their rendering.
proof fn lemma_rendered_all_prefix(data: Map<Seq<char>, Seq<char>>, templates: Seq<Seq<char>>)
    ensures
        rendered_all(data, templates) matches Some(r) ==> r == render_prefix(data, templates) && r.len()
            == templates.len(),
    decreases templates.len(),
{
    if templates.len() > 0 {
        lemma_rendered_all_prefix(data, templates.drop_last());
        lemma_render_prefix_len(data, templates.drop_last());
    }
}

/// Applying a config map writes, for its entries in order up to the first
/// that fails to render, the file named by the entry's key in the target
/// directory with the entry's value rendered; where every entry renders
/// there is one file per entry.
pub proof fn lemma_applied_files_meaning(map: ConfigMap, dir: Seq<char>, data: Map<Seq<char>, Seq<char>>)
    ensures
        map.name is Some && map.data is Some ==> ({
            let e = pair_views(map.data.unwrap()@);
            let files = applied_files(map, dir, data);
            &&& files.len() <= e.len()
            &&& !applying_fails(map, data) ==> files.len() == e.len()
            &&& forall|j: int| 0 <= j < files.len() ==> (#[trigger] files[j]).0 == path_join(dir, e[j].0)
                && template_render(data, e[j].1) == Some(files[j].1)
        }),
        map.name is None || map.data is None ==> applied_files(map, dir, data).len() == 0,
{
    if map.name is Some && map.data is Some {
        let e = pair_views(map.data.unwrap()@);
        let templates = e.map_values(|p: (Seq<char>, Seq<char>)| p.1);
        lemma_render_prefix_meaning(data, templates);
        let files = applied_files(map, dir, data);
        assert forall|j: int| 0 <= j < files.len() implies (#[trigger] files[j]).0 == path_join(dir, e[j].0)
            && template_render(data, e[j].1) == Some(files[j].1) by {
            assert(templates[j] == e[j].1);
        }
    }
}

} // verus!
