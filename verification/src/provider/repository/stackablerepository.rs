//! Stackable repositories: where packages are found and downloaded from.
use vstd::prelude::*;
use crate::provider::error::StackableError;
use crate::provider::repository::package::Package;
use crate::provider::repository::repository_spec::Repository;
use crate::provider::states::pod::creating_config::{copy_pairs, pair_views};
use crate::text::{copy_str, opt_view, str_eq, str_le, lex_le};

verus! {

/// The serialization of the URL that the `url` crate parses from `input`,
/// or `None` where it refuses it.
pub uninterp spec fn url_parse(input: Seq<char>) -> Option<Seq<char>>;

/// The serialization of the URL that the `url` crate resolves `input`
/// to against the URL parsed from `base`, or `None` where that fails.
pub uninterp spec fn url_join(base: Seq<char>, input: Seq<char>) -> Option<Seq<char>>;

/// Parses a URL with `url::Url::parse` and returns its serialization.
///
/// The contract names the result with `url_parse`; the message of the
/// error is the crate's and is left unsaid.
#[verifier::external_body]
fn parse_url(input: &str) -> (r: Result<String, StackableError>)
    ensures
        r is Ok <==> url_parse(input@) is Some,
        r matches Ok(s) ==> url_parse(input@) == Some(s@),
        r matches Err(e) ==> e is UrlParseError,
{
    match url::Url::parse(input) {
        Ok(url) => Ok(url.as_str().to_string()),
        Err(e) => Err(StackableError::UrlParseError { msg: e.to_string() }),
    }
}

/// Resolves `input` against the URL `base` with `url::Url::join` and
/// returns the serialization of the result.
///
/// The contract names the result with `url_join`; the message of the
/// error is the crate's and is left unsaid.
#[verifier::external_body]
fn join_url(base: &str, input: &str) -> (r: Result<String, StackableError>)
    ensures
        r is Ok <==> url_join(base@, input@) is Some,
        r matches Ok(s) ==> url_join(base@, input@) == Some(s@),
        r matches Err(e) ==> e is UrlParseError,
{
    match url::Url::parse(base).and_then(|url| url.join(input)) {
        Ok(url) => Ok(url.as_str().to_string()),
        Err(e) => Err(StackableError::UrlParseError { msg: e.to_string() }),
    }
}

/// The serialization of the URL parsed from `base` with `segment`
/// appended to its path (`PathSegmentsMut::push` of the `url` crate), or
/// `None` where that URL cannot be a base.
pub uninterp spec fn url_push_segment(base: Seq<char>, segment: Seq<char>) -> Option<Seq<char>>;

/// Appends a segment to the path of a URL with `Url::path_segments_mut`
/// and `PathSegmentsMut::push`, and returns the serialization.
///
/// The contract names the result with `url_push_segment`.
#[verifier::external_body]
fn push_url_segment(base: &str, segment: &str) -> (r: Option<String>)
    ensures
        opt_view(r) == url_push_segment(base@, segment@),
{
    let mut url = url::Url::parse(base).ok()?;
    url.path_segments_mut().ok()?.push(segment);
    Some(url.as_str().to_string())
}

/// A version of a product in the metadata of a repository.
#[derive(Debug)]
pub struct Product {
    pub version: String,
    pub path: String,
    pub hashes: Vec<(String, String)>,
}

/// The metadata of a repository as it is served: for each product its
/// versions.
#[derive(Debug)]
pub struct RepoData {
    pub version: String,
    pub packages: Vec<(String, Vec<Product>)>,
}

/// A package that a repository provides, with the link it is downloaded
/// from.
#[derive(Debug)]
pub struct StackablePackage {
    pub product: String,
    pub version: String,
    pub link: String,
    pub hashes: Vec<(String, String)>,
}

/// The content of a repository: for each product the packages of its
/// versions.
#[derive(Debug)]
pub struct RepositoryContent {
    pub version: String,
    pub packages: Vec<(String, Vec<StackablePackage>)>,
}

/// A package as a value: product, version, link and hashes.
pub struct PackageEntry {
    pub product: Seq<char>,
    pub version: Seq<char>,
    pub link: Seq<char>,
    pub hashes: Seq<(Seq<char>, Seq<char>)>,
}

impl StackablePackage {
    pub open spec fn entry(&self) -> PackageEntry {
        PackageEntry {
            product: self.product@,
            version: self.version@,
            link: self.link@,
            hashes: pair_views(self.hashes@),
        }
    }
}

/// The entries of a list of packages.
pub open spec fn package_entries(v: Seq<StackablePackage>) -> Seq<PackageEntry> {
    v.map_values(|p: StackablePackage| p.entry())
}

/// The link of a package: its path where that is an absolute URL, else
/// the path resolved against the base URL of the repository.
pub open spec fn resolved_link(base: Seq<char>, path: Seq<char>) -> Option<Seq<char>> {
    if url_parse(path) is Some {
        Some(path)
    } else {
        url_join(base, path)
    }
}

/// The packages of the versions of a product, or `None` if a link cannot
/// be resolved.
pub open spec fn product_entries(base: Seq<char>, product: Seq<char>, versions: Seq<Product>) -> Option<
    Seq<PackageEntry>,
>
    decreases versions.len(),
{
    if versions.len() == 0 {
        Some(Seq::empty())
    } else {
        match product_entries(base, product, versions.drop_last()) {
            None => None,
            Some(prev) => {
                let v = versions.last();
                match resolved_link(base, v.path@) {
                    None => None,
                    Some(link) => Some(
                        prev.push(
                            PackageEntry {
                                product,
                                version: v.version@,
                                link,
                                hashes: pair_views(v.hashes@),
                            },
                        ),
                    ),
                }
            },
        }
    }
}

/// The version of the package that a product's list holds last.
pub open spec fn find_version(v: Seq<PackageEntry>, version: Seq<char>) -> Option<PackageEntry>
    decreases v.len(),
{
    if v.len() == 0 {
        None
    } else if v.last().version == version {
        Some(v.last())
    } else {
        find_version(v.drop_last(), version)
    }
}

/// The packages of the product that the content lists last.
pub open spec fn find_product(c: Seq<(Seq<char>, Seq<PackageEntry>)>, product: Seq<char>) -> Option<
    Seq<PackageEntry>,
>
    decreases c.len(),
{
    if c.len() == 0 {
        None
    } else if c.last().0 == product {
        Some(c.last().1)
    } else {
        find_product(c.drop_last(), product)
    }
}

/// The package of the given product and version in the content.
pub open spec fn find_package(
    c: Seq<(Seq<char>, Seq<PackageEntry>)>,
    product: Seq<char>,
    version: Seq<char>,
) -> Option<PackageEntry> {
    match find_product(c, product) {
        Some(v) => find_version(v, version),
        None => None,
    }
}

/// The content made from the metadata of a repository, or `None` if a
/// link cannot be resolved.
pub open spec fn content_groups(base: Seq<char>, packages: Seq<(String, Vec<Product>)>) -> Option<
    Seq<(Seq<char>, Seq<PackageEntry>)>,
>
    decreases packages.len(),
{
    if packages.len() == 0 {
        Some(Seq::empty())
    } else {
        match content_groups(base, packages.drop_last()) {
            None => None,
            Some(prev) => match product_entries(
                base,
                packages.last().0@,
                packages.last().1@,
            ) {
                None => None,
                Some(e) => Some(prev.push((packages.last().0@, e))),
            },
        }
    }
}

/// The groups of a content as values.
pub open spec fn group_views(c: Seq<(String, Vec<StackablePackage>)>) -> Seq<
    (Seq<char>, Seq<PackageEntry>),
> {
    c.map_values(|g: (String, Vec<StackablePackage>)| (g.0@, package_entries(g.1@)))
}

/// A repository of Stackable packages, identified by its name.
#[derive(Debug)]
pub struct StackableRepoProvider {
    pub base_url: String,
    pub name: String,
    pub content: Option<RepositoryContent>,
}

impl StackablePackage {
    /// A copy of this package.
    pub fn copy(&self) -> (r: StackablePackage)
        ensures
            r.entry() == self.entry(),
    {
        StackablePackage {
            product: self.product.clone(),
            version: self.version.clone(),
            link: self.link.clone(),
            hashes: copy_pairs(&self.hashes),
        }
    }
}

impl StackableRepoProvider {
    /// The name of the repository.
    pub open spec fn provider_name(&self) -> Seq<char> {
        self.name@
    }

    /// The base URL, as serialized by the `url` crate.
    pub open spec fn base(&self) -> Seq<char> {
        self.base_url@
    }

    /// The content loaded from the metadata of the repository, if any.
    pub open spec fn content_groups(&self) -> Option<Seq<(Seq<char>, Seq<PackageEntry>)>> {
        match self.content {
            Some(c) => Some(group_views(c.packages@)),
            None => None,
        }
    }

    /// The base URL of the repository.
    pub fn base_url(&self) -> (r: &str)
        ensures
            r@ == self.base(),
    {
        self.base_url.as_str()
    }

    /// A repository with the given name at the given URL.
    pub fn new(name: String, base_url: String) -> (r: Result<StackableRepoProvider, StackableError>)
        ensures
            r is Ok <==> url_parse(base_url@) is Some,
            r matches Ok(p) ==> url_parse(base_url@) == Some(p.base()) && p.provider_name() == name@
                && p.content_groups() is None,
            r matches Err(e) ==> e is UrlParseError,
    {
        let base_url = match parse_url(base_url.as_str()) {
            Ok(u) => u,
            Err(e) => return Err(e),
        };
        Ok(StackableRepoProvider { base_url, name, content: None })
    }

    /// Converts a repository object: its `url` property is the base URL.
    pub fn try_from(value: &Repository) -> (r: Result<StackableRepoProvider, StackableError>)
        ensures
            !value.spec.property_map().contains_key("url"@) ==> (r matches Err(e)
                && e is RepositoryConversionError),
            value.spec.property_map().contains_key("url"@) ==> {
                let url = value.spec.property_map()["url"@];
                &&& r is Ok <==> url_parse(url) is Some
                &&& r matches Ok(p) ==> url_parse(url) == Some(p.base())
                    && p.provider_name() == value.name@ && p.content_groups() is None
                &&& r matches Err(e) ==> e is UrlParseError
            },
    {
        match value.spec.get_property("url") {
            Some(path) => StackableRepoProvider::new(value.name.clone(), path.clone()),
            None => Err(StackableError::RepositoryConversionError),
        }
    }

    /// Resolves relative paths that are defined for elements in this
    /// repository against the repo's base URL. An absolute URL is
    /// returned unchanged.
    pub fn resolve_url(&self, path: String) -> (r: Result<String, StackableError>)
        ensures
            match resolved_link(self.base(), path@) {
                Some(link) => r matches Ok(s) && s@ == link,
                None => r matches Err(e) && e is UrlParseError,
            },
    {
        if parse_url(path.as_str()).is_ok() {
            return Ok(path);
        }
        join_url(self.base_url.as_str(), path.as_str())
    }

    /// The packages of the versions of a product, with resolved links.
    fn product_packages(&self, product: &String, versions: &Vec<Product>) -> (r: Result<
        Vec<StackablePackage>,
        StackableError,
    >)
        ensures
            match product_entries(self.base(), product@, versions@) {
                Some(e) => r matches Ok(v) && package_entries(v@) == e,
                None => r matches Err(e) && e is UrlParseError,
            },
    {
        let mut out: Vec<StackablePackage> = Vec::new();
        let mut i: usize = 0;
        while i < versions.len()
            invariant
                i <= versions@.len(),
                product_entries(self.base(), product@, versions@.subrange(0, i as int)) == Some(
                    package_entries(out@),
                ),
            decreases versions@.len() - i,
        {
            assert(versions@.subrange(0, i + 1).drop_last() =~= versions@.subrange(0, i as int));
            let v = &versions[i];
            let link = match self.resolve_url(v.path.clone()) {
                Ok(l) => l,
                Err(e) => {
                    proof {
                        lemma_product_entries_prefix(
                            self.base(),
                            product@,
                            versions@,
                            i as int + 1,
                        );
                    }
                    return Err(e);
                },
            };
            let p = StackablePackage {
                product: product.clone(),
                version: v.version.clone(),
                link,
                hashes: copy_pairs(&v.hashes),
            };
            let ghost old_out = out@;
            out.push(p);
            assert(package_entries(out@) =~= package_entries(old_out).push(p.entry()));
            i = i + 1;
        }
        assert(versions@.subrange(0, i as int) =~= versions@);
        Ok(out)
    }

    /// Converts the metadata of the repository into its content, resolving
    /// the paths of the packages, and keeps the content.
    pub fn store_repo_metadata(&mut self, data: &RepoData) -> (r: Result<(), StackableError>)
        ensures
            final(self).base() == old(self).base(),
            final(self).provider_name() == old(self).provider_name(),
            match content_groups(old(self).base(), data.packages@) {
                Some(g) => r is Ok && final(self).content_groups() == Some(g),
                None => r matches Err(e) && e is UrlParseError && final(self).content_groups()
                    == old(self).content_groups(),
            },
    {
        let mut groups: Vec<(String, Vec<StackablePackage>)> = Vec::new();
        let mut i: usize = 0;
        while i < data.packages.len()
            invariant
                i <= data.packages@.len(),
                content_groups(self.base(), data.packages@.subrange(0, i as int)) == Some(
                    group_views(groups@),
                ),
            decreases data.packages@.len() - i,
        {
            assert(data.packages@.subrange(0, i + 1).drop_last() =~= data.packages@.subrange(
                0,
                i as int,
            ));
            let product = &data.packages[i].0;
            let packages = match self.product_packages(product, &data.packages[i].1) {
                Ok(p) => p,
                Err(e) => {
                    proof {
                        lemma_content_groups_prefix(self.base(), data.packages@, i as int + 1);
                    }
                    return Err(e);
                },
            };
            let ghost pv = package_entries(packages@);
            let ghost old_groups = groups@;
            groups.push((product.clone(), packages));
            assert(group_views(groups@) =~= group_views(old_groups).push((product@, pv)));
            i = i + 1;
        }
        assert(data.packages@.subrange(0, i as int) =~= data.packages@);
        self.content = Some(RepositoryContent { version: data.version.clone(), packages: groups });
        Ok(())
    }

    /// Whether the content holds the package; `None` where no content was
    /// loaded.
    pub fn provides_package(&self, package: &Package) -> (r: Option<bool>)
        ensures
            match self.content_groups() {
                None => r is None,
                Some(c) => r == Some(find_package(c, package.product@, package.version@) is Some),
            },
    {
        match &self.content {
            None => None,
            Some(c) => Some(find_package_in(&c.packages, package).is_some()),
        }
    }

    /// The package in the content; an error where it is not there or no
    /// content was loaded.
    pub fn get_package(&self, package: &Package) -> (r: Result<StackablePackage, StackableError>)
        ensures
            match self.content_groups() {
                Some(c) => match find_package(c, package.product@, package.version@) {
                    Some(e) => r matches Ok(p) && p.entry() == e,
                    None => r matches Err(e) && e is PackageNotFound,
                },
                None => r matches Err(e) && e is PackageNotFound,
            },
    {
        if let Some(c) = &self.content {
            if let Some(p) = find_package_in(&c.packages, package) {
                return Ok(p.copy());
            }
        }
        Err(StackableError::PackageNotFound { package: package.copy() })
    }

    /// The URL of the metadata of the repository: `metadata.json` appended
    /// to the path of the base URL.
    pub fn metadata_url(&self) -> (r: Result<String, StackableError>)
        ensures
            match url_push_segment(self.base(), "metadata.json"@) {
                Some(u) => r matches Ok(s) && s@ == u,
                None => r matches Err(e) && e is UrlParseError,
            },
    {
        match push_url_segment(self.base_url.as_str(), "metadata.json") {
            Some(u) => Ok(u),
            None => Err(StackableError::UrlParseError { msg: copy_str("The base URL of the repository cannot be a base.") }),
        }
    }

    /// The link the package is downloaded from, as parsed by the `url`
    /// crate; an error where the repository does not provide the package.
    pub fn download_link(&self, package: &Package) -> (r: Result<String, StackableError>)
        ensures
            match self.content_groups() {
                Some(c) => match find_package(c, package.product@, package.version@) {
                    Some(e) => match url_parse(e.link) {
                        Some(u) => r matches Ok(s) && s@ == u,
                        None => r matches Err(x) && x is UrlParseError,
                    },
                    None => r matches Err(x) && x is PackageNotFound,
                },
                None => r matches Err(x) && x is PackageNotFound,
            },
    {
        let p = match self.get_package(package) {
            Ok(p) => p,
            Err(e) => return Err(e),
        };
        parse_url(p.link.as_str())
    }
}

/// The package of the given product and version in the content.
fn find_package_in<'a>(groups: &'a Vec<(String, Vec<StackablePackage>)>, package: &Package) -> (r:
    Option<&'a StackablePackage>)
    ensures
        match find_package(group_views(groups@), package.product@, package.version@) {
            Some(e) => r matches Some(p) && p.entry() == e,
            None => r is None,
        },
{
    let mut i = groups.len();
    assert(groups@.subrange(0, i as int) =~= groups@);
    while i > 0
        invariant
            i <= groups@.len(),
            find_product(group_views(groups@), package.product@) == find_product(
                group_views(groups@.subrange(0, i as int)),
                package.product@,
            ),
        decreases i,
    {
        assert(group_views(groups@.subrange(0, i as int)).drop_last() =~= group_views(
            groups@.subrange(0, i - 1),
        ));
        assert(group_views(groups@.subrange(0, i as int)).last() == (
            groups@[i - 1].0@,
            package_entries(groups@[i - 1].1@),
        ));
        if str_eq(groups[i - 1].0.as_str(), package.product.as_str()) {
            let versions = &groups[i - 1].1;
            let mut j = versions.len();
            assert(versions@.subrange(0, j as int) =~= versions@);
            assert(find_product(group_views(groups@), package.product@) == Some(
                package_entries(versions@),
            ));
            while j > 0
                invariant
                    j <= versions@.len(),
                    find_product(group_views(groups@), package.product@) == Some(
                        package_entries(versions@),
                    ),
                    find_version(package_entries(versions@), package.version@) == find_version(
                        package_entries(versions@.subrange(0, j as int)),
                        package.version@,
                    ),
                decreases j,
            {
                assert(package_entries(versions@.subrange(0, j as int)).drop_last() =~= package_entries(
                    versions@.subrange(0, j - 1),
                ));
                assert(package_entries(versions@.subrange(0, j as int)).last() == versions@[j
                    - 1].entry());
                if str_eq(versions[j - 1].version.as_str(), package.version.as_str()) {
                    return Some(&versions[j - 1]);
                }
                j = j - 1;
            }
            assert(package_entries(versions@.subrange(0, 0)) =~= Seq::empty());
            return None;
        }
        i = i - 1;
    }
    assert(group_views(groups@.subrange(0, 0)) =~= Seq::empty());
    None
}

/// A failure in a prefix of the versions makes the whole list fail.
proof fn lemma_product_entries_prefix(
    base: Seq<char>,
    product: Seq<char>,
    versions: Seq<Product>,
    n: int,
)
    requires
        0 <= n <= versions.len(),
        product_entries(base, product, versions.subrange(0, n)) is None,
    ensures
        product_entries(base, product, versions) is None,
    decreases versions.len() - n,
{
    if n < versions.len() {
        assert(versions.subrange(0, n + 1).drop_last() =~= versions.subrange(0, n));
        lemma_product_entries_prefix(base, product, versions, n + 1);
    } else {
        assert(versions.subrange(0, n) =~= versions);
    }
}

/// A failure in a prefix of the products makes the whole content fail.
proof fn lemma_content_groups_prefix(base: Seq<char>, packages: Seq<(String, Vec<Product>)>, n: int)
    requires
        0 <= n <= packages.len(),
        content_groups(base, packages.subrange(0, n)) is None,
    ensures
        content_groups(base, packages) is None,
    decreases packages.len() - n,
{
    if n < packages.len() {
        assert(packages.subrange(0, n + 1).drop_last() =~= packages.subrange(0, n));
        lemma_content_groups_prefix(base, packages, n + 1);
    } else {
        assert(packages.subrange(0, n) =~= packages);
    }
}

/// The providers in the order of their names.
pub open spec fn names_sorted(v: Seq<StackableRepoProvider>) -> bool {
    forall|i: int, j: int|
        0 <= i < j < v.len() ==> lex_le(#[trigger] v[i].name@, #[trigger] v[j].name@)
}

/// Sorts repository providers by their names so that the search for
/// packages is deterministic.
pub fn sort_by_name(v: Vec<StackableRepoProvider>) -> (r: Vec<StackableRepoProvider>)
    ensures
        names_sorted(r@),
        r@.to_multiset() == v@.to_multiset(),
{
    broadcast use vstd::seq_lib::group_to_multiset_ensures;

    let mut rest = v;
    let mut r: Vec<StackableRepoProvider> = Vec::new();
    let ghost all = rest@.to_multiset();
    while rest.len() > 0
        invariant
            names_sorted(r@),
            r@.to_multiset().add(rest@.to_multiset()) == all,
            forall|i: int, j: int|
                0 <= i < r@.len() && 0 <= j < rest@.len() ==> lex_le(
                    #[trigger] r@[i].name@,
                    #[trigger] rest@[j].name@,
                ),
        decreases rest@.len(),
    {
        // find the smallest name in rest
        let mut m: usize = 0;
        let mut k: usize = 1;
        proof {
            crate::text::lemma_lex_le_reflexive(rest@[0].name@);
        }
        while k < rest.len()
            invariant
                0 < rest@.len(),
                m < rest@.len(),
                1 <= k <= rest@.len(),
                forall|j: int| 0 <= j < k ==> lex_le(rest@[m as int].name@, #[trigger] rest@[j].name@),
            decreases rest@.len() - k,
        {
            if !str_le(rest[m].name.as_str(), rest[k].name.as_str()) {
                proof {
                    crate::text::lemma_lex_le_total(rest@[m as int].name@, rest@[k as int].name@);
                    assert forall|j: int| 0 <= j < k + 1 implies lex_le(
                        rest@[k as int].name@,
                        #[trigger] rest@[j].name@,
                    ) by {
                        if j < k {
                            crate::text::lemma_lex_le_transitive(
                                rest@[k as int].name@,
                                rest@[m as int].name@,
                                rest@[j].name@,
                            );
                        } else {
                            crate::text::lemma_lex_le_reflexive(rest@[k as int].name@);
                        }
                    }
                }
                m = k;
            } else {
                proof {
                    assert(lex_le(rest@[m as int].name@, rest@[k as int].name@));
                }
            }
            k = k + 1;
        }
        let ghost old_rest = rest@;
        let ghost old_r = r@;
        let x = rest.remove(m);
        proof {
            old_rest.to_multiset_ensures();
            assert(rest@ =~= old_rest.remove(m as int));
            assert(rest@.to_multiset() == old_rest.to_multiset().remove(x));
        }
        r.push(x);
        proof {
            old_r.to_multiset_ensures();
            assert(r@ == old_r.push(x));
            assert(r@.to_multiset() == old_r.to_multiset().insert(x));
            assert(r@.to_multiset().add(rest@.to_multiset()) =~= all);
            assert forall|i: int, j: int| 0 <= i < j < r@.len() implies lex_le(
                #[trigger] r@[i].name@,
                #[trigger] r@[j].name@,
            ) by {
                if j == r@.len() - 1 {
                    assert(old_rest[m as int] == x);
                    assert(lex_le(old_r[i].name@, old_rest[m as int].name@));
                } else {
                    assert(lex_le(old_r[i].name@, old_r[j].name@));
                }
            }
            assert forall|i: int, j: int|
                0 <= i < r@.len() && 0 <= j < rest@.len() implies lex_le(
                #[trigger] r@[i].name@,
                #[trigger] rest@[j].name@,
            ) by {
                let jj = if j < m { j } else { j + 1 };
                assert(rest@[j] == old_rest[jj]);
                if i < r@.len() - 1 {
                    assert(lex_le(old_r[i].name@, old_rest[jj].name@));
                } else {
                    assert(lex_le(old_rest[m as int].name@, old_rest[jj].name@));
                }
            }
        }
    }
    proof {
        assert(rest@.to_multiset() =~= vstd::multiset::Multiset::empty());
        assert(r@.to_multiset() =~= all);
    }
    r
}

/// Repository providers are equal where their names are.
impl PartialEq for StackableRepoProvider {
    fn eq(&self, other: &Self) -> (r: bool) {
        str_eq(self.name.as_str(), other.name.as_str())
    }
}

impl vstd::std_specs::cmp::PartialEqSpecImpl for StackableRepoProvider {
    open spec fn obeys_eq_spec() -> bool {
        true
    }

    open spec fn eq_spec(&self, other: &Self) -> bool {
        self.provider_name() == other.provider_name()
    }
}

impl StackableRepoProvider {
    /// The name of the repository, as it is displayed.
    pub fn to_string(&self) -> (r: String)
        ensures
            r@ == self.provider_name(),
    {
        self.name.clone()
    }
}

/// A package is found exactly where the content lists the product (the
/// last group of that name counts) with a version entry of the requested
/// version; what is found is such an entry.
pub proof fn lemma_find_package_meaning(
    c: Seq<(Seq<char>, Seq<PackageEntry>)>,
    product: Seq<char>,
    version: Seq<char>,
)
    ensures
        find_package(c, product, version) matches Some(e) ==> e.version == version && exists|i: int, j: int|
            0 <= i < c.len() && c[i].0 == product && 0 <= j < c[i].1.len() && #[trigger] c[i].1[j] == e,
        (exists|i: int, j: int|
            0 <= i < c.len() && c[i].0 == product && (forall|k: int| i < k < c.len() ==> #[trigger] c[k].0 != product)
                && 0 <= j < c[i].1.len() && #[trigger] c[i].1[j].version == version) ==> find_package(
            c,
            product,
            version,
        ) is Some,
    decreases c.len(),
{
    if c.len() > 0 {
        lemma_find_package_meaning(c.drop_last(), product, version);
        let d = c.drop_last();
        if c.last().0 == product {
            lemma_find_version_meaning(c.last().1, version);
            if let Some(e) = find_package(c, product, version) {
                let j = choose|j: int| 0 <= j < c.last().1.len() && #[trigger] c.last().1[j] == e;
                assert(c[c.len() - 1].1[j] == e);
            }
            if exists|i: int, j: int|
                0 <= i < c.len() && c[i].0 == product && (forall|k: int| i < k < c.len() ==> #[trigger] c[k].0 != product)
                    && 0 <= j < c[i].1.len() && #[trigger] c[i].1[j].version == version {
                let (i, j) = choose|i: int, j: int|
                    0 <= i < c.len() && c[i].0 == product && (forall|k: int| i < k < c.len() ==> #[trigger] c[k].0 != product)
                        && 0 <= j < c[i].1.len() && #[trigger] c[i].1[j].version == version;
                if i < c.len() - 1 {
                    assert(c[c.len() - 1].0 != product);
                }
                assert(c.last().1[j].version == version);
            }
        } else {
            if let Some(e) = find_package(c, product, version) {
                let (i, j) = choose|i: int, j: int|
                    0 <= i < d.len() && d[i].0 == product && 0 <= j < d[i].1.len() && #[trigger] d[i].1[j] == e;
                assert(c[i] == d[i]);
            }
            if exists|i: int, j: int|
                0 <= i < c.len() && c[i].0 == product && (forall|k: int| i < k < c.len() ==> #[trigger] c[k].0 != product)
                    && 0 <= j < c[i].1.len() && #[trigger] c[i].1[j].version == version {
                let (i, j) = choose|i: int, j: int|
                    0 <= i < c.len() && c[i].0 == product && (forall|k: int| i < k < c.len() ==> #[trigger] c[k].0 != product)
                        && 0 <= j < c[i].1.len() && #[trigger] c[i].1[j].version == version;
                assert(i < c.len() - 1);
                assert(d[i] == c[i]);
                assert forall|k: int| i < k < d.len() implies #[trigger] d[k].0 != product by {
                    assert(d[k] == c[k]);
                }
                assert(d[i].1[j].version == version);
            }
        }
    }
}

/// A version is found exactly where an entry has it; what is found is
/// such an entry.
pub proof fn lemma_find_version_meaning(v: Seq<PackageEntry>, version: Seq<char>)
    ensures
        find_version(v, version) matches Some(e) ==> e.version == version && exists|j: int|
            0 <= j < v.len() && #[trigger] v[j] == e,
        (exists|j: int| 0 <= j < v.len() && #[trigger] v[j].version == version) ==> find_version(v, version) is Some,
    decreases v.len(),
{
    if v.len() > 0 {
        lemma_find_version_meaning(v.drop_last(), version);
        if v.last().version != version {
            if let Some(e) = find_version(v, version) {
                let j = choose|j: int| 0 <= j < v.drop_last().len() && #[trigger] v.drop_last()[j] == e;
                assert(v[j] == v.drop_last()[j]);
            }
            if exists|j: int| 0 <= j < v.len() && #[trigger] v[j].version == version {
                let j = choose|j: int| 0 <= j < v.len() && #[trigger] v[j].version == version;
                assert(v.drop_last()[j] == v[j]);
            }
        } else {
            assert(v[v.len() - 1] == v.last());
        }
    }
}

/// Every package entry of a content names the product of its group, and
/// the groups are the products of the metadata, in order.
pub proof fn lemma_content_entries_name_their_product(base: Seq<char>, packages: Seq<(String, Vec<Product>)>)
    ensures
        content_groups(base, packages) matches Some(c) ==> {
            &&& c.len() == packages.len()
            &&& forall|i: int| 0 <= i < c.len() ==> (#[trigger] c[i]).0 == packages[i].0@
            &&& forall|i: int, j: int| 0 <= i < c.len() && 0 <= j < c[i].1.len() ==> #[trigger] c[i].1[j].product == c[i].0
        },
    decreases packages.len(),
{
    if packages.len() > 0 {
        lemma_content_entries_name_their_product(base, packages.drop_last());
        lemma_product_entries_name_product(base, packages.last().0@, packages.last().1@);
        if let Some(c) = content_groups(base, packages) {
            let prev = content_groups(base, packages.drop_last()).unwrap();
            let e = product_entries(base, packages.last().0@, packages.last().1@).unwrap();
            assert(c == prev.push((packages.last().0@, e)));
            assert forall|i: int| 0 <= i < c.len() implies (#[trigger] c[i]).0 == packages[i].0@ by {
                if i < prev.len() {
                    assert(c[i] == prev[i]);
                    assert(packages.drop_last()[i] == packages[i]);
                }
            }
            assert forall|i: int, j: int| 0 <= i < c.len() && 0 <= j < c[i].1.len() implies #[trigger] c[i].1[j].product
                == c[i].0 by {
                if i < prev.len() {
                    assert(c[i] == prev[i]);
                    assert(prev[i].1[j].product == prev[i].0);
                } else {
                    assert(c[i] == (packages.last().0@, e));
                    assert(e[j].product == packages.last().0@);
                }
            }
        }
    }
}

/// The entries made for a product name that product.
proof fn lemma_product_entries_name_product(base: Seq<char>, product: Seq<char>, versions: Seq<Product>)
    ensures
        product_entries(base, product, versions) matches Some(e) ==> forall|j: int| 0 <= j < e.len() ==> (#[trigger] e[j]).product == product,
    decreases versions.len(),
{
    if versions.len() > 0 {
        lemma_product_entries_name_product(base, product, versions.drop_last());
        if let Some(e) = product_entries(base, product, versions) {
            let prev = product_entries(base, product, versions.drop_last()).unwrap();
            assert forall|j: int| 0 <= j < e.len() implies (#[trigger] e[j]).product == product by {
                if j < prev.len() {
                    assert(e[j] == prev[j]);
                }
            }
        }
    }
}

} // verus!
