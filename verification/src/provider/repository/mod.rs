//! Packages and the Stackable repositories that provide them.

pub mod package;
pub mod repository_spec;
pub mod stackablerepository;

use vstd::prelude::*;
use crate::provider::repository::repository_spec::Repository;
use crate::provider::repository::package::Package;
use crate::provider::repository::stackablerepository::{find_package, names_sorted, sort_by_name, url_parse, StackableRepoProvider};

verus! {

/// The repository has a `url` property that is a valid URL.
pub open spec fn convertible(repository: Repository) -> bool {
    &&& repository.spec.property_map().contains_key("url"@)
    &&& url_parse(repository.spec.property_map()["url"@]) is Some
}

/// The name and base URL of the provider that a convertible repository
/// becomes.
pub open spec fn repository_key(repository: Repository) -> (Seq<char>, Seq<char>) {
    (repository.name@, url_parse(repository.spec.property_map()["url"@]).unwrap())
}

/// The name and base URL of a provider.
pub open spec fn provider_key(p: StackableRepoProvider) -> (Seq<char>, Seq<char>) {
    (p.provider_name(), p.base())
}

/// The keys of the providers that the convertible repositories become.
pub open spec fn converted_keys(repositories: Seq<Repository>) -> Seq<(Seq<char>, Seq<char>)>
    decreases repositories.len(),
{
    if repositories.len() == 0 {
        Seq::empty()
    } else if convertible(repositories.last()) {
        converted_keys(repositories.drop_last()).push(repository_key(repositories.last()))
    } else {
        converted_keys(repositories.drop_last())
    }
}

/// Converts the given Stackable repository into a repository provider;
/// `None` if it holds no valid definition.
pub fn convert_to_repo_provider(repository: &Repository) -> (r: Option<StackableRepoProvider>)
    ensures
        r is Some <==> convertible(*repository),
        r matches Some(p) ==> provider_key(p) == repository_key(*repository) && p.content_groups()
            is None,
{
    match StackableRepoProvider::try_from(repository) {
        Ok(p) => Some(p),
        Err(_) => None,
    }
}

/// The providers of the repositories that hold a valid definition, in
/// the order of the repositories.
pub fn convert_all(repositories: &Vec<Repository>) -> (r: Vec<StackableRepoProvider>)
    ensures
        r@.map_values(|p: StackableRepoProvider| provider_key(p)) == converted_keys(
            repositories@,
        ),
        forall|i: int| 0 <= i < r@.len() ==> (#[trigger] r@[i]).content_groups() is None,
{
    let mut r: Vec<StackableRepoProvider> = Vec::new();
    let mut i: usize = 0;
    while i < repositories.len()
        invariant
            i <= repositories@.len(),
            r@.map_values(|p: StackableRepoProvider| provider_key(p)) == converted_keys(
                repositories@.subrange(0, i as int),
            ),
            forall|k: int| 0 <= k < r@.len() ==> (#[trigger] r@[k]).content_groups() is None,
        decreases repositories@.len() - i,
    {
        assert(repositories@.subrange(0, i + 1).drop_last() =~= repositories@.subrange(0, i as int));
        let ghost old_r = r@;
        if let Some(p) = convert_to_repo_provider(&repositories[i]) {
            r.push(p);
            assert(r@.map_values(|p: StackableRepoProvider| provider_key(p)) =~= old_r.map_values(
                |p: StackableRepoProvider| provider_key(p),
            ).push(provider_key(p)));
        }
        i = i + 1;
    }
    assert(repositories@.subrange(0, i as int) =~= repositories@);
    r
}

/// The providers of the repositories that hold a valid definition,
/// sorted by their names so that the search for a package is
/// deterministic.
pub fn repository_providers(repositories: &Vec<Repository>) -> (r: Vec<StackableRepoProvider>)
    ensures
        names_sorted(r@),
        exists|c: Seq<StackableRepoProvider>|
            c.map_values(|p: StackableRepoProvider| provider_key(p)) == converted_keys(repositories@)
                && #[trigger] c.to_multiset() == r@.to_multiset(),
        forall|i: int| 0 <= i < r@.len() ==> (#[trigger] r@[i]).content_groups() is None,
{
    broadcast use vstd::seq_lib::group_to_multiset_ensures;

    let converted = convert_all(repositories);
    let ghost c = converted@;
    let r = sort_by_name(converted);
    assert forall|i: int| 0 <= i < r@.len() implies (#[trigger] r@[i]).content_groups() is None by {
        assert(r@.to_multiset().count(r@[i]) > 0);
        assert(c.contains(r@[i]));
    }
    r
}

/// The provider provides the package according to the metadata it loaded.
pub open spec fn provides(p: StackableRepoProvider, package: Package) -> bool {
    p.content_groups() matches Some(c) && find_package(c, package.product@, package.version@) is Some
}

/// Returns the first provider that provides the package according to the
/// metadata it loaded; a provider without metadata provides nothing.
pub fn choose_repo_provider(providers: &Vec<StackableRepoProvider>, package: &Package) -> (r: Option<usize>)
    ensures
        match r {
            Some(i) => i < providers@.len() && provides(providers@[i as int], *package)
                && forall|j: int| 0 <= j < i ==> !provides(#[trigger] providers@[j], *package),
            None => forall|j: int| 0 <= j < providers@.len() ==> !provides(#[trigger] providers@[j], *package),
        },
{
    let mut i: usize = 0;
    while i < providers.len()
        invariant
            i <= providers@.len(),
            forall|j: int| 0 <= j < i ==> !provides(#[trigger] providers@[j], *package),
        decreases providers@.len() - i,
    {
        if let Some(true) = providers[i].provides_package(package) {
            return Some(i);
        }
        i = i + 1;
    }
    None
}

} // verus!
