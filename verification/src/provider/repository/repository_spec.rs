//! The Stackable repository custom resource.
use vstd::prelude::*;
use crate::provider::states::pod::creating_config::{entries_map, pair_views};
use crate::text::str_eq;

verus! {

/// The kinds of repositories.
#[derive(Clone, Copy, Debug, PartialEq, Eq, Structural)]
pub enum RepoType {
    StackableRepo,
}

impl RepoType {
    /// The default repository type: a Stackable repository.
    pub fn default() -> (r: RepoType)
        ensures
            r == RepoType::StackableRepo,
    {
        RepoType::StackableRepo
    }
}

/// The specification of a repository: its type and its properties, such
/// as `url`.
#[derive(Debug)]
pub struct RepositorySpec {
    pub repo_type: RepoType,
    pub properties: Vec<(String, String)>,
}

/// A repository object: its name and its specification.
#[derive(Debug)]
pub struct Repository {
    pub name: String,
    pub spec: RepositorySpec,
}

impl RepositorySpec {
    /// The properties as a map; a later entry replaces an earlier one with
    /// the same key.
    pub open spec fn property_map(&self) -> Map<Seq<char>, Seq<char>> {
        entries_map(pair_views(self.properties@))
    }

    /// The value of a property.
    pub fn get_property(&self, key: &str) -> (r: Option<&String>)
        ensures
            match r {
                Some(v) => self.property_map().contains_key(key@) && self.property_map()[key@]
                    == v@,
                None => !self.property_map().contains_key(key@),
            },
    {
        let mut i = self.properties.len();
        while i > 0
            invariant
                i <= self.properties@.len(),
                forall|j: int|
                    i <= j < self.properties@.len() ==> #[trigger] self.properties@[j].0@ != key@,
            decreases i,
        {
            i = i - 1;
            if str_eq(self.properties[i].0.as_str(), key) {
                proof {
                    lemma_entries_map_last(pair_views(self.properties@), i as int, key@);
                }
                return Some(&self.properties[i].1);
            }
        }
        proof {
            lemma_entries_map_absent(pair_views(self.properties@), key@);
        }
        None
    }
}

/// The value of a key in the map of entries is that of its last entry.
pub proof fn lemma_entries_map_last(e: Seq<(Seq<char>, Seq<char>)>, i: int, k: Seq<char>)
    requires
        0 <= i < e.len(),
        e[i].0 == k,
        forall|j: int| i < j < e.len() ==> #[trigger] e[j].0 != k,
    ensures
        entries_map(e).contains_key(k),
        entries_map(e)[k] == e[i].1,
    decreases e.len(),
{
    if i < e.len() - 1 {
        lemma_entries_map_last(e.drop_last(), i, k);
    }
}

/// A key without an entry is not in the map of entries.
pub proof fn lemma_entries_map_absent(e: Seq<(Seq<char>, Seq<char>)>, k: Seq<char>)
    requires
        forall|j: int| 0 <= j < e.len() ==> #[trigger] e[j].0 != k,
    ensures
        !entries_map(e).contains_key(k),
    decreases e.len(),
{
    if e.len() > 0 {
        lemma_entries_map_absent(e.drop_last(), k);
    }
}

} // verus!
