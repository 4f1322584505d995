//! The handles of the running pods: for each pod, the units of its
//! containers.
use vstd::prelude::*;
use crate::provider::systemdmanager::service::SystemdService;
use crate::text::{str_eq, views};

verus! {

/// The view of a key: a kind, then two texts.
pub type KeyView = (int, Seq<char>, Seq<char>);

/// Keys that can be compared and copied by their views.
pub trait HandleKey: Sized {
    spec fn key_view(&self) -> KeyView;

    fn same_key(&self, other: &Self) -> (r: bool)
        ensures
            r == (self.key_view() == other.key_view()),
    ;

    fn copy_key(&self) -> (r: Self)
        ensures
            r.key_view() == self.key_view(),
    ;
}

/// A pod, by its namespace and name.
#[derive(Debug)]
pub struct PodKey {
    pub namespace: String,
    pub name: String,
}

/// A container of a pod, by its kind and name.
#[derive(Debug)]
pub enum ContainerKey {
    Init(String),
    App(String),
}

impl HandleKey for PodKey {
    open spec fn key_view(&self) -> KeyView {
        (0, self.namespace@, self.name@)
    }

    fn same_key(&self, other: &Self) -> (r: bool) {
        str_eq(self.namespace.as_str(), other.namespace.as_str()) && str_eq(self.name.as_str(), other.name.as_str())
    }

    fn copy_key(&self) -> (r: Self) {
        PodKey { namespace: self.namespace.clone(), name: self.name.clone() }
    }
}

impl HandleKey for ContainerKey {
    open spec fn key_view(&self) -> KeyView {
        match self {
            ContainerKey::Init(n) => (0, n@, Seq::empty()),
            ContainerKey::App(n) => (1, n@, Seq::empty()),
        }
    }

    fn same_key(&self, other: &Self) -> (r: bool) {
        match (self, other) {
            (ContainerKey::Init(a), ContainerKey::Init(b)) => str_eq(a.as_str(), b.as_str()),
            (ContainerKey::App(a), ContainerKey::App(b)) => str_eq(a.as_str(), b.as_str()),
            _ => false,
        }
    }

    fn copy_key(&self) -> (r: Self) {
        match self {
            ContainerKey::Init(n) => ContainerKey::Init(n.clone()),
            ContainerKey::App(n) => ContainerKey::App(n.clone()),
        }
    }
}

/// The entries with their keys viewed.
pub open spec fn key_entries<K: HandleKey, V>(e: Seq<(K, V)>) -> Seq<(KeyView, V)> {
    e.map_values(|p: (K, V)| (p.0.key_view(), p.1))
}

/// The map that a list of entries makes, later entries replacing earlier
/// ones with the same key.
pub open spec fn assoc<V>(e: Seq<(KeyView, V)>) -> Map<KeyView, V>
    decreases e.len(),
{
    if e.len() == 0 {
        Map::empty()
    } else {
        assoc(e.drop_last()).insert(e.last().0, e.last().1)
    }
}

/// The entries without those with key `k`.
pub open spec fn without<V>(e: Seq<(KeyView, V)>, k: KeyView) -> Seq<(KeyView, V)>
    decreases e.len(),
{
    if e.len() == 0 {
        Seq::empty()
    } else if e.last().0 == k {
        without(e.drop_last(), k)
    } else {
        without(e.drop_last(), k).push(e.last())
    }
}

/// Leaving out the entries with a key removes the key from the map.
pub proof fn lemma_assoc_without<V>(e: Seq<(KeyView, V)>, k: KeyView)
    ensures
        assoc(without(e, k)) == assoc(e).remove(k),
    decreases e.len(),
{
    if e.len() > 0 {
        let rest = e.drop_last();
        let x = e.last();
        lemma_assoc_without(rest, k);
        assert(assoc(e) == assoc(rest).insert(x.0, x.1));
        if x.0 == k {
            assert(without(e, k) == without(rest, k));
            assert(assoc(without(e, k)) =~= assoc(e).remove(k));
        } else {
            assert(without(e, k) == without(rest, k).push(x));
            assert(without(rest, k).push(x).drop_last() =~= without(rest, k));
            assert(assoc(without(e, k)) == assoc(without(rest, k)).insert(x.0, x.1));
            assert(assoc(without(e, k)) =~= assoc(e).remove(k));
        }
    } else {
        assert(assoc(without(e, k)) =~= assoc(e).remove(k));
    }
}

/// A map kept as a list of entries, keyed by `K`.
#[derive(Debug)]
pub struct KeyedList<K, V> {
    entries: Vec<(K, V)>,
}

impl<K: HandleKey, V> View for KeyedList<K, V> {
    type V = Map<KeyView, V>;

    closed spec fn view(&self) -> Map<KeyView, V> {
        assoc(key_entries(self.entries@))
    }
}

impl<K: HandleKey, V> KeyedList<K, V> {
    /// No entries.
    pub fn new() -> (r: Self)
        ensures
            r@ == Map::<KeyView, V>::empty(),
    {
        let r = KeyedList { entries: Vec::new() };
        assert(key_entries(r.entries@) =~= Seq::empty());
        r
    }

    /// The value for `k`.
    pub fn get(&self, k: &K) -> (r: Option<&V>)
        ensures
            match r {
                Some(v) => self@.contains_key(k.key_view()) && self@[k.key_view()] == *v,
                None => !self@.contains_key(k.key_view()),
            },
    {
        let ghost e = key_entries(self.entries@);
        let mut i = self.entries.len();
        assert(e.subrange(0, i as int) =~= e);
        while i > 0
            invariant
                i <= self.entries@.len(),
                e == key_entries(self.entries@),
                assoc(e).contains_key(k.key_view()) == assoc(e.subrange(0, i as int)).contains_key(k.key_view()),
                assoc(e).contains_key(k.key_view()) ==> assoc(e)[k.key_view()] == assoc(e.subrange(0, i as int))[k.key_view()],
            decreases i,
        {
            assert(e.subrange(0, i as int).drop_last() =~= e.subrange(0, i - 1));
            if self.entries[i - 1].0.same_key(k) {
                return Some(&self.entries[i - 1].1);
            }
            i = i - 1;
        }
        None
    }

    /// Removes the entry for `k` and returns its value.
    pub fn remove(&mut self, k: &K) -> (r: Option<V>)
        ensures
            final(self)@ == old(self)@.remove(k.key_view()),
            match r {
                Some(v) => old(self)@.contains_key(k.key_view()) && old(self)@[k.key_view()] == v,
                None => !old(self)@.contains_key(k.key_view()),
            },
    {
        let ghost orig = key_entries(self.entries@);
        let ghost kv = k.key_view();
        let mut removed: Option<V> = None;
        let mut i: usize = 0;
        let ghost mut j: int = 0;
        assert(orig.subrange(0, 0) =~= Seq::<(KeyView, V)>::empty());
        assert(orig.subrange(0, orig.len() as int) =~= orig);
        while i < self.entries.len()
            invariant
                0 <= j <= orig.len(),
                kv == k.key_view(),
                i == without(orig.subrange(0, j), kv).len(),
                key_entries(self.entries@) == without(orig.subrange(0, j), kv) + orig.subrange(j, orig.len() as int),
                match removed {
                    Some(v) => assoc(orig.subrange(0, j)).contains_key(kv) && assoc(orig.subrange(0, j))[kv] == v,
                    None => !assoc(orig.subrange(0, j)).contains_key(kv),
                },
            decreases self.entries@.len() - i,
        {
            let ghost cur = key_entries(self.entries@);
            assert(cur[i as int] == orig[j]);
            assert(orig.subrange(0, j + 1).drop_last() =~= orig.subrange(0, j));
            if self.entries[i].0.same_key(k) {
                let ghost before_remove = self.entries@;
                let (_, v) = self.entries.remove(i);
                removed = Some(v);
                proof {
                    assert(key_entries(self.entries@) =~= cur.remove(i as int));
                    assert(orig.subrange(0, j + 1).last() == orig[j]);
                    assert(orig[j].0 == kv);
                    assert(without(orig.subrange(0, j + 1), kv) == without(orig.subrange(0, j), kv));
                    assert(cur.remove(i as int) =~= without(orig.subrange(0, j), kv) + orig.subrange(j + 1, orig.len() as int));
                    assert(assoc(orig.subrange(0, j + 1)) == assoc(orig.subrange(0, j)).insert(orig[j].0, orig[j].1));
                    assert(orig[j].1 == v);
                }
            } else {
                i = i + 1;
                proof {
                    assert(key_entries(self.entries@) =~= without(orig.subrange(0, j + 1), kv) + orig.subrange(j + 1, orig.len() as int));
                }
            }
            proof {
                j = j + 1;
            }
        }
        proof {
            assert(orig.subrange(j, orig.len() as int).len() == 0);
            assert(key_entries(self.entries@) =~= without(orig.subrange(0, j), kv));
            assert(orig.subrange(0, j) =~= orig);
            lemma_assoc_without(orig, kv);
        }
        removed
    }

    /// Sets the value for `k`, replacing an earlier one.
    pub fn insert(&mut self, k: K, v: V)
        ensures
            final(self)@ == old(self)@.insert(k.key_view(), v),
    {
        let _ = self.remove(&k);
        let ghost before = key_entries(self.entries@);
        let ghost kv = k.key_view();
        self.entries.push((k, v));
        assert(key_entries(self.entries@) =~= before.push((kv, v)));
        assert(before.push((kv, v)).drop_last() =~= before);
        assert(assoc(before.push((kv, v))) == assoc(before).insert(kv, v));
        assert(self@ =~= old(self)@.remove(kv).insert(kv, v));
    }

    /// The entries; a key may occur more than once, the last entry for it
    /// counts.
    pub fn entries(&self) -> (r: &Vec<(K, V)>)
        ensures
            assoc(key_entries(r@)) == self@,
    {
        &self.entries
    }
}

/// A handle to a running container: the name of its service unit and the
/// service itself.
#[derive(Debug)]
pub struct ContainerHandle {
    pub service_unit: String,
    pub systemd_service: SystemdService,
}

impl ContainerHandle {
    /// A copy of the handle, for the same unit and service.
    pub fn copy(&self) -> (r: ContainerHandle)
        ensures
            r.service_unit@ == self.service_unit@,
            r.systemd_service.file_name() == self.systemd_service.file_name(),
    {
        ContainerHandle { service_unit: self.service_unit.clone(), systemd_service: self.systemd_service.copy() }
    }
}

/// The containers of a running pod.
pub type PodHandle = KeyedList<ContainerKey, ContainerHandle>;

/// Maps a pod key to a pod handle, which maps a container key to a
/// container handle.
#[derive(Debug)]
pub struct PodHandleMap {
    pub handles: KeyedList<PodKey, PodHandle>,
}

/// The pod handles by their views: for each pod the containers.
pub open spec fn handle_views(m: Map<KeyView, PodHandle>) -> Map<KeyView, Map<KeyView, ContainerHandle>> {
    Map::new(|k: KeyView| m.contains_key(k), |k: KeyView| m[k]@)
}

impl View for PodHandleMap {
    type V = Map<KeyView, Map<KeyView, ContainerHandle>>;

    open spec fn view(&self) -> Map<KeyView, Map<KeyView, ContainerHandle>> {
        handle_views(self.handles@)
    }
}

impl PodHandleMap {
    /// No pods.
    pub fn new() -> (r: PodHandleMap)
        ensures
            r@ == Map::<KeyView, Map<KeyView, ContainerHandle>>::empty(),
    {
        let r = PodHandleMap { handles: KeyedList::new() };
        assert(r@ =~= Map::<KeyView, Map<KeyView, ContainerHandle>>::empty());
        r
    }

    /// Returns the pod handle for the given key or `None` if not found.
    pub fn get(&self, pod_key: &PodKey) -> (r: Option<&PodHandle>)
        ensures
            match r {
                Some(h) => self@.contains_key(pod_key.key_view()) && self@[pod_key.key_view()] == h@,
                None => !self@.contains_key(pod_key.key_view()),
            },
    {
        self.handles.get(pod_key)
    }

    /// Removes the pod handle with the given key and returns it.
    pub fn remove(&mut self, pod_key: &PodKey) -> (r: Option<PodHandle>)
        ensures
            final(self)@ == old(self)@.remove(pod_key.key_view()),
            match r {
                Some(h) => old(self)@.contains_key(pod_key.key_view()) && old(self)@[pod_key.key_view()] == h@,
                None => !old(self)@.contains_key(pod_key.key_view()),
            },
    {
        let r = self.handles.remove(pod_key);
        assert(self@ =~= old(self)@.remove(pod_key.key_view()));
        r
    }

    /// Inserts a new container handle for the given pod and container key.
    /// A pod handle is created if not already existent.
    pub fn insert_container_handle(&mut self, pod_key: &PodKey, container_key: &ContainerKey, container_handle: ContainerHandle)
        ensures
            final(self)@ == old(self)@.insert(
                pod_key.key_view(),
                (if old(self)@.contains_key(pod_key.key_view()) {
                    old(self)@[pod_key.key_view()]
                } else {
                    Map::empty()
                }).insert(container_key.key_view(), container_handle),
            ),
    {
        let mut pod_handle = match self.handles.remove(pod_key) {
            Some(h) => h,
            None => KeyedList::new(),
        };
        pod_handle.insert(container_key.copy_key(), container_handle);
        self.handles.insert(pod_key.copy_key(), pod_handle);
        assert(self@ =~= old(self)@.insert(
            pod_key.key_view(),
            (if old(self)@.contains_key(pod_key.key_view()) {
                old(self)@[pod_key.key_view()]
            } else {
                Map::empty()
            }).insert(container_key.key_view(), container_handle),
        ));
    }

    /// Returns the container handle with the given pod and container key or
    /// `None` if not found.
    pub fn container_handle(&self, pod_key: &PodKey, container_key: &ContainerKey) -> (r: Option<&ContainerHandle>)
        ensures
            match r {
                Some(h) => self@.contains_key(pod_key.key_view()) && self@[pod_key.key_view()].contains_key(
                    container_key.key_view(),
                ) && self@[pod_key.key_view()][container_key.key_view()] == *h,
                None => !(self@.contains_key(pod_key.key_view()) && self@[pod_key.key_view()].contains_key(
                    container_key.key_view(),
                )),
            },
    {
        match self.handles.get(pod_key) {
            Some(h) => h.get(container_key),
            None => None,
        }
    }
}

/// The entry at `k` is the last one with its key.
pub open spec fn last_for_key<V>(e: Seq<(KeyView, V)>, k: int) -> bool {
    &&& 0 <= k < e.len()
    &&& forall|j: int| k < j < e.len() ==> #[trigger] e[j].0 != e[k].0
}

/// The last entry for a key gives the value of that key.
pub proof fn lemma_last_entry_counts<V>(e: Seq<(KeyView, V)>, k: int)
    requires
        last_for_key(e, k),
    ensures
        assoc(e).contains_key(e[k].0),
        assoc(e)[e[k].0] == e[k].1,
    decreases e.len(),
{
    if k < e.len() - 1 {
        assert(e.drop_last()[k] == e[k]);
        assert forall|j: int| k < j < e.drop_last().len() implies #[trigger] e.drop_last()[j].0 != e.drop_last()[k].0 by {
            assert(e.drop_last()[j] == e[j]);
        }
        assert(e[e.len() - 1].0 != e[k].0);
        lemma_last_entry_counts(e.drop_last(), k);
    }
}

/// Each key of the map has a last entry, which gives its value.
pub proof fn lemma_key_has_last_entry<V>(e: Seq<(KeyView, V)>, c: KeyView)
    requires
        assoc(e).contains_key(c),
    ensures
        exists|k: int| #[trigger] last_for_key(e, k) && e[k].0 == c && e[k].1 == assoc(e)[c],
    decreases e.len(),
{
    if e.last().0 == c {
        assert(last_for_key(e, e.len() - 1));
    } else {
        lemma_key_has_last_entry(e.drop_last(), c);
        let k = choose|k: int| #[trigger] last_for_key(e.drop_last(), k) && e.drop_last()[k].0 == c
            && e.drop_last()[k].1 == assoc(e.drop_last())[c];
        assert(e.drop_last()[k] == e[k]);
        assert forall|j: int| k < j < e.len() implies #[trigger] e[j].0 != e[k].0 by {
            if j < e.len() - 1 {
                assert(e.drop_last()[j] == e[j]);
            }
        }
        assert(last_for_key(e, k));
    }
}

/// The units of the containers of a pod.
pub open spec fn service_units_of(m: Map<KeyView, ContainerHandle>) -> Set<Seq<char>> {
    Set::new(|u: Seq<char>| exists|c: KeyView| #[trigger] m.contains_key(c) && m[c].service_unit@ == u)
}

/// The units of the containers of a pod, each container once.
pub fn service_units(h: &PodHandle) -> (r: Vec<String>)
    ensures
        forall|u: Seq<char>| #[trigger] views(r@).contains(u) <==> service_units_of(h@).contains(u),
{
    let entries = h.entries();
    let ghost e = key_entries(entries@);
    let mut r: Vec<String> = Vec::new();
    let mut i: usize = 0;
    while i < entries.len()
        invariant
            i <= entries@.len(),
            e == key_entries(entries@),
            assoc(e) == h@,
            forall|u: Seq<char>| #[trigger] views(r@).contains(u) <==> exists|k: int|
                0 <= k < i && #[trigger] last_for_key(e, k) && e[k].1.service_unit@ == u,
        decreases entries@.len() - i,
    {
        let mut j: usize = i + 1;
        let mut later = false;
        while j < entries.len()
            invariant
                i < j <= entries@.len(),
                e == key_entries(entries@),
                !later ==> forall|m: int| i < m < j ==> #[trigger] e[m].0 != e[i as int].0,
                later ==> exists|m: int| i < m < j && #[trigger] e[m].0 == e[i as int].0,
            decreases entries@.len() - j,
        {
            if entries[j].0.same_key(&entries[i].0) {
                later = true;
                assert(e[j as int].0 == e[i as int].0);
            }
            j = j + 1;
        }
        let ghost before = r@;
        if !later {
            r.push(entries[i].1.service_unit.clone());
            assert(last_for_key(e, i as int));
        }
        proof {
            if later {
                let m = choose|m: int| i < m < entries@.len() && #[trigger] e[m].0 == e[i as int].0;
                assert(!last_for_key(e, i as int));
                assert(views(r@) == views(before));
            } else {
                assert(views(r@) =~= views(before).push(e[i as int].1.service_unit@));
            }
            assert forall|u: Seq<char>| #[trigger] views(r@).contains(u) <==> exists|k: int|
                0 <= k < i + 1 && #[trigger] last_for_key(e, k) && e[k].1.service_unit@ == u by {
                if views(r@).contains(u) {
                    let idx = choose|idx: int| 0 <= idx < views(r@).len() && views(r@)[idx] == u;
                    if idx < views(before).len() {
                        assert(views(before)[idx] == u);
                        assert(views(before).contains(u));
                        let k = choose|k: int| 0 <= k < i && #[trigger] last_for_key(e, k) && e[k].1.service_unit@ == u;
                        assert(0 <= k < i + 1 && last_for_key(e, k) && e[k].1.service_unit@ == u);
                    } else {
                        assert(!later);
                        assert(u == e[i as int].1.service_unit@);
                        assert(last_for_key(e, i as int));
                    }
                }
                if exists|k: int| 0 <= k < i + 1 && #[trigger] last_for_key(e, k) && e[k].1.service_unit@ == u {
                    let k = choose|k: int| 0 <= k < i + 1 && #[trigger] last_for_key(e, k) && e[k].1.service_unit@ == u;
                    if k < i {
                        assert(views(before).contains(u));
                        let idx = choose|idx: int| 0 <= idx < views(before).len() && views(before)[idx] == u;
                        assert(views(r@)[idx] == u);
                    } else {
                        assert(!later);
                        assert(views(r@)[views(r@).len() - 1] == u);
                    }
                }
            }
        }
        i = i + 1;
    }
    assert forall|u: Seq<char>| #[trigger] views(r@).contains(u) <==> service_units_of(h@).contains(u) by {
        if views(r@).contains(u) {
            let k = choose|k: int| 0 <= k < i && #[trigger] last_for_key(e, k) && e[k].1.service_unit@ == u;
            lemma_last_entry_counts(e, k);
            assert(h@.contains_key(e[k].0) && h@[e[k].0].service_unit@ == u);
        }
        if service_units_of(h@).contains(u) {
            let c = choose|c: KeyView| #[trigger] h@.contains_key(c) && h@[c].service_unit@ == u;
            lemma_key_has_last_entry(e, c);
            let k = choose|k: int| #[trigger] last_for_key(e, k) && e[k].0 == c && e[k].1 == assoc(e)[c];
            assert(0 <= k < i);
        }
    }
    r
}

/// The pod handles after a container handle was inserted, see
/// [`PodHandleMap::insert_container_handle`].
pub open spec fn with_container_handle(
    m: Map<KeyView, Map<KeyView, ContainerHandle>>,
    pod: KeyView,
    container: KeyView,
    h: ContainerHandle,
) -> Map<KeyView, Map<KeyView, ContainerHandle>> {
    m.insert(pod, (if m.contains_key(pod) { m[pod] } else { Map::empty() }).insert(container, h))
}

/// A container handle that was inserted is found under its pod and
/// container; the other containers of the pod and the other pods keep
/// their handles.
pub proof fn lemma_inserted_handle_found(
    m: Map<KeyView, Map<KeyView, ContainerHandle>>,
    pod: KeyView,
    container: KeyView,
    h: ContainerHandle,
    other_pod: KeyView,
    other_container: KeyView,
)
    ensures
        with_container_handle(m, pod, container, h).contains_key(pod),
        with_container_handle(m, pod, container, h)[pod].contains_key(container),
        with_container_handle(m, pod, container, h)[pod][container] == h,
        other_container != container && m.contains_key(pod) && m[pod].contains_key(other_container)
            ==> with_container_handle(m, pod, container, h)[pod].contains_key(other_container)
                && with_container_handle(m, pod, container, h)[pod][other_container] == m[pod][other_container],
        other_pod != pod ==> (with_container_handle(m, pod, container, h).contains_key(other_pod) == m.contains_key(other_pod)
            && (m.contains_key(other_pod) ==> with_container_handle(m, pod, container, h)[other_pod] == m[other_pod])),
{
}

/// A pod handle that was removed is not found any more; the other pods
/// keep their handles.
pub proof fn lemma_removed_pod_gone(m: Map<KeyView, Map<KeyView, ContainerHandle>>, pod: KeyView, other_pod: KeyView)
    ensures
        !m.remove(pod).contains_key(pod),
        other_pod != pod ==> m.remove(pod).contains_key(other_pod) == m.contains_key(other_pod),
        other_pod != pod && m.contains_key(other_pod) ==> m.remove(pod)[other_pod] == m[other_pod],
{
}

} // verus!
