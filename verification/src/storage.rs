//! The maps and sets that hold parsed resources and the tables that translate
//! the keys of the files into resource ids.  They are `rustc_hash` maps; what
//! they hold is the map or set that `@` gives.
use vstd::prelude::*;

use rustc_hash::{FxBuildHasher, FxHashMap, FxHashSet};

verus! {

/// The hasher of `rustc_hash`'s maps and sets.
#[verifier::external_type_specification]
#[verifier::external_body]
pub struct ExFxBuildHasher(FxBuildHasher);

/// A table keyed by text, read by the text of the keys.
pub open spec fn keyed<V>(m: Map<String, V>) -> Map<Seq<char>, V> {
    Map::new(
        |k: Seq<char>| exists|s: String| #[trigger] m.contains_key(s) && s@ == k,
        |k: Seq<char>| m[choose|s: String| #[trigger] m.contains_key(s) && s@ == k],
    )
}

/// A set of journey keys (number, administration), read by the text of the administration.
pub open spec fn keyed_set(m: Set<(i32, String)>) -> Set<(i32, Seq<char>)> {
    Set::new(|k: (i32, Seq<char>)| exists|e: (i32, String)| #[trigger] m.contains(e) && e.0 == k.0 && e.1@ == k.1)
}

/// A map from resource ids to resources.
pub type IdMap<V> = FxHashMap<i32, V>;

/// A table from the text keys of a file to resource ids.
pub type TextMap = FxHashMap<String, i32>;

/// An empty map (`FxHashMap::default`).
#[verifier::external_body]
pub(crate) fn id_map_new<V>() -> (r: IdMap<V>)
    ensures
        r@.dom() == Set::<i32>::empty(),
{
    FxHashMap::default()
}

/// `HashMap::insert` on a map keyed by `i32`: the value under `k` becomes `v`;
/// the previous one, if any, is returned.
#[verifier::external_body]
pub(crate) fn id_map_insert<V>(m: &mut FxHashMap<i32, V>, k: i32, v: V) -> (r: Option<V>)
    ensures
        final(m)@ == old(m)@.insert(k, v),
        r == (if old(m)@.contains_key(k) { Some(old(m)@[k]) } else { None }),
{
    m.insert(k, v)
}

/// `HashMap::remove` on a map keyed by `i32`: the value under `k` leaves the map
/// and is returned.
#[verifier::external_body]
pub(crate) fn id_map_remove<V>(m: &mut FxHashMap<i32, V>, k: i32) -> (r: Option<V>)
    ensures
        final(m)@ == old(m)@.remove(k),
        r == (if old(m)@.contains_key(k) { Some(old(m)@[k]) } else { None }),
{
    m.remove(&k)
}

/// `HashMap::get` on a map keyed by `i32`.
#[verifier::external_body]
pub(crate) fn id_map_get<V>(m: &FxHashMap<i32, V>, k: i32) -> (r: Option<&V>)
    ensures
        r == (if m@.contains_key(k) { Some(&m@[k]) } else { None }),
{
    m.get(&k)
}

/// The keys of a map keyed by `i32`, each once, in the order the map walks them
/// (`HashMap::keys`, collected).
#[verifier::external_body]
pub(crate) fn id_map_keys<V>(m: &FxHashMap<i32, V>) -> (r: Vec<i32>)
    ensures
        r@.to_set() == m@.dom(),
        r@.no_duplicates(),
{
    m.keys().copied().collect()
}

/// An empty table keyed by text.
#[verifier::external_body]
pub(crate) fn text_map_new() -> (r: TextMap)
    ensures
        keyed(r@).dom() == Set::<Seq<char>>::empty(),
{
    FxHashMap::default()
}

/// `HashMap::insert` on a table keyed by text.
#[verifier::external_body]
pub(crate) fn text_map_insert(m: &mut FxHashMap<String, i32>, k: String, v: i32) -> (r: Option<i32>)
    ensures
        keyed(final(m)@) == keyed(old(m)@).insert(k@, v),
        r == (if keyed(old(m)@).contains_key(k@) { Some(keyed(old(m)@)[k@]) } else { None }),
{
    m.insert(k, v)
}

/// `HashMap::get` on a table keyed by text.
#[verifier::external_body]
pub(crate) fn text_map_get(m: &FxHashMap<String, i32>, k: &str) -> (r: Option<i32>)
    ensures
        r == (if keyed(m@).contains_key(k@) { Some(keyed(m@)[k@]) } else { None }),
{
    m.get(k).copied()
}

/// An empty set of journey keys.
#[verifier::external_body]
pub(crate) fn journey_set_new() -> (r: FxHashSet<(i32, String)>)
    ensures
        keyed_set(r@) == Set::<(i32, Seq<char>)>::empty(),
{
    FxHashSet::default()
}

/// `HashSet::insert` on a set of journey keys.
#[verifier::external_body]
pub(crate) fn journey_set_insert(m: &mut FxHashSet<(i32, String)>, k: (i32, String)) -> (r: bool)
    ensures
        keyed_set(final(m)@) == keyed_set(old(m)@).insert((k.0, k.1@)),
        r == !keyed_set(old(m)@).contains((k.0, k.1@)),
{
    m.insert(k)
}

/// `HashSet::contains` on a set of journey keys.
#[verifier::external_body]
pub(crate) fn journey_set_contains(m: &FxHashSet<(i32, String)>, k: &(i32, String)) -> (r: bool)
    ensures
        r == keyed_set(m@).contains((k.0, k.1@)),
{
    m.contains(k)
}

/// The resources read from a file, by id.
#[derive(Debug)]
pub struct ResourceStorage<T> {
    data: FxHashMap<i32, T>,
}

impl<T> ResourceStorage<T> {
    pub closed spec fn view(&self) -> Map<i32, T> {
        self.data@
    }

    pub fn new(data: FxHashMap<i32, T>) -> (r: Self)
        ensures
            r.view() == data@,
    {
        ResourceStorage { data }
    }

    pub fn data(&self) -> (r: &FxHashMap<i32, T>)
        ensures
            r@ == self.view(),
    {
        &self.data
    }

    pub fn find(&self, id: i32) -> (r: Option<&T>)
        ensures
            r == (if self.view().contains_key(id) { Some(&self.view()[id]) } else { None }),
    {
        id_map_get(&self.data, id)
    }
}

/// A map keyed by a pair of numbers.
pub type PairMap<V> = FxHashMap<(i32, i32), V>;

/// An empty map keyed by pairs (`FxHashMap::default`).
#[verifier::external_body]
pub(crate) fn pair_map_new<V>() -> (r: PairMap<V>)
    ensures
        r@.dom() == Set::<(i32, i32)>::empty(),
{
    FxHashMap::default()
}

/// `HashMap::insert` on a map keyed by pairs: the value under `k` becomes `v`;
/// the previous one, if any, is returned.
#[verifier::external_body]
pub(crate) fn pair_map_insert<V>(m: &mut FxHashMap<(i32, i32), V>, k: (i32, i32), v: V) -> (r: Option<V>)
    ensures
        final(m)@ == old(m)@.insert(k, v),
        r == (if old(m)@.contains_key(k) { Some(old(m)@[k]) } else { None }),
{
    m.insert(k, v)
}

/// `HashMap::get` on a map keyed by pairs.
#[verifier::external_body]
pub(crate) fn pair_map_get<V>(m: &FxHashMap<(i32, i32), V>, k: (i32, i32)) -> (r: Option<&V>)
    ensures
        r == (if m@.contains_key(k) { Some(&m@[k]) } else { None }),
{
    m.get(&k)
}

/// `HashMap::is_empty` on a map keyed by pairs.
#[verifier::external_body]
pub(crate) fn pair_map_is_empty<V>(m: &FxHashMap<(i32, i32), V>) -> (r: bool)
    ensures
        r == (m@.dom() == Set::<(i32, i32)>::empty()),
{
    m.is_empty()
}

/// The resources read from a file, by a pair of numbers.
#[derive(Debug)]
pub struct PairStorage<T> {
    data: FxHashMap<(i32, i32), T>,
}

impl<T> PairStorage<T> {
    pub closed spec fn view(&self) -> Map<(i32, i32), T> {
        self.data@
    }

    pub fn new(data: FxHashMap<(i32, i32), T>) -> (r: Self)
        ensures
            r.view() == data@,
    {
        PairStorage { data }
    }

    pub fn data(&self) -> (r: &FxHashMap<(i32, i32), T>)
        ensures
            r@ == self.view(),
    {
        &self.data
    }
}

} // verus!
