//! The hash collections of `bevy_platform` that the logic keeps, declared to
//! Verus.  Each wrapper below makes one call into the crate; its contract is
//! what the crate's source (a thin new-type over `hashbrown`) shows of that
//! call, stated over the names `str_map_contents` and `id_set_contents`.
use vstd::prelude::*;
use bevy_platform::collections::{HashMap, HashSet};
use bevy_platform::hash::FixedHasher;

verus! {

#[verifier::external_type_specification]
#[verifier::external_body]
pub struct ExFixedHasher(FixedHasher);

#[verifier::external_type_specification]
#[verifier::external_body]
#[verifier::reject_recursive_types(K)]
#[verifier::reject_recursive_types(V)]
#[verifier::reject_recursive_types(S)]
pub struct ExHashMap<K, V, S>(HashMap<K, V, S>);

#[verifier::external_type_specification]
#[verifier::external_body]
#[verifier::reject_recursive_types(T)]
#[verifier::reject_recursive_types(S)]
pub struct ExHashSet<T, S>(HashSet<T, S>);

/// What a map from string keys to lists of entity ids holds: each key, by its
/// characters, to the list stored under it.
pub uninterp spec fn str_map_contents(m: HashMap<String, Vec<u64>>) -> Map<Seq<char>, Seq<u64>>;

/// The map with no keys.
pub open spec fn empty_str_map() -> Map<Seq<char>, Seq<u64>> {
    Map::empty()
}

/// What a set of entity ids holds.
pub uninterp spec fn id_set_contents(s: HashSet<u64>) -> Set<u64>;

/// `HashMap::new`: an empty map.
#[verifier::external_body]
pub(crate) fn str_map_new() -> (res: HashMap<String, Vec<u64>>)
    ensures
        str_map_contents(res) == empty_str_map(),
{
    HashMap::new()
}

/// `HashMap::insert`: stores `v` under `k` and hands back what was there.
#[verifier::external_body]
pub(crate) fn str_map_insert(m: &mut HashMap<String, Vec<u64>>, k: String, v: Vec<u64>) -> (r: Option<Vec<u64>>)
    ensures
        str_map_contents(*final(m)) == str_map_contents(*old(m)).insert(k@, v@),
        r is Some <==> str_map_contents(*old(m)).contains_key(k@),
        r is Some ==> r->0@ == str_map_contents(*old(m))[k@],
{
    m.insert(k, v)
}

/// `HashMap::remove`: takes out the list stored under `k`, if any.
#[verifier::external_body]
pub(crate) fn str_map_remove(m: &mut HashMap<String, Vec<u64>>, k: &String) -> (r: Option<Vec<u64>>)
    ensures
        str_map_contents(*final(m)) == str_map_contents(*old(m)).remove(k@),
        r is Some <==> str_map_contents(*old(m)).contains_key(k@),
        r is Some ==> r->0@ == str_map_contents(*old(m))[k@],
{
    m.remove(k)
}

/// `HashSet::new`: an empty set.
#[verifier::external_body]
pub(crate) fn id_set_new() -> (res: HashSet<u64>)
    ensures
        id_set_contents(res) == Set::<u64>::empty(),
{
    HashSet::new()
}

/// `HashSet::insert`: adds `v`; true when it was not there before.
#[verifier::external_body]
pub(crate) fn id_set_insert(s: &mut HashSet<u64>, v: u64) -> (res: bool)
    ensures
        id_set_contents(*final(s)) == id_set_contents(*old(s)).insert(v),
        res == !id_set_contents(*old(s)).contains(v),
{
    s.insert(v)
}

/// `HashSet::remove`: takes `v` out; true when it was there.
#[verifier::external_body]
pub(crate) fn id_set_remove(s: &mut HashSet<u64>, v: &u64) -> (res: bool)
    ensures
        id_set_contents(*final(s)) == id_set_contents(*old(s)).remove(*v),
        res == id_set_contents(*old(s)).contains(*v),
{
    s.remove(v)
}

/// `HashSet::contains`.
#[verifier::external_body]
pub(crate) fn id_set_contains(s: &HashSet<u64>, v: &u64) -> (res: bool)
    ensures
        res == id_set_contents(*s).contains(*v),
{
    s.contains(v)
}

/// `HashSet::clear`: the set is left empty.
#[verifier::external_body]
pub(crate) fn id_set_clear(s: &mut HashSet<u64>)
    ensures
        id_set_contents(*final(s)) == Set::<u64>::empty(),
{
    s.clear()
}

/// `HashSet::is_empty`.
#[verifier::external_body]
pub(crate) fn id_set_is_empty(s: &HashSet<u64>) -> (res: bool)
    ensures
        res == (id_set_contents(*s) == Set::<u64>::empty()),
{
    s.is_empty()
}

/// `HashSet::iter` followed by `next`: some element of the set, or `None`
/// when it is empty.  Which element comes first depends on the hash order,
/// which the contract leaves open.
#[verifier::external_body]
pub(crate) fn id_set_first(s: &HashSet<u64>) -> (res: Option<u64>)
    ensures
        res is None <==> id_set_contents(*s) == Set::<u64>::empty(),
        res is Some ==> id_set_contents(*s).contains(res->0),
{
    s.iter().next().copied()
}

/// `HashSet::iter`, each element copied into a `Vec`: every element once, in
/// an order that the contract leaves open.
#[verifier::external_body]
pub(crate) fn id_set_to_vec(s: &HashSet<u64>) -> (res: Vec<u64>)
    ensures
        res@.to_set() == id_set_contents(*s),
        res@.no_duplicates(),
{
    s.iter().copied().collect()
}

} // verus!
