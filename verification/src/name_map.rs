//! Numbers by name.

use vstd::prelude::*;
use ahash::AHashMap;

verus! {

/// The hash map of the `ahash` crate.
#[verifier::external_type_specification]
#[verifier::external_body]
#[verifier::reject_recursive_types(K)]
#[verifier::reject_recursive_types(V)]
#[verifier::reject_recursive_types(S)]
pub struct ExAHashMap<K, V, S>(ahash::AHashMap<K, V, S>);

/// The entries of a hash map.
pub uninterp spec fn map_items(map: AHashMap<String, usize>) -> Map<Seq<char>, usize>;

/// No entries.
pub open spec fn no_items() -> Map<Seq<char>, usize> {
    Map::empty()
}

/// Calls `AHashMap::new`, which makes an empty map.
#[verifier::external_body]
pub(crate) fn new_map() -> (r: AHashMap<String, usize>)
    ensures
        map_items(r) == no_items(),
{
    AHashMap::new()
}

/// Calls `AHashMap::insert`, which enters a value under a name, in place
/// of the one that was there.
#[verifier::external_body]
pub(crate) fn map_insert(map: &mut AHashMap<String, usize>, name: String, value: usize)
    ensures
        map_items(*final(map)) == map_items(*old(map)).insert(name@, value),
{
    map.insert(name, value);
}

/// Calls `AHashMap::clone`, which makes a map with the same entries.
#[verifier::external_body]
pub(crate) fn map_clone(map: &AHashMap<String, usize>) -> (r: AHashMap<String, usize>)
    ensures
        map_items(r) == map_items(*map),
{
    map.clone()
}

/// Calls `iter` on the map behind an `AHashMap`, which shows each entry once, in an order that
/// is left open.
#[verifier::external_body]
pub(crate) fn map_entries(map: &AHashMap<String, usize>) -> (r: Vec<(String, usize)>)
    ensures
        forall|i: int|
            0 <= i < r@.len() ==> map_items(*map).contains_pair((#[trigger] r@[i]).0@, r@[i].1),
        forall|name: Seq<char>| #[trigger]
            map_items(*map).dom().contains(name) ==> exists|i: int|
                0 <= i < r@.len() && (#[trigger] r@[i]).0@ == name,
        forall|i: int, j: int|
            0 <= i < j < r@.len() ==> (#[trigger] r@[i]).0@ != (#[trigger] r@[j]).0@,
{
    map.iter().map(|(name, value)| (name.clone(), *value)).collect()
}

} // verus!
