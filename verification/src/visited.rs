//! The set of objects that are being printed, by which cycles are noticed.

use vstd::prelude::*;
use ahash::AHashSet;

verus! {

/// The hash state of the `ahash` crate.
#[verifier::external_type_specification]
#[verifier::external_body]
pub struct ExRandomState(ahash::RandomState);

/// The hash set of the `ahash` crate.
#[verifier::external_type_specification]
#[verifier::external_body]
#[verifier::reject_recursive_types(T)]
#[verifier::reject_recursive_types(S)]
pub struct ExAHashSet<T, S>(ahash::AHashSet<T, S>);

/// The numbers a hash set holds.
pub uninterp spec fn set_items(set: AHashSet<usize>) -> Set<usize>;

/// Calls `AHashSet::new`, which makes an empty set.
#[verifier::external_body]
pub(crate) fn new_set() -> (r: AHashSet<usize>)
    ensures
        set_items(r) == Set::<usize>::empty(),
{
    AHashSet::new()
}

/// Calls `insert` on the set behind an `AHashSet`, which adds a number and says whether it
/// was missing.
#[verifier::external_body]
pub(crate) fn set_insert(set: &mut AHashSet<usize>, item: usize) -> (r: bool)
    ensures
        set_items(*final(set)) == set_items(*old(set)).insert(item),
        r == !set_items(*old(set)).contains(item),
{
    set.insert(item)
}

/// Calls `remove` on the set behind an `AHashSet`, which takes a number out and says whether
/// it was there.
#[verifier::external_body]
pub(crate) fn set_remove(set: &mut AHashSet<usize>, item: usize) -> (r: bool)
    ensures
        set_items(*final(set)) == set_items(*old(set)).remove(item),
        r == set_items(*old(set)).contains(item),
{
    set.remove(&item)
}

} // verus!
