//! Short sequences of values, kept inline while they are short.

use vstd::prelude::*;
use smallvec::SmallVec;
use crate::value::Value;

verus! {

/// A sequence of values that are kept inline as long as there are at most two of them.
///
/// It holds a `SmallVec` of the `smallvec` crate.
#[verifier::external_body]
#[derive(Debug)]
pub struct SmallValues {
    items: SmallVec<[Value; 2]>,
}

/// The values of a short sequence, in order.
pub uninterp spec fn small_items(values: SmallValues) -> Seq<Value>;

impl SmallValues {
    /// Calls `SmallVec::from_vec`, which takes over the items of a vector in their order.
    #[verifier::external_body]
    pub(crate) fn from_vec(items: Vec<Value>) -> (r: SmallValues)
        ensures
            small_items(r) == items@,
    {
        SmallValues { items: SmallVec::from_vec(items) }
    }

    /// Calls `SmallVec::as_slice`, which shows the items in their order.
    #[verifier::external_body]
    pub(crate) fn as_slice(&self) -> (r: &[Value])
        ensures
            r@ == small_items(*self),
    {
        self.items.as_slice()
    }

    /// Calls `SmallVec::into_vec`, which hands out the items in their order.
    #[verifier::external_body]
    pub(crate) fn into_vec(self) -> (r: Vec<Value>)
        ensures
            r@ == small_items(self),
    {
        self.items.into_vec()
    }
}

} // verus!
