//! Re-applying a selector to the current data, without a memo's bookkeeping.

use crate::context::ReadContext;
use vstd::prelude::*;

verus! {

/// Something that picks a value out of a data graph of type `R` each time it
/// is asked, rather than holding the value.
///
/// `'a` is the lifetime of the borrow of the data graph; the value may borrow
/// from it.
pub trait ValueResolver<'a, R> {
    /// What the resolver picks.
    type Value;

    /// Whether the resolver may be run on `root` in the read scope `cx`.
    spec fn ready(&self, root: &R, cx: ReadContext) -> bool;

    /// Whether `value` is what the resolver picks from `root` in the read
    /// scope `cx`.
    spec fn resolved(&self, root: &R, cx: ReadContext, value: Self::Value) -> bool;

    /// Picks the value from `root`.
    fn resolve(&self, root: &'a R, cx: ReadContext) -> (value: Self::Value)
        requires
            self.ready(root, cx),
        ensures
            self.resolved(root, cx, value),
    ;
}

} // verus!
