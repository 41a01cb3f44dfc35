//! What every memo has in common.

use crate::context::ReadContext;
use vstd::prelude::*;

verus! {

/// What a memo reports when it is refreshed: the current selection, and
/// whether its fingerprint differs from the one recorded before.
pub struct Refresh<T> {
    /// The current selection.
    pub value: T,
    /// Whether the selection's fingerprint differs from the recorded one.
    pub is_changed: bool,
}

/// A cached selector over a data graph of type `R`: it remembers the
/// fingerprint of what it last selected and reports whether a fresh selection
/// differs.
///
/// `'a` is the lifetime of the borrow of the data graph from which a refresh
/// selects; the selection may borrow from it.
pub trait Memo<'a, R>: Sized {
    /// What the memo selects.
    type Value;

    /// The identity of the store that the memo was built against.
    spec fn store(&self) -> usize;

    /// Whether the memo's selector may be run on `root` in the read scope
    /// `cx`.
    spec fn ready(&self, root: &R, cx: ReadContext) -> bool;

    /// What a refresh does: `earlier` is the memo before it and `self` the
    /// memo after it, `root` and `cx` are what it ran against and `outcome`
    /// is what it reported.
    spec fn refreshed(
        &self,
        earlier: &Self,
        root: &R,
        cx: ReadContext,
        outcome: Refresh<Self::Value>,
    ) -> bool;

    /// The identity of the store that the memo was built against.
    fn store_id(&self) -> (id: usize)
        ensures
            id == self.store(),
    ;

    /// Selects from `root`, records the selection's fingerprint and reports
    /// whether it differs from the one recorded before. The read scope is
    /// taken on trust to be one of the memo's store.
    fn refresh_unchecked(&mut self, root: &'a R, cx: ReadContext) -> (outcome: Refresh<
        Self::Value,
    >)
        requires
            old(self).ready(root, cx),
        ensures
            final(self).store() == old(self).store(),
            final(self).refreshed(old(self), root, cx, outcome),
            forall|r: &R, c: ReadContext| final(self).ready(r, c) == old(self).ready(r, c),
    ;

    /// Selects from `root`, records the selection's fingerprint and reports
    /// whether it differs from the one recorded before. The read scope has to
    /// be one of the store that the memo was built against.
    fn refresh(&mut self, root: &'a R, cx: ReadContext) -> (outcome: Refresh<Self::Value>)
        requires
            old(self).store() == cx.id(),
            old(self).ready(root, cx),
        ensures
            final(self).store() == old(self).store(),
            final(self).refreshed(old(self), root, cx, outcome),
            forall|r: &R, c: ReadContext| final(self).ready(r, c) == old(self).ready(r, c),
    {
        self.refresh_unchecked(root, cx)
    }
}

} // verus!
