//! The memo of a selector that picks one cell.

use crate::context::ReadContext;
use crate::context::UpdateContext;
use crate::memo::memo::Memo;
use crate::memo::memo::Refresh;
use crate::store::Store;
use crate::versioned_cell::VersionedCell;
use vstd::prelude::*;

verus! {

/// Remembers the version of the cell that its selector picks.
pub struct CellMemo<S> {
    selector: S,
    store_id: usize,
    last_version: u64,
}

impl<S> CellMemo<S> {
    /// The selector.
    pub closed spec fn selector(&self) -> S {
        self.selector
    }

    /// The identity of the store that the memo was built against.
    pub closed spec fn identity(&self) -> usize {
        self.store_id
    }

    /// The recorded fingerprint: the version of the cell last selected.
    pub closed spec fn fingerprint(&self) -> u64 {
        self.last_version
    }

    /// A memo of `selector` over `store`, which records the version of the
    /// cell that the selector picks now.
    pub fn new<R, T>(store: &Store<R>, selector: S) -> (memo: Self) where
        S: for <'a>Fn(&'a R, ReadContext) -> &'a VersionedCell<T>,

        requires
            call_requires(selector, (&store.root(), store.read_context())),
        ensures
            memo.selector() == selector,
            memo.identity() == store.identity(),
            exists|cell: &VersionedCell<T>| #[trigger]
                call_ensures(selector, (&store.root(), store.read_context()), cell)
                    && memo.fingerprint() == cell.stamp(),
    {
        let (root, cx) = store.read_scope();
        let last_version = selector(root, cx).version();
        CellMemo { selector, store_id: store.id(), last_version }
    }
}

impl<S> CellMemo<S> {
    /// What the memo's part in [`Memo`] says, in the memo's own terms.
    pub proof fn lemma_as_memo<'a, R: 'a, T: 'a>(
        self,
        earlier: Self,
        root: &'a R,
        cx: ReadContext,
        outcome: Refresh<&'a VersionedCell<T>>,
    ) where S: Fn(&'a R, ReadContext) -> &'a VersionedCell<T>
        ensures
            self.store() == self.identity(),
            self.ready(root, cx) == call_requires(self.selector(), (root, cx)),
            self.refreshed(&earlier, root, cx, outcome) == ({
                &&& call_ensures(earlier.selector(), (root, cx), outcome.value)
                &&& self.fingerprint() == outcome.value.stamp()
                &&& outcome.is_changed == (self.fingerprint() != earlier.fingerprint())
                &&& self.selector() == earlier.selector()
                &&& self.identity() == earlier.identity()
            }),
    {
    }

    /// Change-detection soundness: a memo that recorded its fingerprint
    /// before the update scope `scope` began reports a change when the cell
    /// it selects was stamped in that scope or after it.
    pub proof fn lemma_touched_is_reported<'a, R: 'a, T: 'a>(
        self,
        earlier: Self,
        root: &'a R,
        cx: ReadContext,
        outcome: Refresh<&'a VersionedCell<T>>,
        scope: UpdateContext,
    ) where S: Fn(&'a R, ReadContext) -> &'a VersionedCell<T>
        requires
            self.refreshed(&earlier, root, cx, outcome),
            earlier.fingerprint() < scope.pending_version(),
            outcome.value.stamp() >= scope.pending_version(),
        ensures
            outcome.is_changed,
    {
    }

    /// Change-detection minimality: a memo whose selected cell still has the
    /// version that the memo recorded reports no change.
    pub proof fn lemma_untouched_is_quiet<'a, R: 'a, T: 'a>(
        self,
        earlier: Self,
        root: &'a R,
        cx: ReadContext,
        outcome: Refresh<&'a VersionedCell<T>>,
    ) where S: Fn(&'a R, ReadContext) -> &'a VersionedCell<T>
        requires
            self.refreshed(&earlier, root, cx, outcome),
            outcome.value.stamp() == earlier.fingerprint(),
        ensures
            !outcome.is_changed,
            self.fingerprint() == earlier.fingerprint(),
    {
    }
}

impl<'a, R: 'a, S, T: 'a> Memo<'a, R> for CellMemo<S> where
    S: Fn(&'a R, ReadContext) -> &'a VersionedCell<T>,
 {
    type Value = &'a VersionedCell<T>;

    open spec fn store(&self) -> usize {
        self.identity()
    }

    open spec fn ready(&self, root: &R, cx: ReadContext) -> bool {
        call_requires(self.selector(), (root, cx))
    }

    open spec fn refreshed(
        &self,
        earlier: &Self,
        root: &R,
        cx: ReadContext,
        outcome: Refresh<&'a VersionedCell<T>>,
    ) -> bool {
        &&& call_ensures(earlier.selector(), (root, cx), outcome.value)
        &&& self.fingerprint() == outcome.value.stamp()
        &&& outcome.is_changed == (self.fingerprint() != earlier.fingerprint())
        &&& self.selector() == earlier.selector()
        &&& self.identity() == earlier.identity()
    }

    fn store_id(&self) -> (id: usize) {
        self.store_id
    }

    fn refresh_unchecked(&mut self, root: &'a R, cx: ReadContext) -> (outcome: Refresh<
        &'a VersionedCell<T>,
    >) {
        let cell = (self.selector)(root, cx);
        let version = cell.version();
        let last_version = self.last_version;
        self.last_version = version;
        Refresh { value: cell, is_changed: version != last_version }
    }
}

} // verus!
