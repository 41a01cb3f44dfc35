//! The memo of a selector that picks one cell or none.

use crate::context::ReadContext;
use crate::context::UpdateContext;
use crate::memo::memo::Memo;
use crate::memo::memo::Refresh;
use crate::memo::value_resolver::ValueResolver;
use crate::store::Store;
use crate::versioned_cell::VersionedCell;
use vstd::prelude::*;

verus! {

/// The fingerprint of an optional cell: its version, if there is one.
pub open spec fn stamp_of<T>(cell: Option<&VersionedCell<T>>) -> Option<u64> {
    match cell {
        Some(c) => Some(c.stamp()),
        None => None,
    }
}

/// The fingerprint of an optional cell: its version, if there is one.
pub fn version_of<T>(cell: Option<&VersionedCell<T>>) -> (version: Option<u64>)
    ensures
        version == stamp_of(cell),
{
    match cell {
        Some(c) => Some(c.version()),
        None => None,
    }
}

/// Reports whether two optional fingerprints differ.
pub fn differs(a: Option<u64>, b: Option<u64>) -> (d: bool)
    ensures
        d == (a != b),
{
    match (a, b) {
        (Some(x), Some(y)) => x != y,
        (None, None) => false,
        _ => true,
    }
}

/// Remembers the version of the cell that its selector picks, or that it
/// picked none.
pub struct OptionCellMemo<S> {
    select: S,
    store_id: usize,
    last_version: Option<u64>,
}

impl<S> OptionCellMemo<S> {
    /// The selector.
    pub closed spec fn selector(&self) -> S {
        self.select
    }

    /// The identity of the store that the memo was built against.
    pub closed spec fn identity(&self) -> usize {
        self.store_id
    }

    /// The recorded fingerprint: the version of the cell last selected, if
    /// one was.
    pub closed spec fn fingerprint(&self) -> Option<u64> {
        self.last_version
    }

    /// A memo of `select` over `store`, which records the version of the
    /// cell that the selector picks now, if it picks one.
    pub fn new<R, T>(store: &Store<R>, select: S) -> (memo: Self) where
        S: for <'a>Fn(&'a R, ReadContext) -> Option<&'a VersionedCell<T>>,

        requires
            call_requires(select, (&store.root(), store.read_context())),
        ensures
            memo.selector() == select,
            memo.identity() == store.identity(),
            exists|cell: Option<&VersionedCell<T>>| #[trigger]
                call_ensures(select, (&store.root(), store.read_context()), cell)
                    && memo.fingerprint() == stamp_of(cell),
    {
        let (root, cx) = store.read_scope();
        let last_version = version_of(select(root, cx));
        OptionCellMemo { select, store_id: store.id(), last_version }
    }

    /// A resolver that runs the memo's selector without touching what the
    /// memo has recorded.
    pub fn value_resolver(&self) -> (resolver: OptionCellResolver<'_, S>)
        ensures
            *resolver.lens() == self.selector(),
    {
        OptionCellResolver { lens: &self.select }
    }
}

impl<S> OptionCellMemo<S> {
    /// What the memo's part in [`Memo`] says, in the memo's own terms.
    pub proof fn lemma_as_memo<'a, R: 'a, T: 'a>(
        self,
        earlier: Self,
        root: &'a R,
        cx: ReadContext,
        outcome: Refresh<Option<&'a VersionedCell<T>>>,
    ) where S: Fn(&'a R, ReadContext) -> Option<&'a VersionedCell<T>>
        ensures
            self.store() == self.identity(),
            self.ready(root, cx) == call_requires(self.selector(), (root, cx)),
            self.refreshed(&earlier, root, cx, outcome) == ({
                &&& call_ensures(earlier.selector(), (root, cx), outcome.value)
                &&& self.fingerprint() == stamp_of(outcome.value)
                &&& outcome.is_changed == (self.fingerprint() != earlier.fingerprint())
                &&& self.selector() == earlier.selector()
                &&& self.identity() == earlier.identity()
            }),
    {
    }

    /// Change-detection soundness: a memo that recorded its fingerprint
    /// before the update scope `scope` began reports a change when the cell
    /// it selects was stamped in that scope or after it.
    pub proof fn lemma_touched_is_reported<'a, R: 'a, T: 'a>(
        self,
        earlier: Self,
        root: &'a R,
        cx: ReadContext,
        outcome: Refresh<Option<&'a VersionedCell<T>>>,
        scope: UpdateContext,
    ) where S: Fn(&'a R, ReadContext) -> Option<&'a VersionedCell<T>>
        requires
            self.refreshed(&earlier, root, cx, outcome),
            earlier.fingerprint() matches Some(v) ==> v < scope.pending_version(),
            outcome.value matches Some(cell) && cell.stamp() >= scope.pending_version(),
        ensures
            outcome.is_changed,
    {
    }

    /// Change-detection minimality: a memo whose selector picks a cell with
    /// the version that the memo recorded, or picks none as before, reports
    /// no change.
    pub proof fn lemma_untouched_is_quiet<'a, R: 'a, T: 'a>(
        self,
        earlier: Self,
        root: &'a R,
        cx: ReadContext,
        outcome: Refresh<Option<&'a VersionedCell<T>>>,
    ) where S: Fn(&'a R, ReadContext) -> Option<&'a VersionedCell<T>>
        requires
            self.refreshed(&earlier, root, cx, outcome),
            stamp_of(outcome.value) == earlier.fingerprint(),
        ensures
            !outcome.is_changed,
            self.fingerprint() == earlier.fingerprint(),
    {
    }
}

impl<'a, R: 'a, S, T: 'a> Memo<'a, R> for OptionCellMemo<S> where
    S: Fn(&'a R, ReadContext) -> Option<&'a VersionedCell<T>>,
 {
    type Value = Option<&'a VersionedCell<T>>;

    open spec fn store(&self) -> usize {
        self.identity()
    }

    open spec fn ready(&self, root: &R, cx: ReadContext) -> bool {
        call_requires(self.selector(), (root, cx))
    }

    open spec fn refreshed(
        &self,
        earlier: &Self,
        root: &R,
        cx: ReadContext,
        outcome: Refresh<Option<&'a VersionedCell<T>>>,
    ) -> bool {
        &&& call_ensures(earlier.selector(), (root, cx), outcome.value)
        &&& self.fingerprint() == stamp_of(outcome.value)
        &&& outcome.is_changed == (self.fingerprint() != earlier.fingerprint())
        &&& self.selector() == earlier.selector()
        &&& self.identity() == earlier.identity()
    }

    fn store_id(&self) -> (id: usize) {
        self.store_id
    }

    fn refresh_unchecked(&mut self, root: &'a R, cx: ReadContext) -> (outcome: Refresh<
        Option<&'a VersionedCell<T>>,
    >) {
        let cell = (self.select)(root, cx);
        let version = version_of(cell);
        let last_version = self.last_version;
        self.last_version = version;
        Refresh { value: cell, is_changed: differs(version, last_version) }
    }
}

/// Runs the selector of an [`OptionCellMemo`] against a data graph.
pub struct OptionCellResolver<'m, S> {
    lens: &'m S,
}

impl<'m, S> OptionCellResolver<'m, S> {
    /// The selector that the resolver runs.
    pub closed spec fn lens(&self) -> &'m S {
        self.lens
    }

    /// What the resolver's part in [`ValueResolver`] says, in the resolver's
    /// own terms.
    pub proof fn lemma_as_resolver<'a, R: 'a, T: 'a>(
        self,
        root: &'a R,
        cx: ReadContext,
        value: Option<&'a VersionedCell<T>>,
    ) where S: Fn(&'a R, ReadContext) -> Option<&'a VersionedCell<T>>
        ensures
            self.ready(root, cx) == call_requires(*self.lens(), (root, cx)),
            self.resolved(root, cx, value) == call_ensures(*self.lens(), (root, cx), value),
    {
    }
}

impl<'a, 'm, R: 'a, S, T: 'a> ValueResolver<'a, R> for OptionCellResolver<'m, S> where
    S: Fn(&'a R, ReadContext) -> Option<&'a VersionedCell<T>>,
 {
    type Value = Option<&'a VersionedCell<T>>;

    open spec fn ready(&self, root: &R, cx: ReadContext) -> bool {
        call_requires(*self.lens(), (root, cx))
    }

    open spec fn resolved(
        &self,
        root: &R,
        cx: ReadContext,
        value: Option<&'a VersionedCell<T>>,
    ) -> bool {
        call_ensures(*self.lens(), (root, cx), value)
    }

    fn resolve(&self, root: &'a R, cx: ReadContext) -> (value: Option<&'a VersionedCell<T>>) {
        (self.lens)(root, cx)
    }
}

} // verus!
