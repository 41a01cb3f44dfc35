//! The memo of a selector that picks a slice of cells.

use crate::context::ReadContext;
use crate::memo::fingerprint::fingerprint;
use crate::memo::fingerprint::sea_hash;
use crate::memo::fingerprint::MAX_HASHED;
use crate::memo::memo::Memo;
use crate::memo::memo::Refresh;
use crate::store::Store;
use crate::versioned_cell::versions;
use crate::versioned_cell::VersionedCell;
use vstd::prelude::*;

verus! {

/// Remembers the hash of the versions of the cells that its selector picks.
pub struct CellSliceMemo<S> {
    selector: S,
    store_id: usize,
    last_version: u64,
}

impl<S> CellSliceMemo<S> {
    /// The selector.
    pub closed spec fn selector(&self) -> S {
        self.selector
    }

    /// The identity of the store that the memo was built against.
    pub closed spec fn identity(&self) -> usize {
        self.store_id
    }

    /// The recorded fingerprint: the hash of the versions of the cells last
    /// selected.
    pub closed spec fn fingerprint(&self) -> u64 {
        self.last_version
    }

    /// Whether `selector` may be run on `root` in the read scope `cx` and
    /// picks no more cells than one hash takes.
    pub open spec fn selects<'a, R, T: 'a>(selector: S, root: &'a R, cx: ReadContext) -> bool where
        S: Fn(&'a R, ReadContext) -> &'a [VersionedCell<T>],
     {
        &&& call_requires(selector, (root, cx))
        &&& forall|cells: &'a [VersionedCell<T>]|
            call_ensures(selector, (root, cx), cells) ==> cells@.len() <= MAX_HASHED
    }

    /// A memo of `selector` over `store`, which records the hash of the
    /// versions of the cells that the selector picks now.
    pub fn new<R, T>(store: &Store<R>, selector: S) -> (memo: Self) where
        S: for <'a>Fn(&'a R, ReadContext) -> &'a [VersionedCell<T>],

        requires
            Self::selects(selector, &store.root(), store.read_context()),
        ensures
            memo.selector() == selector,
            memo.identity() == store.identity(),
            exists|cells: &[VersionedCell<T>]| #[trigger]
                call_ensures(selector, (&store.root(), store.read_context()), cells)
                    && memo.fingerprint() == sea_hash(versions(cells@)),
    {
        let (root, cx) = store.read_scope();
        let last_version = fingerprint(selector(root, cx));
        CellSliceMemo { selector, store_id: store.id(), last_version }
    }
}

impl<S> CellSliceMemo<S> {
    /// What the memo's part in [`Memo`] says, in the memo's own terms.
    pub proof fn lemma_as_memo<'a, R: 'a, T: 'a>(
        self,
        earlier: Self,
        root: &'a R,
        cx: ReadContext,
        outcome: Refresh<&'a [VersionedCell<T>]>,
    ) where S: Fn(&'a R, ReadContext) -> &'a [VersionedCell<T>]
        ensures
            self.store() == self.identity(),
            self.ready(root, cx) == Self::selects(self.selector(), root, cx),
            self.refreshed(&earlier, root, cx, outcome) == ({
                &&& call_ensures(earlier.selector(), (root, cx), outcome.value)
                &&& self.fingerprint() == sea_hash(versions(outcome.value@))
                &&& outcome.is_changed == (self.fingerprint() != earlier.fingerprint())
                &&& self.selector() == earlier.selector()
                &&& self.identity() == earlier.identity()
            }),
    {
    }

    /// Change-detection soundness: a memo that recorded the hash of the
    /// versions `before` reports a change when the cells it selects hash
    /// otherwise. Two version sequences that collide under the hash are
    /// not told apart.
    pub proof fn lemma_touched_is_reported<'a, R: 'a, T: 'a>(
        self,
        earlier: Self,
        root: &'a R,
        cx: ReadContext,
        outcome: Refresh<&'a [VersionedCell<T>]>,
        before: Seq<u64>,
    ) where S: Fn(&'a R, ReadContext) -> &'a [VersionedCell<T>]
        requires
            self.refreshed(&earlier, root, cx, outcome),
            earlier.fingerprint() == sea_hash(before),
            sea_hash(versions(outcome.value@)) != sea_hash(before),
        ensures
            outcome.is_changed,
    {
    }

    /// Change-detection minimality: a memo whose selected cells have the
    /// versions `before`, in order, of which the memo recorded the hash,
    /// reports no change.
    pub proof fn lemma_untouched_is_quiet<'a, R: 'a, T: 'a>(
        self,
        earlier: Self,
        root: &'a R,
        cx: ReadContext,
        outcome: Refresh<&'a [VersionedCell<T>]>,
        before: Seq<u64>,
    ) where S: Fn(&'a R, ReadContext) -> &'a [VersionedCell<T>]
        requires
            self.refreshed(&earlier, root, cx, outcome),
            earlier.fingerprint() == sea_hash(before),
            versions(outcome.value@) == before,
        ensures
            !outcome.is_changed,
            self.fingerprint() == earlier.fingerprint(),
    {
    }
}

impl<'a, R: 'a, S, T: 'a> Memo<'a, R> for CellSliceMemo<S> where
    S: Fn(&'a R, ReadContext) -> &'a [VersionedCell<T>],
 {
    type Value = &'a [VersionedCell<T>];

    open spec fn store(&self) -> usize {
        self.identity()
    }

    open spec fn ready(&self, root: &R, cx: ReadContext) -> bool {
        Self::selects(self.selector(), root, cx)
    }

    open spec fn refreshed(
        &self,
        earlier: &Self,
        root: &R,
        cx: ReadContext,
        outcome: Refresh<&'a [VersionedCell<T>]>,
    ) -> bool {
        &&& call_ensures(earlier.selector(), (root, cx), outcome.value)
        &&& self.fingerprint() == sea_hash(versions(outcome.value@))
        &&& outcome.is_changed == (self.fingerprint() != earlier.fingerprint())
        &&& self.selector() == earlier.selector()
        &&& self.identity() == earlier.identity()
    }

    fn store_id(&self) -> (id: usize) {
        self.store_id
    }

    fn refresh_unchecked(&mut self, root: &'a R, cx: ReadContext) -> (outcome: Refresh<
        &'a [VersionedCell<T>],
    >) {
        let slice = (self.selector)(root, cx);
        let version = fingerprint(slice);
        let last_version = self.last_version;
        self.last_version = version;
        Refresh { value: slice, is_changed: version != last_version }
    }
}

} // verus!
