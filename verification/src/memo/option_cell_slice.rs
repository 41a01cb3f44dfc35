//! The memo of a selector that picks a slice of cells or nothing.

use crate::context::ReadContext;
use crate::memo::fingerprint::fingerprint;
use crate::memo::fingerprint::sea_hash;
use crate::memo::fingerprint::MAX_HASHED;
use crate::memo::memo::Memo;
use crate::memo::memo::Refresh;
use crate::memo::option_cell::differs;
use crate::store::Store;
use crate::versioned_cell::versions;
use crate::versioned_cell::VersionedCell;
use vstd::prelude::*;

verus! {

/// The fingerprint of an optional slice of cells: the hash of their versions
/// in order, if there is a slice.
pub open spec fn hash_of<T>(cells: Option<&[VersionedCell<T>]>) -> Option<u64> {
    match cells {
        Some(slice) => Some(sea_hash(versions(slice@))),
        None => None,
    }
}

/// The fingerprint of an optional slice of cells: the hash of their versions
/// in order, if there is a slice.
pub fn fingerprint_opt<T>(cells: Option<&[VersionedCell<T>]>) -> (digest: Option<u64>)
    requires
        cells matches Some(slice) ==> slice@.len() <= MAX_HASHED,
    ensures
        digest == hash_of(cells),
{
    match cells {
        Some(slice) => Some(fingerprint(slice)),
        None => None,
    }
}

/// Remembers the hash of the versions of the cells that its selector picks,
/// or that it picked nothing.
pub struct OptionCellSliceMemo<S> {
    selector: S,
    store_id: usize,
    last_version: Option<u64>,
}

impl<S> OptionCellSliceMemo<S> {
    /// The selector.
    pub closed spec fn selector(&self) -> S {
        self.selector
    }

    /// The identity of the store that the memo was built against.
    pub closed spec fn identity(&self) -> usize {
        self.store_id
    }

    /// The recorded fingerprint: the hash of the versions of the cells last
    /// selected, if a slice was.
    pub closed spec fn fingerprint(&self) -> Option<u64> {
        self.last_version
    }

    /// Whether `selector` may be run on `root` in the read scope `cx` and
    /// picks no more cells than one hash takes.
    pub open spec fn selects<'a, R, T: 'a>(selector: S, root: &'a R, cx: ReadContext) -> bool where
        S: Fn(&'a R, ReadContext) -> Option<&'a [VersionedCell<T>]>,
     {
        &&& call_requires(selector, (root, cx))
        &&& forall|cells: &'a [VersionedCell<T>]|
            call_ensures(selector, (root, cx), Some(cells)) ==> cells@.len() <= MAX_HASHED
    }

    /// A memo of `selector` over `store`, which records the hash of the
    /// versions of the cells that the selector picks now, if it picks any.
    pub fn new<R, T>(store: &Store<R>, selector: S) -> (memo: Self) where
        S: for <'a>Fn(&'a R, ReadContext) -> Option<&'a [VersionedCell<T>]>,

        requires
            Self::selects(selector, &store.root(), store.read_context()),
        ensures
            memo.selector() == selector,
            memo.identity() == store.identity(),
            exists|cells: Option<&[VersionedCell<T>]>| #[trigger]
                call_ensures(selector, (&store.root(), store.read_context()), cells)
                    && memo.fingerprint() == hash_of(cells),
    {
        let (root, cx) = store.read_scope();
        let last_version = fingerprint_opt(selector(root, cx));
        OptionCellSliceMemo { selector, store_id: store.id(), last_version }
    }
}

impl<S> OptionCellSliceMemo<S> {
    /// What the memo's part in [`Memo`] says, in the memo's own terms.
    pub proof fn lemma_as_memo<'a, R: 'a, T: 'a>(
        self,
        earlier: Self,
        root: &'a R,
        cx: ReadContext,
        outcome: Refresh<Option<&'a [VersionedCell<T>]>>,
    ) where S: Fn(&'a R, ReadContext) -> Option<&'a [VersionedCell<T>]>
        ensures
            self.store() == self.identity(),
            self.ready(root, cx) == Self::selects(self.selector(), root, cx),
            self.refreshed(&earlier, root, cx, outcome) == ({
                &&& call_ensures(earlier.selector(), (root, cx), outcome.value)
                &&& self.fingerprint() == hash_of(outcome.value)
                &&& outcome.is_changed == (self.fingerprint() != earlier.fingerprint())
                &&& self.selector() == earlier.selector()
                &&& self.identity() == earlier.identity()
            }),
    {
    }

    /// Change-detection soundness: a memo reports a change when the
    /// fingerprint of what it selects differs from the one it recorded. Two
    /// version sequences that collide under the hash are not told apart.
    pub proof fn lemma_touched_is_reported<'a, R: 'a, T: 'a>(
        self,
        earlier: Self,
        root: &'a R,
        cx: ReadContext,
        outcome: Refresh<Option<&'a [VersionedCell<T>]>>,
    ) where S: Fn(&'a R, ReadContext) -> Option<&'a [VersionedCell<T>]>
        requires
            self.refreshed(&earlier, root, cx, outcome),
            hash_of(outcome.value) != earlier.fingerprint(),
        ensures
            outcome.is_changed,
    {
    }

    /// Change-detection minimality: a memo whose selected cells have the
    /// versions `before`, in order, of which the memo recorded the hash,
    /// reports no change; nor does one that selected nothing and selects
    /// nothing again.
    pub proof fn lemma_untouched_is_quiet<'a, R: 'a, T: 'a>(
        self,
        earlier: Self,
        root: &'a R,
        cx: ReadContext,
        outcome: Refresh<Option<&'a [VersionedCell<T>]>>,
        before: Option<Seq<u64>>,
    ) where S: Fn(&'a R, ReadContext) -> Option<&'a [VersionedCell<T>]>
        requires
            self.refreshed(&earlier, root, cx, outcome),
            match before {
                Some(stamps) => {
                    &&& earlier.fingerprint() == Some(sea_hash(stamps))
                    &&& outcome.value matches Some(slice)
                    &&& versions(slice@) == stamps
                },
                None => earlier.fingerprint() is None && outcome.value is None,
            },
        ensures
            !outcome.is_changed,
            self.fingerprint() == earlier.fingerprint(),
    {
    }
}

impl<'a, R: 'a, S, T: 'a> Memo<'a, R> for OptionCellSliceMemo<S> where
    S: Fn(&'a R, ReadContext) -> Option<&'a [VersionedCell<T>]>,
 {
    type Value = Option<&'a [VersionedCell<T>]>;

    open spec fn store(&self) -> usize {
        self.identity()
    }

    open spec fn ready(&self, root: &R, cx: ReadContext) -> bool {
        Self::selects(self.selector(), root, cx)
    }

    open spec fn refreshed(
        &self,
        earlier: &Self,
        root: &R,
        cx: ReadContext,
        outcome: Refresh<Option<&'a [VersionedCell<T>]>>,
    ) -> bool {
        &&& call_ensures(earlier.selector(), (root, cx), outcome.value)
        &&& self.fingerprint() == hash_of(outcome.value)
        &&& outcome.is_changed == (self.fingerprint() != earlier.fingerprint())
        &&& self.selector() == earlier.selector()
        &&& self.identity() == earlier.identity()
    }

    fn store_id(&self) -> (id: usize) {
        self.store_id
    }

    fn refresh_unchecked(&mut self, root: &'a R, cx: ReadContext) -> (outcome: Refresh<
        Option<&'a [VersionedCell<T>]>,
    >) {
        let option_slice = (self.selector)(root, cx);
        let version = fingerprint_opt(option_slice);
        let last_version = self.last_version;
        self.last_version = version;
        Refresh { value: option_slice, is_changed: differs(version, last_version) }
    }
}

} // verus!
