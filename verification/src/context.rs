//! The capability tokens that gate access to a store's data, and the counter
//! that hands out version stamps.
//!
//! A [`ReadContext`] is handed to code that reads while no writer is active;
//! an [`UpdateContext`] is handed to the one writer of an update scope and is
//! the only source of version stamps. Neither can be made outside this
//! crate, so holding one shows that the matching scope is open.

use vstd::prelude::*;

verus! {

/// Proof that a read scope of the store with this identity is open.
#[derive(Clone, Copy)]
pub struct ReadContext {
    store_id: usize,
}

impl ReadContext {
    /// The identity of the store whose read scope this is.
    pub closed spec fn id(&self) -> usize {
        self.store_id
    }

    /// The read context of the store identified by `store_id`.
    pub closed spec fn of(store_id: usize) -> ReadContext {
        ReadContext { store_id }
    }

    /// A read context says nothing but the store it belongs to.
    pub proof fn lemma_of(self)
        ensures
            self == ReadContext::of(self.id()),
    {
    }

    /// What [`Self::of`] builds.
    pub proof fn lemma_of_id(store_id: usize)
        ensures
            ReadContext::of(store_id).id() == store_id,
    {
    }

    pub(crate) fn new(store_id: usize) -> (cx: ReadContext)
        ensures
            cx == ReadContext::of(store_id),
            cx.id() == store_id,
    {
        ReadContext { store_id }
    }

    /// The identity of the store whose read scope this is.
    pub fn store_id(&self) -> (id: usize)
        ensures
            id == self.id(),
    {
        self.store_id
    }
}

/// Proof that the update scope of a store is open, and the source of its
/// version stamps.
///
/// Stamps are issued in strictly increasing order, each once. The token is
/// neither `Clone` nor `Copy`: within a scope there is one, and whoever stamps
/// a cell holds it exclusively.
pub struct UpdateContext {
    next_version: u64,
    store_id: usize,
}

impl UpdateContext {
    /// The stamp that the next call of [`Self::next_version`] issues.
    pub closed spec fn pending_version(&self) -> u64 {
        self.next_version
    }

    /// The identity of the store whose update scope this is.
    pub closed spec fn id(&self) -> usize {
        self.store_id
    }

    /// The update context of store `store_id` that issues `next_version` next.
    pub closed spec fn at(next_version: u64, store_id: usize) -> UpdateContext {
        UpdateContext { next_version, store_id }
    }

    /// Whether a stamp is left to issue.
    pub open spec fn has_stamps(&self) -> bool {
        self.pending_version() < u64::MAX
    }

    /// This context after it issued one stamp.
    pub open spec fn advanced(&self) -> UpdateContext
        recommends
            self.has_stamps(),
    {
        UpdateContext::at((self.pending_version() + 1) as u64, self.id())
    }

    /// Whether this context is `earlier` after it issued some stamps, possibly
    /// none.
    pub open spec fn follows(&self, earlier: &UpdateContext) -> bool {
        &&& self.id() == earlier.id()
        &&& self.pending_version() >= earlier.pending_version()
    }

    /// A context is determined by the stamp it issues next and its store.
    pub proof fn lemma_at(self)
        ensures
            self == UpdateContext::at(self.pending_version(), self.id()),
    {
    }

    /// What [`Self::at`] builds.
    pub proof fn lemma_at_fields(next_version: u64, store_id: usize)
        ensures
            UpdateContext::at(next_version, store_id).pending_version() == next_version,
            UpdateContext::at(next_version, store_id).id() == store_id,
    {
    }

    /// The identity of the store whose update scope this is.
    pub fn store_id(&self) -> (id: usize)
        ensures
            id == self.id(),
    {
        self.store_id
    }

    /// Reports whether a stamp is left to issue.
    pub fn can_stamp(&self) -> (b: bool)
        ensures
            b == self.has_stamps(),
    {
        self.next_version < u64::MAX
    }

    /// Issues the next version stamp.
    pub fn next_version(&mut self) -> (version: u64)
        requires
            old(self).has_stamps(),
        ensures
            version == old(self).pending_version(),
            *final(self) == old(self).advanced(),
            final(self).pending_version() == old(self).pending_version() + 1,
            final(self).id() == old(self).id(),
    {
        let version = self.next_version;
        self.next_version = version + 1;
        version
    }
}

/// The version counter of one store, from which the context of each update
/// scope is made and into which it is taken back when the scope ends. Only
/// a store opens and ends scopes.
pub struct UpdateContextProvider {
    next_version: u64,
}

impl UpdateContextProvider {
    /// The stamp that the next update scope issues first.
    pub closed spec fn pending_version(&self) -> u64 {
        self.next_version
    }

    /// A counter that has issued nothing.
    pub fn new() -> (provider: Self)
        ensures
            provider.pending_version() == 0,
    {
        UpdateContextProvider { next_version: 0 }
    }

    /// Opens the update scope of store `store_id`: its context continues
    /// where the last scope ended.
    pub(crate) fn update_context(&self, store_id: usize) -> (cx: UpdateContext)
        ensures
            cx == UpdateContext::at(self.pending_version(), store_id),
            cx.pending_version() == self.pending_version(),
            cx.id() == store_id,
    {
        UpdateContext { next_version: self.next_version, store_id }
    }

    /// Ends the update scope of store `store_id`: if `cx` is that scope's
    /// context after the stamps it issued, the counter continues after the
    /// last of them. A context of another store, or one that is behind the
    /// counter, is not taken over: the counter never goes back.
    pub(crate) fn resume(&mut self, store_id: usize, cx: UpdateContext)
        ensures
            final(self).pending_version() == (if cx.follows(
                &UpdateContext::at(old(self).pending_version(), store_id),
            ) {
                cx.pending_version()
            } else {
                old(self).pending_version()
            }),
            final(self).pending_version() >= old(self).pending_version(),
    {
        if cx.store_id == store_id && cx.next_version >= self.next_version {
            self.next_version = cx.next_version;
        }
    }
}

} // verus!
