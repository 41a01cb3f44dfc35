//! The store: the owner of the data graph, of its version counter and of the
//! registry of its subscribers.
//!
//! Access to the data is scoped. [`Store::with`] runs a reader with a
//! [`ReadContext`]; [`Store::update`] runs the one writer with the store's
//! [`UpdateContext`] and signals the subscribers when the writer is done.
//! A store is borrowed shared by readers and exclusively by a writer, so the
//! two never overlap.

use crate::on_update::OnUpdate;
use crate::on_update::Poll;
use crate::on_update::wake_all;
use crate::on_update::UpdateBroadcaster;
use crate::on_update::WaiterState;
use atomic_counter::AtomicCounter;
use atomic_counter::RelaxedCounter;
use std::task::Waker;
use vstd::prelude::*;

pub use crate::context::ReadContext;
pub use crate::context::UpdateContext;
pub use crate::context::UpdateContextProvider;

verus! {

#[verifier::external_type_specification]
#[verifier::external_body]
pub struct ExRelaxedCounter(RelaxedCounter);

/// The count that a counter holds.
pub uninterp spec fn counted(counter: RelaxedCounter) -> usize;

/// Calls `atomic_counter::RelaxedCounter::new`, which makes a counter that
/// holds `initial`.
#[verifier::external_body]
fn new_counter(initial: usize) -> (counter: RelaxedCounter)
    ensures
        counted(counter) == initial,
{
    RelaxedCounter::new(initial)
}

/// Calls `atomic_counter::AtomicCounter::inc` on a `RelaxedCounter`, which
/// adds one to the count, wrapping at `usize::MAX`, and returns the count
/// before. The counter is borrowed exclusively, so nobody else adds to it
/// meanwhile.
#[verifier::external_body]
fn increment(counter: &mut RelaxedCounter) -> (previous: usize)
    ensures
        previous == counted(*old(counter)),
        counted(*final(counter)) == (if previous == usize::MAX {
            0
        } else {
            previous + 1
        }),
{
    counter.inc()
}

/// The source of store identities: a counter from zero. The stores that take
/// their identity from one provider get its counts one after the other, so
/// each differs from the ones drawn before it until the counter has gone
/// round all of `usize`.
pub struct StoreIdProvider {
    counter: RelaxedCounter,
}

impl StoreIdProvider {
    /// The identity that the provider hands out next.
    pub closed spec fn next(&self) -> usize {
        counted(self.counter)
    }

    /// The identity that is handed out after `id`.
    pub open spec fn following(id: usize) -> usize {
        if id == usize::MAX {
            0
        } else {
            (id + 1) as usize
        }
    }

    /// The identity that is handed out `n` draws after `first`.
    pub open spec fn after(first: usize, n: nat) -> usize
        decreases n,
    {
        if n == 0 {
            first
        } else {
            Self::following(Self::after(first, (n - 1) as nat))
        }
    }

    /// Identities go round `usize`: the one drawn `n` draws after `first` is
    /// `first + n`, wrapped.
    pub proof fn lemma_after_wraps(first: usize, n: nat)
        ensures
            Self::after(first, n) == (first + n) % (usize::MAX + 1),
        decreases n,
    {
        let m: int = usize::MAX + 1;
        let start: int = first as int;
        if n == 0 {
            assert(start % m == start) by (nonlinear_arith)
                requires
                    0 <= start < m,
            ;
        } else {
            Self::lemma_after_wraps(first, (n - 1) as nat);
            let before: int = Self::after(first, (n - 1) as nat) as int;
            let sum: int = start + n - 1;
            assert(before == sum % m);
            if before == m - 1 {
                assert((sum + 1) % m == 0) by (nonlinear_arith)
                    requires
                        sum % m == m - 1,
                        m > 0,
                ;
            } else {
                assert((sum + 1) % m == sum % m + 1) by (nonlinear_arith)
                    requires
                        0 <= sum % m < m - 1,
                        m > 0,
                        0 <= sum,
                ;
            }
        }
    }

    /// Identities are fresh: of the identities that one provider hands out,
    /// two that are fewer than all of `usize` draws apart differ.
    pub proof fn lemma_identities_differ(first: usize, i: nat, j: nat)
        requires
            i < j,
            j - i <= usize::MAX,
        ensures
            Self::after(first, i) != Self::after(first, j),
    {
        let m: int = usize::MAX + 1;
        Self::lemma_after_wraps(first, i);
        Self::lemma_after_wraps(first, j);
        let a: int = first + i;
        let d: int = j - i;
        assert((a + d) % m != a % m) by (nonlinear_arith)
            requires
                0 < d < m,
                0 <= a,
        ;
    }

    /// A provider whose counter starts at zero.
    pub fn new() -> (provider: Self)
        ensures
            provider.next() == 0,
    {
        StoreIdProvider { counter: new_counter(0) }
    }

    /// Draws the next identity: the provider's count, which moves on by one.
    pub fn next_id(&mut self) -> (id: usize)
        ensures
            id == old(self).next(),
            final(self).next() == Self::following(id),
    {
        increment(&mut self.counter)
    }
}

/// A data graph of type `R` with its version counter, its identity and its
/// subscribers.
pub struct Store<R> {
    root: R,
    provider: UpdateContextProvider,
    store_id: usize,
    update_broadcaster: UpdateBroadcaster,
}

impl<R> Store<R> {
    /// The data graph.
    pub closed spec fn root(&self) -> R {
        self.root
    }

    /// The store's identity.
    pub closed spec fn identity(&self) -> usize {
        self.store_id
    }

    /// The version stamp that the next update scope issues first. Every
    /// stamp that the store has issued is below it.
    pub closed spec fn pending_version(&self) -> u64 {
        self.provider.pending_version()
    }

    /// The registry of the store's subscribers.
    pub closed spec fn subscribers(&self) -> UpdateBroadcaster {
        self.update_broadcaster
    }

    /// The store's invariant: its registry of subscribers is well formed
    /// and is the registry of this store.
    pub open spec fn wf(&self) -> bool {
        &&& self.subscribers().wf()
        &&& self.subscribers().owner() == self.identity()
    }

    /// The context that the store's readers are handed.
    pub open spec fn read_context(&self) -> ReadContext {
        ReadContext::of(self.identity())
    }

    /// The context that the store's next writer is handed.
    pub open spec fn update_context(&self) -> UpdateContext {
        UpdateContext::at(self.pending_version(), self.identity())
    }

    /// Where the version counter stands after a scope that was handed the
    /// context `opened` and gave `closed` back: after the last stamp issued,
    /// if `closed` is `opened` after it issued stamps. A writer that puts
    /// another context in the scope's place leaves the counter where it was.
    pub open spec fn resumed(opened: UpdateContext, closed: UpdateContext) -> u64 {
        if closed.follows(&opened) {
            closed.pending_version()
        } else {
            opened.pending_version()
        }
    }

    /// Builds a store whose identity is drawn from `ids`, so that it differs
    /// from the identities that `ids` gave out before. The data graph is
    /// what `initializer` returns when it is run in the store's first update
    /// scope, which issues stamps from zero.
    pub fn initialize<F>(ids: &mut StoreIdProvider, initializer: F) -> (store: Self) where
        F: FnOnce(&mut UpdateContext) -> R,

        requires
            forall|c: &mut UpdateContext|
                *c == UpdateContext::at(0, old(ids).next()) ==> call_requires(initializer, (c,)),
        ensures
            store.wf(),
            store.identity() == old(ids).next(),
            final(ids).next() == StoreIdProvider::following(store.identity()),
            store.subscribers().listeners().len() == 0,
            store.subscribers().waiters().len() == 0,
            !store.subscribers().is_closed(),
            store.subscribers().issued() == 0,
            exists|c: &mut UpdateContext| #[trigger]
                call_ensures(initializer, (c,), store.root()) && *c == UpdateContext::at(
                    0,
                    store.identity(),
                ) && store.pending_version() == Self::resumed(*c, *final(c)),
    {
        Self::with_id(ids.next_id(), initializer)
    }

    /// Builds the store with identity `store_id`. The data graph is what
    /// `initializer` returns when it is run in the store's first update
    /// scope, which issues stamps from zero.
    fn with_id<F>(store_id: usize, initializer: F) -> (store: Self) where
        F: FnOnce(&mut UpdateContext) -> R,

        requires
            forall|c: &mut UpdateContext|
                *c == UpdateContext::at(0, store_id) ==> call_requires(initializer, (c,)),
        ensures
            store.wf(),
            store.identity() == store_id,
            store.subscribers().listeners().len() == 0,
            store.subscribers().waiters().len() == 0,
            !store.subscribers().is_closed(),
            store.subscribers().issued() == 0,
            exists|c: &mut UpdateContext| #[trigger]
                call_ensures(initializer, (c,), store.root()) && *c == UpdateContext::at(
                    0,
                    store_id,
                ) && store.pending_version() == Self::resumed(*c, *final(c)),
    {
        let mut provider = UpdateContextProvider::new();
        let mut context = provider.update_context(store_id);
        let root = initializer(&mut context);
        provider.resume(store_id, context);
        let update_broadcaster = UpdateBroadcaster::new(store_id);
        let store = Store { root, provider, store_id, update_broadcaster };
        assert(store.root() == root);
        store
    }

    /// The store's identity, which stays the same for the store's lifetime.
    pub fn id(&self) -> (id: usize)
        ensures
            id == self.identity(),
    {
        self.store_id
    }

    /// Reports whether the store's next update scope has a stamp to issue.
    pub fn can_stamp(&self) -> (b: bool)
        ensures
            b == self.update_context().has_stamps(),
    {
        proof {
            UpdateContext::lemma_at_fields(self.pending_version(), self.identity());
        }
        self.provider.update_context(self.store_id).can_stamp()
    }

    /// The data graph and the read context, for the crate's own read scopes.
    pub(crate) fn read_scope(&self) -> (scope: (&R, ReadContext))
        ensures
            *scope.0 == self.root(),
            scope.1 == self.read_context(),
            scope.1.id() == self.identity(),
    {
        (&self.root, ReadContext::new(self.store_id))
    }

    /// Runs `f` in a read scope of the store and returns what it returns.
    pub fn with<F, O>(&self, f: F) -> (output: O) where F: FnOnce(&R, ReadContext) -> O
        requires
            call_requires(f, (&self.root(), self.read_context())),
        ensures
            call_ensures(f, (&self.root(), self.read_context()), output),
    {
        f(&self.root, ReadContext::new(self.store_id))
    }

    /// Runs `f` in the store's update scope and records for every
    /// subscriber that an update completed. The wakers that the
    /// subscribers' entries held are taken out and handed back uncalled, one
    /// place for each entry and in the entries' order: a caller that shares
    /// the store behind a lock calls them
    /// ([`wake_all`](crate::on_update::wake_all)) once it has let the lock
    /// go.
    ///
    /// The store's version counter continues after the last stamp that the
    /// writer drew and never goes back ([`Self::resumed`]).
    pub fn update_deferred<F>(&mut self, f: F) -> (wakers: Vec<Option<Waker>>) where
        F: FnOnce(&mut R, &mut UpdateContext),

        requires
            old(self).wf(),
            forall|r: &mut R, c: &mut UpdateContext|
                *r == old(self).root() && *c == old(self).update_context() ==> call_requires(
                    f,
                    (r, c),
                ),
        ensures
            final(self).wf(),
            final(self).identity() == old(self).identity(),
            final(self).pending_version() >= old(self).pending_version(),
            exists|r: &mut R, c: &mut UpdateContext| #[trigger]
                call_ensures(f, (r, c), ()) && *r == old(self).root()
                    && *c == old(self).update_context() && *final(r) == final(self).root()
                    && final(self).pending_version() == Self::resumed(*c, *final(c)),
            final(self).subscribers().listeners() == old(self).subscribers().listeners(),
            final(self).subscribers().waiters() == old(self).subscribers().waiters().map_values(
                |w: WaiterState| w.after_broadcast(),
            ),
            wakers@ == old(self).subscribers().waiters().map_values(|w: WaiterState| w.waker),
            final(self).subscribers().is_closed() == old(self).subscribers().is_closed(),
            final(self).subscribers().issued() == old(self).subscribers().issued(),
    {
        let mut context = self.provider.update_context(self.store_id);
        f(&mut self.root, &mut context);
        self.provider.resume(self.store_id, context);
        self.update_broadcaster.signal()
    }

    /// Runs `f` in the store's update scope, then signals every subscriber
    /// that an update completed and calls the wakers that their entries
    /// held.
    ///
    /// The store's version counter continues after the last stamp that the
    /// writer drew and never goes back ([`Self::resumed`]).
    pub fn update<F>(&mut self, f: F) where F: FnOnce(&mut R, &mut UpdateContext)
        requires
            old(self).wf(),
            forall|r: &mut R, c: &mut UpdateContext|
                *r == old(self).root() && *c == old(self).update_context() ==> call_requires(
                    f,
                    (r, c),
                ),
        ensures
            final(self).wf(),
            final(self).identity() == old(self).identity(),
            final(self).pending_version() >= old(self).pending_version(),
            exists|r: &mut R, c: &mut UpdateContext| #[trigger]
                call_ensures(f, (r, c), ()) && *r == old(self).root()
                    && *c == old(self).update_context() && *final(r) == final(self).root()
                    && final(self).pending_version() == Self::resumed(*c, *final(c)),
            final(self).subscribers().listeners() == old(self).subscribers().listeners(),
            final(self).subscribers().waiters() == old(self).subscribers().waiters().map_values(
                |w: WaiterState| w.after_broadcast(),
            ),
            final(self).subscribers().is_closed() == old(self).subscribers().is_closed(),
            final(self).subscribers().issued() == old(self).subscribers().issued(),
    {
        let wakers = self.update_deferred(f);
        wake_all(wakers);
    }

    /// A stream of the store's "an update completed" signals. It is
    /// independent of every other subscriber and registers itself when it is
    /// first polled.
    pub fn on_update(&self) -> (stream: OnUpdate)
        requires
            self.wf(),
        ensures
            stream.registration() is None,
            stream.store() == self.identity(),
    {
        self.update_broadcaster.listener()
    }

    /// Reports whether one more subscriber can register.
    pub fn can_subscribe(&self) -> (b: bool)
        ensures
            b == self.subscribers().has_room(),
    {
        self.update_broadcaster.can_register()
    }

    /// Polls `stream`, which has to be a stream of this store, once against
    /// the store's subscribers; see [`OnUpdate::poll_next`].
    pub fn poll_update(&mut self, stream: &mut OnUpdate, waker: Waker) -> (result: Poll<
        Option<()>,
    >)
        requires
            old(self).wf(),
            old(stream).store() == old(self).identity(),
            old(stream).registration() is None && !old(self).subscribers().is_closed()
                ==> old(self).subscribers().has_room(),
        ensures
            final(self).wf(),
            final(self).root() == old(self).root(),
            final(self).identity() == old(self).identity(),
            final(self).pending_version() == old(self).pending_version(),
            OnUpdate::polled(
                *old(stream),
                old(self).subscribers(),
                *final(stream),
                final(self).subscribers(),
                waker,
                result,
            ),
    {
        stream.poll_next(&mut self.update_broadcaster, waker)
    }

    /// Ends the subscription of `stream`, which has to be a stream of this
    /// store: its entry, if it has one, leaves the store's registry.
    pub fn unsubscribe(&mut self, stream: OnUpdate)
        requires
            old(self).wf(),
            stream.store() == old(self).identity(),
        ensures
            final(self).wf(),
            final(self).root() == old(self).root(),
            final(self).identity() == old(self).identity(),
            final(self).pending_version() == old(self).pending_version(),
            OnUpdate::cancelled(stream, old(self).subscribers(), final(self).subscribers()),
    {
        stream.cancel(&mut self.update_broadcaster)
    }

    /// Tears the store's notification side down, as the store's end does:
    /// every subscriber is woken one last time and finds its stream ended.
    pub fn close(&mut self)
        requires
            old(self).wf(),
        ensures
            final(self).wf(),
            final(self).root() == old(self).root(),
            final(self).identity() == old(self).identity(),
            final(self).pending_version() == old(self).pending_version(),
            final(self).subscribers().is_closed(),
            final(self).subscribers().listeners() == old(self).subscribers().listeners(),
            final(self).subscribers().waiters() == old(self).subscribers().waiters().map_values(
                |w: WaiterState| w.after_teardown(),
            ),
            final(self).subscribers().issued() == old(self).subscribers().issued(),
    {
        self.update_broadcaster.close()
    }
}

} // verus!
