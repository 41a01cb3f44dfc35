//! A watcher: a stream that yields when the selections of its memos change.
//!
//! A watcher is one subscriber of a store together with an ordered
//! collection of memos and a function that turns the memos' current
//! selections into the item to yield. [`Watcher::poll_next`] is one step of
//! the stream. The first step registers the watcher with the store and
//! yields the initial state. Every later step waits for the store's signal
//! that an update completed, refreshes all the memos and yields only if at
//! least one of them reports a change.

use crate::context::ReadContext;
use crate::memo::memo::Memo;
use crate::memo::memo::Refresh;
use crate::on_update::OnUpdate;
use crate::on_update::Poll;
use crate::store::Store;
use std::task::Waker;
use vstd::prelude::*;

verus! {

/// Whether every memo of `after` is the memo of `before` at the same place
/// after a refresh against `root` in the read scope `cx` that selected the
/// value at that place of `values` and reported the bit at that place of
/// `changed`.
pub open spec fn refreshed_all<'a, R, V, M: Memo<'a, R, Value = V>>(
    before: Seq<M>,
    after: Seq<M>,
    root: &R,
    cx: ReadContext,
    values: Seq<V>,
    changed: Seq<bool>,
) -> bool {
    &&& after.len() == before.len()
    &&& values.len() == before.len()
    &&& changed.len() == before.len()
    &&& forall|i: int|
        0 <= i < before.len() ==> (#[trigger] after[i]).refreshed(
            &before[i],
            root,
            cx,
            Refresh { value: values[i], is_changed: changed[i] },
        )
}

/// Whether every memo of `memos` was built against the store `store_id`.
pub open spec fn all_bound<'a, R, M: Memo<'a, R>>(memos: Seq<M>, store_id: usize) -> bool {
    forall|i: int| 0 <= i < memos.len() ==> (#[trigger] memos[i]).store() == store_id
}

/// Whether the selector of every memo of `memos` may be run on `root` in the
/// read scope `cx`.
pub open spec fn all_ready<'a, R, M: Memo<'a, R>>(
    memos: Seq<M>,
    root: &R,
    cx: ReadContext,
) -> bool {
    forall|i: int| 0 <= i < memos.len() ==> (#[trigger] memos[i]).ready(root, cx)
}

/// Reports whether every memo of `memos` was built against the store
/// `store_id`.
pub fn bound_to<'a, R, M: Memo<'a, R>>(memos: &Vec<M>, store_id: usize) -> (b: bool)
    ensures
        b == all_bound(memos@, store_id),
{
    let mut i: usize = 0;
    while i < memos.len()
        invariant
            i <= memos@.len(),
            forall|j: int| 0 <= j < i ==> (#[trigger] memos@[j]).store() == store_id,
        decreases memos@.len() - i,
    {
        if memos[i].store_id() != store_id {
            return false;
        }
        i = i + 1;
    }
    true
}

/// Refreshes every memo of `memos`, in order, against `root`. Returns the
/// memos' current selections and, for each, whether it reported a change.
pub fn refresh_all<'a, R, V, M: Memo<'a, R, Value = V>>(
    memos: &mut Vec<M>,
    root: &'a R,
    cx: ReadContext,
) -> (out: (Vec<V>, Vec<bool>))
    requires
        all_ready(old(memos)@, root, cx),
    ensures
        refreshed_all(old(memos)@, final(memos)@, root, cx, out.0@, out.1@),
        all_ready(final(memos)@, root, cx),
        forall|i: int|
            0 <= i < old(memos)@.len() ==> (#[trigger] final(memos)@[i]).store() == old(
                memos,
            )@[i].store(),
{
    let mut values: Vec<V> = Vec::new();
    let mut changed: Vec<bool> = Vec::new();
    let mut i: usize = 0;
    while i < memos.len()
        invariant
            i <= memos@.len(),
            memos@.len() == old(memos)@.len(),
            values@.len() == i,
            changed@.len() == i,
            forall|j: int| i <= j < memos@.len() ==> memos@[j] == old(memos)@[j],
            forall|j: int|
                0 <= j < i ==> (#[trigger] memos@[j]).refreshed(
                    &old(memos)@[j],
                    root,
                    cx,
                    Refresh { value: values@[j], is_changed: changed@[j] },
                ),
            forall|j: int| 0 <= j < i ==> (#[trigger] memos@[j]).ready(root, cx),
            forall|j: int| 0 <= j < i ==> (#[trigger] memos@[j]).store() == old(memos)@[j].store(),
            all_ready(old(memos)@, root, cx),
        decreases memos@.len() - i,
    {
        let outcome = memos[i].refresh_unchecked(root, cx);
        let Refresh { value, is_changed } = outcome;
        values.push(value);
        changed.push(is_changed);
        i = i + 1;
    }
    (values, changed)
}

/// Reports whether any bit of `changed` is set.
pub fn any(changed: &Vec<bool>) -> (b: bool)
    ensures
        b == changed@.contains(true),
{
    let mut i: usize = 0;
    while i < changed.len()
        invariant
            i <= changed@.len(),
            forall|j: int| 0 <= j < i ==> !changed@[j],
        decreases changed@.len() - i,
    {
        if changed[i] {
            return true;
        }
        i = i + 1;
    }
    false
}

/// A stream over the changes of the selections of an ordered collection of
/// memos.
pub struct Watcher<M, F> {
    f: F,
    on_update: OnUpdate,
    memos: Vec<M>,
    changed: Vec<bool>,
    initial: bool,
}

impl<M, F> Watcher<M, F> {
    /// The identity of the store that the watcher watches.
    pub closed spec fn store(&self) -> usize {
        self.on_update.store()
    }

    /// The function that turns the memos' selections into the item to yield.
    pub closed spec fn mapper(&self) -> F {
        self.f
    }

    /// The watcher's subscription to the store's signals.
    pub closed spec fn stream(&self) -> OnUpdate {
        self.on_update
    }

    /// The memos, in order.
    pub closed spec fn memos(&self) -> Seq<M> {
        self.memos@
    }

    /// For each memo, whether it reported a change at the last refresh;
    /// empty before the first.
    pub closed spec fn changed(&self) -> Seq<bool> {
        self.changed@
    }

    /// Whether the watcher has not been polled yet.
    pub closed spec fn is_initial(&self) -> bool {
        self.initial
    }

    /// Whether a poll refreshes the memos: the first poll does, and so does
    /// every poll whose subscription reports a completed update.
    pub open spec fn refreshes(first: bool, signal: Poll<Option<()>>) -> bool {
        first || match signal {
            Poll::Ready(Some(_)) => true,
            _ => false,
        }
    }

    /// The watcher's subscription is one of the store that it watches.
    pub proof fn lemma_stream(&self)
        ensures
            self.stream().store() == self.store(),
    {
    }

    /// A watcher of `store` over `memos`, which all have to be built against
    /// `store`. It is unregistered and will yield the initial state first.
    pub fn new<'a, R>(store: &Store<R>, memos: Vec<M>, f: F) -> (watcher: Self) where
        M: Memo<'a, R>,

        requires
            store.wf(),
            all_bound(memos@, store.identity()),
        ensures
            watcher.store() == store.identity(),
            watcher.mapper() == f,
            watcher.memos() == memos@,
            watcher.changed() == Seq::<bool>::empty(),
            watcher.stream().registration() is None,
            watcher.is_initial(),
    {
        Watcher { f, on_update: store.on_update(), memos, changed: Vec::new(), initial: true }
    }

    /// Reports whether the watcher's subscription has registered itself.
    pub fn is_subscribed(&self) -> (b: bool)
        ensures
            b == (self.stream().registration() is Some),
    {
        self.on_update.is_registered()
    }

    /// Reports whether the watcher has not been polled yet.
    pub fn is_new(&self) -> (b: bool)
        ensures
            b == self.is_initial(),
    {
        self.initial
    }

    /// The identity of the store that the watcher watches.
    pub fn store_id(&self) -> (id: usize)
        ensures
            id == self.store(),
    {
        self.on_update.store_id()
    }

    /// For each memo, whether it reported a change at the last refresh.
    pub fn changes(&self) -> (changed: &Vec<bool>)
        ensures
            changed@ == self.changed(),
    {
        &self.changed
    }

    /// The first half of a poll: polls the watcher's subscription with
    /// `waker` ([`OnUpdate::poll_next`]) and leaves the memos alone. Returns
    /// whether this was the watcher's first poll, and what the subscription
    /// reported; [`Self::refreshes`] of the two says whether the second
    /// half, [`Self::refresh_memos`], is due.
    pub fn poll_signal<R>(&mut self, store: &mut Store<R>, waker: Waker) -> (step: (
        bool,
        Poll<Option<()>>,
    ))
        requires
            old(store).wf(),
            old(self).store() == old(store).identity(),
            old(self).stream().registration() is None && !old(
                store,
            ).subscribers().is_closed() ==> old(store).subscribers().has_room(),
        ensures
            final(store).wf(),
            final(store).root() == old(store).root(),
            final(store).identity() == old(store).identity(),
            final(store).pending_version() == old(store).pending_version(),
            step.0 == old(self).is_initial(),
            !final(self).is_initial(),
            final(self).store() == old(self).store(),
            final(self).mapper() == old(self).mapper(),
            final(self).memos() == old(self).memos(),
            final(self).changed() == old(self).changed(),
            OnUpdate::polled(
                old(self).stream(),
                old(store).subscribers(),
                final(self).stream(),
                final(store).subscribers(),
                waker,
                step.1,
            ),
    {
        let first = self.initial;
        self.initial = false;
        let signal = store.poll_update(&mut self.on_update, waker);
        (first, signal)
    }

    /// Reports whether a poll refreshes the memos.
    pub fn is_due(first: bool, signal: &Poll<Option<()>>) -> (due: bool)
        ensures
            due == Self::refreshes(first, *signal),
    {
        match signal {
            Poll::Ready(Some(_)) => true,
            _ => first,
        }
    }

    /// The second half of a poll: refreshes the memos against the store,
    /// which only has to be read. On the watcher's first poll, and whenever
    /// a memo reports a change, the watcher yields what its function makes
    /// of the current selections; otherwise it stays pending.
    pub fn refresh_memos<'a, R, V, O>(&mut self, store: &'a Store<R>, first: bool) -> (result:
        Poll<Option<O>>) where
        M: Memo<'a, R, Value = V>,
        F: Fn(Vec<V>, ReadContext) -> Option<O>,

        requires
            all_ready(old(self).memos(), &store.root(), store.read_context()),
            forall|values: Vec<V>, after: Seq<M>, changed: Seq<bool>| #[trigger]
                refreshed_all(
                    old(self).memos(),
                    after,
                    &store.root(),
                    store.read_context(),
                    values@,
                    changed,
                ) ==> call_requires(old(self).mapper(), (values, store.read_context())),
        ensures
            final(self).store() == old(self).store(),
            final(self).mapper() == old(self).mapper(),
            final(self).stream() == old(self).stream(),
            final(self).is_initial() == old(self).is_initial(),
            all_ready(final(self).memos(), &store.root(), store.read_context()),
            all_bound(old(self).memos(), old(self).store()) ==> all_bound(
                final(self).memos(),
                final(self).store(),
            ),
            exists|values: Vec<V>|
                {
                    &&& #[trigger] refreshed_all(
                        old(self).memos(),
                        final(self).memos(),
                        &store.root(),
                        store.read_context(),
                        values@,
                        final(self).changed(),
                    )
                    &&& if first || final(self).changed().contains(true) {
                        exists|item: Option<O>|
                            {
                                &&& result == Poll::Ready(item)
                                &&& #[trigger] call_ensures(
                                    old(self).mapper(),
                                    (values, store.read_context()),
                                    item,
                                )
                            }
                    } else {
                        result == Poll::<Option<O>>::Pending
                    }
                },
    {
        let (root, cx) = store.read_scope();
        let (values, changed) = refresh_all(&mut self.memos, root, cx);
        self.changed = changed;
        if first || any(&self.changed) {
            let ghost selected = values;
            assert(self.mapper() == old(self).mapper());
            assert(cx == store.read_context());
            assert(call_requires(old(self).mapper(), (values, store.read_context())));
            let item = (self.f)(values, cx);
            assert(call_ensures(old(self).mapper(), (selected, store.read_context()), item));
            assert(refreshed_all(
                old(self).memos(),
                self.memos(),
                &store.root(),
                store.read_context(),
                selected@,
                self.changed(),
            ));
            Poll::Ready(item)
        } else {
            assert(refreshed_all(
                old(self).memos(),
                self.memos(),
                &store.root(),
                store.read_context(),
                values@,
                self.changed(),
            ));
            Poll::Pending
        }
    }

    /// Polls the watcher once against its store: [`Self::poll_signal`],
    /// then, where it is due, [`Self::refresh_memos`].
    ///
    /// Every poll first polls the watcher's subscription with `waker`
    /// ([`OnUpdate::poll_next`]), so the watcher is registered from its
    /// first poll on and no update after it goes unseen. The first poll
    /// then refreshes the memos and yields the initial state, whatever they
    /// and the subscription report. Every later poll goes by the
    /// subscription. If it reports a completed update, the memos are
    /// refreshed: if any reports a change, the watcher yields what its
    /// function makes of the current selections, otherwise it stays pending.
    /// If the subscription has ended, so has the watcher; if it is pending,
    /// so is the watcher, and the memos are left alone.
    ///
    /// The watcher's function has to accept what a refresh of the memos
    /// against the store selects, in the store's read scope; it need not
    /// accept anything else.
    pub fn poll_next<'a, R, V, O>(&mut self, store: &'a mut Store<R>, waker: Waker) -> (result:
        Poll<Option<O>>) where
        M: Memo<'a, R, Value = V>,
        F: Fn(Vec<V>, ReadContext) -> Option<O>,

        requires
            old(store).wf(),
            old(self).store() == old(store).identity(),
            old(self).stream().registration() is None && !old(
                store,
            ).subscribers().is_closed() ==> old(store).subscribers().has_room(),
            all_ready(old(self).memos(), &old(store).root(), old(store).read_context()),
            forall|values: Vec<V>, after: Seq<M>, changed: Seq<bool>| #[trigger]
                refreshed_all(
                    old(self).memos(),
                    after,
                    &old(store).root(),
                    old(store).read_context(),
                    values@,
                    changed,
                ) ==> call_requires(old(self).mapper(), (values, old(store).read_context())),
        ensures
            final(store).wf(),
            final(store).root() == old(store).root(),
            final(store).identity() == old(store).identity(),
            final(store).pending_version() == old(store).pending_version(),
            final(self).store() == old(self).store(),
            final(self).mapper() == old(self).mapper(),
            !final(self).is_initial(),
            all_ready(final(self).memos(), &old(store).root(), old(store).read_context()),
            all_bound(old(self).memos(), old(self).store()) ==> all_bound(
                final(self).memos(),
                final(self).store(),
            ),
            exists|signal: Poll<Option<()>>|
                {
                    &&& #[trigger] OnUpdate::polled(
                        old(self).stream(),
                        old(store).subscribers(),
                        final(self).stream(),
                        final(store).subscribers(),
                        waker,
                        signal,
                    )
                    &&& if Self::refreshes(old(self).is_initial(), signal) {
                        exists|values: Vec<V>|
                            {
                                &&& #[trigger] refreshed_all(
                                    old(self).memos(),
                                    final(self).memos(),
                                    &old(store).root(),
                                    old(store).read_context(),
                                    values@,
                                    final(self).changed(),
                                )
                                &&& if old(self).is_initial() || final(self).changed().contains(
                                    true,
                                ) {
                                    exists|item: Option<O>|
                                        {
                                            &&& result == Poll::Ready(item)
                                            &&& #[trigger] call_ensures(
                                                old(self).mapper(),
                                                (values, old(store).read_context()),
                                                item,
                                            )
                                        }
                                } else {
                                    result == Poll::<Option<O>>::Pending
                                }
                            }
                    } else {
                        &&& result == (if signal == Poll::Ready(None::<()>) {
                            Poll::Ready(None::<O>)
                        } else {
                            Poll::<Option<O>>::Pending
                        })
                        &&& final(self).memos() == old(self).memos()
                        &&& final(self).changed() == old(self).changed()
                    }
                },
    {
        let (first, signal) = self.poll_signal(store, waker);
        let ghost after = *store;
        let ghost seen = signal;
        if !Self::is_due(first, &signal) {
            return match signal {
                Poll::Ready(None) => Poll::Ready(None),
                _ => Poll::Pending,
            };
        }
        let shared: &'a Store<R> = store;
        let result = self.refresh_memos(shared, first);
        assert(OnUpdate::polled(
            old(self).stream(),
            old(store).subscribers(),
            self.stream(),
            after.subscribers(),
            waker,
            seen,
        ));
        result
    }

    /// Ends the watcher: its subscription's entry, if it has one, leaves the
    /// store's registry, and the memos are handed back.
    pub fn cancel<R>(self, store: &mut Store<R>) -> (memos: Vec<M>)
        requires
            old(store).wf(),
            self.store() == old(store).identity(),
        ensures
            final(store).wf(),
            final(store).root() == old(store).root(),
            final(store).identity() == old(store).identity(),
            final(store).pending_version() == old(store).pending_version(),
            OnUpdate::cancelled(
                self.stream(),
                old(store).subscribers(),
                final(store).subscribers(),
            ),
            memos@ == self.memos(),
    {
        let Watcher { f: _, on_update, memos, changed: _, initial: _ } = self;
        store.unsubscribe(on_update);
        memos
    }
}

} // verus!
