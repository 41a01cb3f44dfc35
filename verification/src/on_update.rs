//! The notification side of a store: a registry of waiters that is signalled
//! after every update, and the per-subscriber stream over it.
//!
//! Nothing here suspends. [`OnUpdate::poll_next`] is one step of the stream:
//! it is handed the waker to call when the stream should be polled again and
//! says whether an item is ready, whether the stream has ended, or whether the
//! caller has to wait.

use crate::broadcast::Broadcaster;
use crate::broadcast::Listener;
use std::task::Waker;
use vstd::prelude::*;

verus! {

#[verifier::external_type_specification]
#[verifier::external_body]
pub struct ExWaker(Waker);

/// Calls `std::task::Waker::wake` on `waker`, which consumes it. What the
/// task's executor does with the wake-up is not visible here, so nothing is
/// claimed.
#[verifier::external_body]
fn wake(waker: Waker) {
    waker.wake()
}

/// Calls every waker in `wakers`, the first place first.
pub fn wake_all(wakers: Vec<Option<Waker>>) {
    let mut wakers = wakers;
    let mut i: usize = 0;
    while i < wakers.len()
        invariant
            i <= wakers@.len(),
        decreases wakers@.len() - i,
    {
        match wakers[i].take() {
            Some(waker) => wake(waker),
            None => {},
        }
        i = i + 1;
    }
}

/// The result of polling a stream once.
#[derive(PartialEq, Eq, Structural, Debug)]
pub enum Poll<T> {
    /// A result is available.
    Ready(T),
    /// Nothing is available yet; the waker handed in will be called.
    Pending,
}

/// What a registered subscriber's entry records.
pub struct WaiterState {
    /// The registry was torn down; the subscriber's stream has ended.
    pub terminated: bool,
    /// An update completed since the subscriber last polled.
    pub notified: bool,
    /// The waker that is held, to be called at the next signal.
    pub waker: Option<Waker>,
}

impl WaiterState {
    /// The entry of a subscriber that has just registered with `waker`.
    pub open spec fn fresh(waker: Waker) -> WaiterState {
        WaiterState { terminated: false, notified: false, waker: Some(waker) }
    }

    /// Whether a waker is held.
    pub open spec fn armed(self) -> bool {
        self.waker is Some
    }

    /// The entry after an update completed: the waker was taken out to be
    /// called, and the wake flag is set.
    pub open spec fn after_broadcast(self) -> WaiterState {
        WaiterState { terminated: self.terminated, notified: true, waker: None }
    }

    /// The entry after the registry was torn down: the waker was taken out
    /// to be called.
    pub open spec fn after_teardown(self) -> WaiterState {
        WaiterState { terminated: true, notified: self.notified, waker: None }
    }

    /// The entry after its subscriber polled with `waker`: a terminated
    /// entry stays as it is, any other holds `waker` from now on and its
    /// wake flag is cleared.
    pub open spec fn after_poll(self, waker: Waker) -> WaiterState {
        if self.terminated {
            self
        } else {
            WaiterState::fresh(waker)
        }
    }

    /// What a poll of the subscriber reports.
    pub open spec fn poll_result(self) -> Poll<Option<()>> {
        if self.terminated {
            Poll::Ready(None)
        } else if self.notified {
            Poll::Ready(Some(()))
        } else {
            Poll::Pending
        }
    }
}

/// One subscriber's entry in the registry.
pub struct Waiter {
    terminated: bool,
    notified: bool,
    waker: Option<Waker>,
}

impl View for Waiter {
    type V = WaiterState;

    closed spec fn view(&self) -> WaiterState {
        WaiterState { terminated: self.terminated, notified: self.notified, waker: self.waker }
    }
}

/// The registry of a store's subscribers.
pub struct UpdateBroadcaster {
    inner: Broadcaster<Waiter>,
    owner: usize,
    closed: bool,
}

impl UpdateBroadcaster {
    /// The registry's invariant: the underlying list is well formed, and
    /// after teardown every entry is terminated.
    pub closed spec fn wf(&self) -> bool {
        &&& self.inner.wf()
        &&& self.closed ==> forall|i: int|
            0 <= i < self.inner.payloads().len() ==> (
            #[trigger] self.inner.payloads()[i]).terminated
    }

    /// The handles of the registered subscribers, most recent first.
    pub closed spec fn listeners(&self) -> Seq<Listener> {
        self.inner.listeners()
    }

    /// The entries of the registered subscribers, in the order of
    /// [`Self::listeners`].
    pub closed spec fn waiters(&self) -> Seq<WaiterState> {
        self.inner.payloads().map_values(|w: Waiter| w@)
    }

    /// Whether the registry was torn down.
    pub closed spec fn is_closed(&self) -> bool {
        self.closed
    }

    /// The identity of the store whose registry this is.
    pub closed spec fn owner(&self) -> usize {
        self.owner
    }

    /// How many subscribers have ever registered.
    pub closed spec fn issued(&self) -> nat {
        self.inner.issued()
    }

    /// Whether one more subscriber can register.
    pub open spec fn has_room(&self) -> bool {
        self.issued() < u64::MAX
    }

    /// There is one entry per handle and no handle occurs twice; after
    /// teardown every entry is terminated.
    pub proof fn lemma_entries(&self)
        requires
            self.wf(),
        ensures
            self.listeners().no_duplicates(),
            self.listeners().len() == self.waiters().len(),
            self.is_closed() ==> forall|i: int|
                0 <= i < self.waiters().len() ==> (#[trigger] self.waiters()[i]).terminated,
    {
        self.inner.lemma_listeners_distinct();
        if self.closed {
            assert forall|i: int| 0 <= i < self.waiters().len() implies (
            #[trigger] self.waiters()[i]).terminated by {
                assert(self.inner.payloads()[i].terminated);
            }
        }
    }

    /// The registry of the store `owner`, without subscribers.
    pub fn new(owner: usize) -> (b: Self)
        ensures
            b.wf(),
            b.owner() == owner,
            b.listeners() == Seq::<Listener>::empty(),
            b.waiters() == Seq::<WaiterState>::empty(),
            !b.is_closed(),
            b.issued() == 0,
    {
        let b = UpdateBroadcaster { inner: Broadcaster::new(), owner, closed: false };
        assert(b.waiters() =~= Seq::<WaiterState>::empty());
        b
    }

    /// The identity of the store whose registry this is.
    pub fn owner_id(&self) -> (id: usize)
        ensures
            id == self.owner(),
    {
        self.owner
    }

    /// Reports whether the registry was torn down.
    pub fn closed(&self) -> (b: bool)
        ensures
            b == self.is_closed(),
    {
        self.closed
    }

    /// Reports whether one more subscriber can register.
    pub fn can_register(&self) -> (b: bool)
        ensures
            b == self.has_room(),
    {
        self.inner.can_register()
    }

    /// Records that an update completed: sets every entry's wake flag and
    /// takes every waker that is held out of its entry. The wakers are
    /// handed out uncalled, one place for each entry and in the entries'
    /// order, for the caller to call ([`wake_all`]).
    pub fn signal(&mut self) -> (wakers: Vec<Option<Waker>>)
        requires
            old(self).wf(),
        ensures
            final(self).wf(),
            final(self).listeners() == old(self).listeners(),
            final(self).waiters() == old(self).waiters().map_values(
                |w: WaiterState| w.after_broadcast(),
            ),
            wakers@ == old(self).waiters().map_values(|w: WaiterState| w.waker),
            final(self).is_closed() == old(self).is_closed(),
            final(self).owner() == old(self).owner(),
            final(self).issued() == old(self).issued(),
    {
        let take = |w: Waiter| -> (r: (Waiter, Option<Waker>))
            ensures
                r.0@ == w@.after_broadcast(),
                r.1 == w@.waker,
            {
                let Waiter { terminated, notified: _, waker } = w;
                (Waiter { terminated, notified: true, waker: None }, waker)
            };
        let wakers = self.inner.visit(&take);
        proof {
            assert forall|i: int| 0 <= i < self.waiters().len() implies self.waiters()[i] == old(
                self,
            ).waiters()[i].after_broadcast() && wakers@[i] == old(self).waiters()[i].waker && (
            old(self).inner.payloads()[i].terminated ==> self.inner.payloads()[i].terminated) by {
                assert(call_ensures(
                    take,
                    (old(self).inner.payloads()[i],),
                    (self.inner.payloads()[i], wakers@[i]),
                ));
            }
            assert(self.waiters() =~= old(self).waiters().map_values(
                |w: WaiterState| w.after_broadcast(),
            ));
            assert(wakers@ =~= old(self).waiters().map_values(|w: WaiterState| w.waker));
            if self.closed {
                assert forall|i: int| 0 <= i < self.inner.payloads().len() implies (
                #[trigger] self.inner.payloads()[i]).terminated by {
                    assert(old(self).inner.payloads()[i].terminated);
                    assert(self.waiters()[i] == old(self).waiters()[i].after_broadcast());
                }
            }
        }
        wakers
    }

    /// Signals that an update completed: sets every entry's wake flag,
    /// takes every waker that is held out of its entry and calls it.
    pub fn broadcast(&mut self)
        requires
            old(self).wf(),
        ensures
            final(self).wf(),
            final(self).listeners() == old(self).listeners(),
            final(self).waiters() == old(self).waiters().map_values(
                |w: WaiterState| w.after_broadcast(),
            ),
            final(self).is_closed() == old(self).is_closed(),
            final(self).owner() == old(self).owner(),
            final(self).issued() == old(self).issued(),
    {
        let wakers = self.signal();
        wake_all(wakers);
    }

    /// Tears the registry down without calling anybody: marks every entry
    /// terminated and takes every waker that is held out of its entry. The
    /// wakers are handed out uncalled, one place for each entry and in the
    /// entries' order, for the caller to call ([`wake_all`]).
    pub fn end(&mut self) -> (wakers: Vec<Option<Waker>>)
        requires
            old(self).wf(),
        ensures
            final(self).wf(),
            final(self).is_closed(),
            final(self).listeners() == old(self).listeners(),
            final(self).waiters() == old(self).waiters().map_values(
                |w: WaiterState| w.after_teardown(),
            ),
            wakers@ == old(self).waiters().map_values(|w: WaiterState| w.waker),
            final(self).owner() == old(self).owner(),
            final(self).issued() == old(self).issued(),
    {
        let take = |w: Waiter| -> (r: (Waiter, Option<Waker>))
            ensures
                r.0@ == w@.after_teardown(),
                r.1 == w@.waker,
            {
                let Waiter { terminated: _, notified, waker } = w;
                (Waiter { terminated: true, notified, waker: None }, waker)
            };
        let wakers = self.inner.visit(&take);
        self.closed = true;
        proof {
            assert forall|i: int| 0 <= i < self.waiters().len() implies self.waiters()[i] == old(
                self,
            ).waiters()[i].after_teardown() && wakers@[i] == old(self).waiters()[i].waker
                && self.inner.payloads()[i].terminated by {
                assert(call_ensures(
                    take,
                    (old(self).inner.payloads()[i],),
                    (self.inner.payloads()[i], wakers@[i]),
                ));
            }
            assert(self.waiters() =~= old(self).waiters().map_values(
                |w: WaiterState| w.after_teardown(),
            ));
            assert(wakers@ =~= old(self).waiters().map_values(|w: WaiterState| w.waker));
            assert forall|i: int| 0 <= i < self.inner.payloads().len() implies (
            #[trigger] self.inner.payloads()[i]).terminated by {
                assert(self.waiters()[i] == old(self).waiters()[i].after_teardown());
            }
        }
        wakers
    }

    /// Tears the registry down: marks every entry terminated, takes every
    /// waker that is held out of its entry and calls it one last time.
    /// Subscribers that poll afterwards find their stream ended, and nobody
    /// registers any more.
    pub fn close(&mut self)
        requires
            old(self).wf(),
        ensures
            final(self).wf(),
            final(self).is_closed(),
            final(self).listeners() == old(self).listeners(),
            final(self).waiters() == old(self).waiters().map_values(
                |w: WaiterState| w.after_teardown(),
            ),
            final(self).owner() == old(self).owner(),
            final(self).issued() == old(self).issued(),
    {
        let wakers = self.end();
        wake_all(wakers);
    }

    /// A stream of this registry's signals. It registers itself when it is
    /// first polled, so the registry is unchanged until then.
    pub fn listener(&self) -> (stream: OnUpdate)
        ensures
            stream.registration() is None,
            stream.store() == self.owner(),
    {
        OnUpdate { owner: self.owner, listener: None }
    }

    /// Removes the subscriber that `listener` names, if it is registered.
    pub fn unregister(&mut self, listener: &Listener)
        requires
            old(self).wf(),
        ensures
            final(self).wf(),
            final(self).is_closed() == old(self).is_closed(),
            final(self).owner() == old(self).owner(),
            final(self).issued() == old(self).issued(),
            !final(self).listeners().contains(*listener),
            old(self).listeners().contains(*listener) ==> {
                let i = old(self).listeners().index_of(*listener);
                &&& final(self).listeners() == old(self).listeners().remove(i)
                &&& final(self).waiters() == old(self).waiters().remove(i)
            },
            !old(self).listeners().contains(*listener) ==> {
                &&& final(self).listeners() == old(self).listeners()
                &&& final(self).waiters() == old(self).waiters()
            },
    {
        proof {
            self.inner.lemma_listeners_distinct();
        }
        let _ = self.inner.unlink(listener);
        proof {
            if old(self).listeners().contains(*listener) {
                let i = old(self).listeners().index_of(*listener);
                assert(self.waiters() =~= old(self).waiters().remove(i));
                if self.closed {
                    assert forall|a: int| 0 <= a < self.inner.payloads().len() implies (
                    #[trigger] self.inner.payloads()[a]).terminated by {
                        let a0 = if a < i {
                            a
                        } else {
                            a + 1
                        };
                        assert(old(self).inner.payloads()[a0].terminated);
                    }
                }
            }
        }
    }

    /// Registers a new subscriber that holds `waker`.
    fn register(&mut self, waker: Waker) -> (listener: Listener)
        requires
            old(self).wf(),
            old(self).has_room(),
            !old(self).is_closed(),
        ensures
            final(self).wf(),
            !final(self).is_closed(),
            final(self).owner() == old(self).owner(),
            final(self).listeners() == old(self).listeners().insert(0, listener),
            final(self).waiters() == old(self).waiters().insert(0, WaiterState::fresh(waker)),
            !old(self).listeners().contains(listener),
            listener.serial() == old(self).issued(),
            final(self).issued() == old(self).issued() + 1,
    {
        let waiter = Waiter { terminated: false, notified: false, waker: Some(waker) };
        let listener = self.inner.listener(waiter);
        proof {
            assert(self.waiters() =~= old(self).waiters().insert(0, WaiterState::fresh(waker)));
        }
        listener
    }

    /// One poll of the subscriber registered as `listener`, which hands in
    /// `waker` for the next signal.
    fn poll(&mut self, listener: &Listener, waker: Waker) -> (result: Poll<Option<()>>)
        requires
            old(self).wf(),
        ensures
            final(self).wf(),
            final(self).is_closed() == old(self).is_closed(),
            final(self).owner() == old(self).owner(),
            final(self).issued() == old(self).issued(),
            final(self).listeners() == old(self).listeners(),
            old(self).listeners().contains(*listener) ==> {
                let i = old(self).listeners().index_of(*listener);
                &&& result == old(self).waiters()[i].poll_result()
                &&& final(self).waiters() == old(self).waiters().update(
                    i,
                    old(self).waiters()[i].after_poll(waker),
                )
            },
            !old(self).listeners().contains(*listener) ==> {
                &&& result == Poll::Ready(None::<()>)
                &&& final(self).waiters() == old(self).waiters()
            },
    {
        proof {
            self.inner.lemma_listeners_distinct();
        }
        let (terminated, notified) = match self.inner.get(listener) {
            Some(w) => (w.terminated, w.notified),
            None => { return Poll::Ready(None); },
        };
        let ghost i = self.listeners().index_of(*listener);
        if terminated {
            proof {
                assert(self.waiters() =~= old(self).waiters().update(
                    i,
                    old(self).waiters()[i].after_poll(waker),
                ));
            }
            return Poll::Ready(None);
        }
        let rearmed = Waiter { terminated: false, notified: false, waker: Some(waker) };
        let _ = self.inner.replace(listener, rearmed);
        proof {
            assert(self.waiters() =~= old(self).waiters().update(
                i,
                old(self).waiters()[i].after_poll(waker),
            ));
            if self.closed {
                assert(old(self).inner.payloads()[i].terminated);
            }
        }
        if notified {
            Poll::Ready(Some(()))
        } else {
            Poll::Pending
        }
    }
}

/// A subscriber's stream of "an update completed" signals.
///
/// The stream is unregistered until it is first polled. Once registered it
/// owns the handle of its entry in the registry.
pub struct OnUpdate {
    owner: usize,
    listener: Option<Listener>,
}

impl OnUpdate {
    /// The handle under which the stream is registered, if it is.
    pub closed spec fn registration(&self) -> Option<Listener> {
        self.listener
    }

    /// The identity of the store whose signals the stream is for.
    pub closed spec fn store(&self) -> usize {
        self.owner
    }

    /// What one poll with `waker` does: `stream` and `registry` before the
    /// poll, `next` and `after` after it, and the `result` reported.
    pub open spec fn polled(
        stream: OnUpdate,
        registry: UpdateBroadcaster,
        next: OnUpdate,
        after: UpdateBroadcaster,
        waker: Waker,
        result: Poll<Option<()>>,
    ) -> bool {
        &&& after.is_closed() == registry.is_closed()
        &&& after.owner() == registry.owner()
        &&& next.store() == stream.store()
        &&& match stream.registration() {
            None => if registry.is_closed() {
                &&& result == Poll::Ready(None::<()>)
                &&& next.registration() is None
                &&& after.listeners() == registry.listeners()
                &&& after.waiters() == registry.waiters()
                &&& after.issued() == registry.issued()
            } else {
                &&& result == Poll::<Option<()>>::Pending
                &&& next.registration() matches Some(l)
                &&& !registry.listeners().contains(l)
                &&& l.serial() == registry.issued()
                &&& after.listeners() == registry.listeners().insert(0, l)
                &&& after.waiters() == registry.waiters().insert(0, WaiterState::fresh(waker))
                &&& after.issued() == registry.issued() + 1
            },
            Some(l) => {
                &&& next.registration() == Some(l)
                &&& after.listeners() == registry.listeners()
                &&& after.issued() == registry.issued()
                &&& if registry.listeners().contains(l) {
                    let i = registry.listeners().index_of(l);
                    &&& result == registry.waiters()[i].poll_result()
                    &&& after.waiters() == registry.waiters().update(
                        i,
                        registry.waiters()[i].after_poll(waker),
                    )
                } else {
                    &&& result == Poll::Ready(None::<()>)
                    &&& after.waiters() == registry.waiters()
                }
            },
        }
    }

    /// What cancelling does: `stream` is given up, and `registry` becomes
    /// `after`.
    pub open spec fn cancelled(
        stream: OnUpdate,
        registry: UpdateBroadcaster,
        after: UpdateBroadcaster,
    ) -> bool {
        &&& after.is_closed() == registry.is_closed()
        &&& after.owner() == registry.owner()
        &&& after.issued() == registry.issued()
        &&& match stream.registration() {
            Some(l) if registry.listeners().contains(l) => {
                let i = registry.listeners().index_of(l);
                &&& after.listeners() == registry.listeners().remove(i)
                &&& after.waiters() == registry.waiters().remove(i)
            },
            _ => {
                &&& after.listeners() == registry.listeners()
                &&& after.waiters() == registry.waiters()
            },
        }
    }

    /// The stream ends for good with its registry: once the registry was
    /// torn down, every poll reports the end of the stream and leaves the
    /// registry as it is.
    pub proof fn lemma_ended_after_teardown(
        stream: OnUpdate,
        registry: UpdateBroadcaster,
        next: OnUpdate,
        after: UpdateBroadcaster,
        waker: Waker,
        result: Poll<Option<()>>,
    )
        requires
            registry.wf(),
            registry.is_closed(),
            OnUpdate::polled(stream, registry, next, after, waker, result),
        ensures
            result == Poll::Ready(None::<()>),
            after.is_closed(),
            after.listeners() == registry.listeners(),
            after.waiters() == registry.waiters(),
            next.registration() == stream.registration(),
    {
        registry.lemma_entries();
        match stream.registration() {
            Some(l) => {
                if registry.listeners().contains(l) {
                    let i = registry.listeners().index_of(l);
                    assert(registry.waiters()[i].terminated);
                    assert(after.waiters() =~= registry.waiters());
                }
            },
            None => {},
        }
    }

    /// Reports whether the stream has registered itself.
    pub fn is_registered(&self) -> (b: bool)
        ensures
            b == (self.registration() is Some),
    {
        self.listener.is_some()
    }

    /// The identity of the store whose signals the stream is for.
    pub fn store_id(&self) -> (id: usize)
        ensures
            id == self.store(),
    {
        self.owner
    }

    /// Polls the stream once against the registry it belongs to, which has
    /// to be the one of the store that the stream was made for.
    ///
    /// An unregistered stream registers itself with `waker` and reports
    /// `Pending`, unless the registry was torn down: then it reports the end
    /// of the stream and stays unregistered. A registered stream reports
    /// what its entry says ([`WaiterState::poll_result`]) and, unless the
    /// entry is terminated, puts `waker` into it and clears its wake flag.
    /// A stream whose entry is no longer in the registry has ended.
    pub fn poll_next(&mut self, broadcaster: &mut UpdateBroadcaster, waker: Waker) -> (result: Poll<
        Option<()>,
    >)
        requires
            old(broadcaster).wf(),
            old(self).store() == old(broadcaster).owner(),
            old(self).registration() is None && !old(broadcaster).is_closed() ==> old(
                broadcaster,
            ).has_room(),
        ensures
            final(broadcaster).wf(),
            OnUpdate::polled(
                *old(self),
                *old(broadcaster),
                *final(self),
                *final(broadcaster),
                waker,
                result,
            ),
    {
        match &self.listener {
            None => {
                if broadcaster.closed() {
                    Poll::Ready(None)
                } else {
                    let listener = broadcaster.register(waker);
                    self.listener = Some(listener);
                    Poll::Pending
                }
            },
            Some(listener) => broadcaster.poll(listener, waker),
        }
    }

    /// Ends the subscription: the stream's entry, if it has one, leaves the
    /// registry, which has to be the one of the store that the stream was
    /// made for.
    pub fn cancel(self, broadcaster: &mut UpdateBroadcaster)
        requires
            old(broadcaster).wf(),
            self.store() == old(broadcaster).owner(),
        ensures
            final(broadcaster).wf(),
            OnUpdate::cancelled(self, *old(broadcaster), *final(broadcaster)),
    {
        match self.listener {
            Some(listener) => broadcaster.unregister(&listener),
            None => {},
        }
    }
}

impl Clone for OnUpdate {
    /// A clone is a fresh, unregistered stream for the same store: it
    /// shares no wake state with the stream it was cloned from.
    fn clone(&self) -> (stream: Self)
        ensures
            stream.registration() is None,
            stream.store() == self.store(),
    {
        OnUpdate { owner: self.owner, listener: None }
    }
}

} // verus!
