use std::sync::Arc;
use std::sync::atomic::AtomicUsize;
use std::sync::atomic::Ordering;
use std::task::Wake;
use std::task::Waker;
use viemo::on_update::wake_all;
use viemo::on_update::Poll;
use viemo::store::Store;
use viemo::store::StoreIdProvider;
use viemo::store::UpdateContext;
use viemo::versioned_cell::VersionedCell;

fn store_of<R>(id: usize, initializer: impl FnOnce(&mut UpdateContext) -> R) -> Store<R> {
    let mut ids = StoreIdProvider::new();
    for _ in 0..id {
        ids.next_id();
    }
    Store::initialize(&mut ids, initializer)
}

struct Tally(AtomicUsize);

impl Wake for Tally {
    fn wake(self: Arc<Self>) {
        self.0.fetch_add(1, Ordering::SeqCst);
    }
}

struct Graph {
    a: VersionedCell<i32>,
    b: VersionedCell<i32>,
}

#[test]
fn stores_of_one_provider_get_distinct_identities() {
    let mut ids = StoreIdProvider::new();
    let first = Store::initialize(&mut ids, |_cx| 0u8);
    let second = Store::initialize(&mut ids, |_cx| 0u8);
    let third = Store::initialize(&mut ids, |_cx| 0u8);
    assert_eq!(first.id(), 0);
    assert_eq!(second.id(), 1);
    assert_eq!(third.id(), 2);
    assert_eq!(ids.next_id(), 3);
    assert_eq!(first.id(), 0);
}

#[test]
fn store_hands_its_identity_to_both_scopes_and_to_its_cells() {
    let mut store = store_of(42, |cx| {
        assert_eq!(cx.store_id(), 42);
        VersionedCell::new(cx, 1u8)
    });
    assert_eq!(store.id(), 42);
    assert_eq!(store.with(|_root, cx| cx.store_id()), 42);
    store.update(|_root, cx| assert_eq!(cx.store_id(), 42));
    assert_eq!(store.id(), 42);
    assert_eq!(store.with(|root, _cx| root.store_id()), 42);
    assert_eq!(store.on_update().store_id(), 42);
}

#[test]
fn initializer_stamps_from_zero_and_updates_continue() {
    let mut store = store_of(0, |cx| Graph {
        a: VersionedCell::new(cx, 1),
        b: VersionedCell::new(cx, 2),
    });
    assert_eq!(store.with(|root, _cx| (root.a.version(), root.b.version())), (0, 1));
    store.update(|root, cx| root.b.touch(cx));
    assert_eq!(store.with(|root, _cx| (root.a.version(), root.b.version())), (0, 2));
    store.update(|_root, _cx| {});
    store.update(|root, cx| {
        root.a.touch(cx);
        root.b = VersionedCell::new(cx, 5);
    });
    assert_eq!(store.with(|root, _cx| (root.a.version(), root.b.version())), (3, 4));
    assert_eq!(store.with(|root, cx| (*root.a.deref(cx), *root.b.deref(cx))), (1, 5));
    assert!(store.can_stamp());
}

#[test]
fn versions_only_grow_over_many_updates() {
    let mut store = store_of(0, |cx| Graph {
        a: VersionedCell::new(cx, 0),
        b: VersionedCell::new(cx, 0),
    });
    let mut last = store.with(|root, _cx| (root.a.version(), root.b.version()));
    for round in 0..20 {
        store.update(|root, cx| {
            if round % 2 == 0 {
                let mut handle = root.a.borrow_mut(cx);
                root.a.set(&mut handle, round);
                root.a.release_mut(handle);
            }
            if round % 3 == 0 {
                root.b.touch(cx);
            }
        });
        let now = store.with(|root, _cx| (root.a.version(), root.b.version()));
        assert!(now.0 == last.0 || now.0 > last.0);
        assert!(now.1 == last.1 || now.1 > last.1);
        assert_eq!(now.0 > last.0, round % 2 == 0);
        assert_eq!(now.1 > last.1, round % 3 == 0);
        assert_ne!(now.0, now.1);
        last = now;
    }
}

#[test]
fn update_signals_subscribers_after_the_writer() {
    let mut store = store_of(0, |cx| VersionedCell::new(cx, 0u8));
    let mut stream = store.on_update();
    assert!(store.can_subscribe());
    let tally = Arc::new(Tally(AtomicUsize::new(0)));
    assert_eq!(store.poll_update(&mut stream, Waker::from(tally.clone())), Poll::Pending);
    let inside = tally.clone();
    store.update(move |_root, _cx| assert_eq!(inside.0.load(Ordering::SeqCst), 0));
    assert_eq!(tally.0.load(Ordering::SeqCst), 1);
    assert_eq!(
        store.poll_update(&mut stream, Waker::from(tally.clone())),
        Poll::Ready(Some(()))
    );
    assert_eq!(store.poll_update(&mut stream, Waker::from(tally.clone())), Poll::Pending);
}

#[test]
fn unsubscribed_stream_is_not_signalled() {
    let mut store = store_of(0, |_cx| 0u8);
    let mut stream = store.on_update();
    let tally = Arc::new(Tally(AtomicUsize::new(0)));
    assert_eq!(store.poll_update(&mut stream, Waker::from(tally.clone())), Poll::Pending);
    store.unsubscribe(stream);
    store.update(|_root, _cx| {});
    assert_eq!(tally.0.load(Ordering::SeqCst), 0);
}

#[test]
fn closing_the_store_ends_every_stream() {
    let mut store = store_of(0, |_cx| 0u8);
    let mut stream = store.on_update();
    let mut late = store.on_update();
    let tally = Arc::new(Tally(AtomicUsize::new(0)));
    assert_eq!(store.poll_update(&mut stream, Waker::from(tally.clone())), Poll::Pending);
    store.close();
    assert_eq!(tally.0.load(Ordering::SeqCst), 1);
    assert_eq!(store.poll_update(&mut stream, Waker::from(tally.clone())), Poll::Ready(None));
    assert_eq!(store.poll_update(&mut late, Waker::from(tally.clone())), Poll::Ready(None));
}

#[test]
fn each_provider_counts_from_zero_on_its_own() {
    let mut one = StoreIdProvider::new();
    let mut other = StoreIdProvider::new();
    assert_eq!(one.next_id(), 0);
    assert_eq!(one.next_id(), 1);
    assert_eq!(other.next_id(), 0);
    assert_eq!(one.next_id(), 2);
    assert_eq!(other.next_id(), 1);
    let store = Store::initialize(&mut one, |_cx| ());
    assert_eq!(store.id(), 3);
    assert_eq!(one.next_id(), 4);
}

#[test]
fn deferred_update_leaves_the_waking_to_the_caller() {
    let mut store = store_of(0, |cx| VersionedCell::new(cx, 0u8));
    let mut stream = store.on_update();
    let tally = Arc::new(Tally(AtomicUsize::new(0)));
    assert_eq!(store.poll_update(&mut stream, Waker::from(tally.clone())), Poll::Pending);
    let wakers = store.update_deferred(|root, cx| root.touch(cx));
    assert_eq!(store.with(|root, _cx| root.version()), 1);
    assert_eq!(wakers.len(), 1);
    assert_eq!(tally.0.load(Ordering::SeqCst), 0);
    wake_all(wakers);
    assert_eq!(tally.0.load(Ordering::SeqCst), 1);
    assert_eq!(
        store.poll_update(&mut stream, Waker::from(tally.clone())),
        Poll::Ready(Some(()))
    );
}
