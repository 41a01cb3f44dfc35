use viemo::store::Store;
use viemo::store::StoreIdProvider;
use viemo::store::UpdateContext;
use viemo::versioned_cell::VersionedCell;
use viemo::versioned_cell::is_reading;
use viemo::versioned_cell::is_writing;

fn store_of<R>(id: usize, initializer: impl FnOnce(&mut UpdateContext) -> R) -> Store<R> {
    let mut ids = StoreIdProvider::new();
    for _ in 0..id {
        ids.next_id();
    }
    Store::initialize(&mut ids, initializer)
}

#[test]
fn flag_predicates_follow_the_sign() {
    assert!(is_writing(-1));
    assert!(is_writing(isize::MIN));
    assert!(!is_writing(0));
    assert!(!is_writing(3));
    assert!(is_reading(1));
    assert!(is_reading(isize::MAX));
    assert!(!is_reading(0));
    assert!(!is_reading(-1));
}

#[test]
fn new_cells_take_consecutive_stamps() {
    let _ = store_of(7, |cx| {
        assert_eq!(cx.store_id(), 7);
        let a = VersionedCell::new(cx, 10u32);
        let b = VersionedCell::new(cx, 20u32);
        let c = VersionedCell::new(cx, 30u32);
        assert_eq!(a.version(), 0);
        assert_eq!(b.version(), 1);
        assert_eq!(c.version(), 2);
        assert_eq!(a.flag(), 0);
        assert_eq!(cx.next_version(), 3);
        assert_eq!(cx.next_version(), 4);
    });
}

#[test]
fn touch_restamps_and_keeps_value_and_flag() {
    let _ = store_of(0, |cx| {
        let mut cell = VersionedCell::new(cx, 5u8);
        let shared = cell.borrow(cx);
        let before = cell.version();
        cell.touch(cx);
        assert!(cell.version() > before);
        assert_eq!(cell.version(), 1);
        assert_eq!(cell.flag(), 1);
        assert_eq!(*cell.get(&shared), 5);
        cell.release(shared);
        assert_eq!(cell.flag(), 0);
    });
}

#[test]
fn shared_borrows_are_counted() {
    let _ = store_of(0, |cx| {
        let mut cell = VersionedCell::new(cx, 1i64);
        let first = cell.try_borrow(cx).unwrap();
        let second = cell.try_borrow(cx).unwrap();
        let third = cell.borrow(cx);
        assert_eq!(cell.flag(), 3);
        assert_eq!(first.version(), 0);
        assert_eq!(cell.version(), 0);
        assert_eq!(*cell.get(&second), 1);
        cell.release(first);
        cell.release(second);
        assert_eq!(cell.flag(), 1);
        cell.release(third);
        assert_eq!(cell.flag(), 0);
    });
}

#[test]
fn exclusive_borrow_stamps_at_once() {
    let _ = store_of(0, |cx| {
        let mut cell = VersionedCell::new(cx, 1i64);
        let mut handle = cell.try_borrow_mut(cx).unwrap();
        assert_eq!(cell.flag(), -1);
        assert_eq!(cell.version(), 1);
        assert_eq!(handle.version(), 1);
        let previous = cell.set(&mut handle, 9);
        assert_eq!(previous, 1);
        assert_eq!(cell.version(), 1);
        cell.release_mut(handle);
        assert_eq!(cell.flag(), 0);
        let mut again = cell.borrow_mut(cx);
        assert_eq!(cell.version(), 2);
        assert_eq!(cell.set(&mut again, 11), 9);
        cell.release_mut(again);
    });
}

#[test]
fn shared_borrow_conflicts_with_exclusive() {
    let _ = store_of(0, |cx| {
        let mut cell = VersionedCell::new(cx, 1i64);
        let handle = cell.borrow_mut(cx);
        let refused = cell.try_borrow(cx);
        assert!(refused.is_err());
        assert_eq!(refused.err().unwrap().message(), "already mutably borrowed");
        assert_eq!(cell.flag(), -1);
        assert_eq!(cell.version(), 1);
        cell.release_mut(handle);
        assert!(cell.try_borrow(cx).is_ok());
    });
}

#[test]
fn exclusive_borrow_conflicts_with_any_borrow() {
    let _ = store_of(0, |cx| {
        let mut cell = VersionedCell::new(cx, 1i64);
        let shared = cell.borrow(cx);
        let refused = cell.try_borrow_mut(cx);
        assert!(refused.is_err());
        assert_eq!(refused.err().unwrap().message(), "already borrowed");
        assert_eq!(cell.flag(), 1);
        assert_eq!(cell.version(), 0);
        assert_eq!(cx.next_version(), 1);
        cell.release(shared);
        let exclusive = cell.borrow_mut(cx);
        let second = cell.try_borrow_mut(cx);
        assert!(second.is_err());
        assert_eq!(cell.flag(), -1);
        assert_eq!(cell.version(), 2);
        cell.release_mut(exclusive);
    });
}

#[test]
fn stamps_never_repeat_across_cells() {
    let _ = store_of(0, |cx| {
        let mut cells = vec![
            VersionedCell::new(cx, 0u8),
            VersionedCell::new(cx, 0u8),
            VersionedCell::new(cx, 0u8),
        ];
        cells[1].touch(cx);
        let handle = cells[0].borrow_mut(cx);
        cells[0].release_mut(handle);
        cells.push(VersionedCell::new(cx, 0u8));
        let versions: Vec<u64> = cells.iter().map(|c| c.version()).collect();
        assert_eq!(versions, vec![4, 3, 2, 5]);
        for i in 0..versions.len() {
            for j in 0..versions.len() {
                if i != j {
                    assert_ne!(versions[i], versions[j]);
                }
            }
        }
    });
}

#[test]
fn exclusive_handle_reads_and_writes_in_place() {
    let _ = store_of(0, |cx| {
        let mut cell = VersionedCell::new(cx, vec![1u8, 2]);
        let mut handle = cell.borrow_mut(cx);
        assert_eq!(*cell.get_mut(&mut handle), vec![1, 2]);
        cell.get_mut(&mut handle).push(3);
        assert_eq!(cell.version(), 1);
        assert_eq!(cell.flag(), -1);
        cell.release_mut(handle);
        let shared = cell.borrow(cx);
        assert_eq!(*cell.get(&shared), vec![1, 2, 3]);
        cell.release(shared);
    });
}

#[test]
fn a_handle_names_the_cell_it_was_taken_from() {
    let _ = store_of(3, |cx| {
        let mut one = VersionedCell::new(cx, 1u8);
        let mut other = VersionedCell::new(cx, 2u8);
        assert_eq!(one.store_id(), 3);
        let shared = one.borrow(cx);
        assert!(one.lent(&shared));
        assert!(!other.lent(&shared));
        one.touch(cx);
        assert!(one.lent(&shared));
        one.release(shared);
        let exclusive = other.borrow_mut(cx);
        assert!(other.lent_mut(&exclusive));
        assert!(!one.lent_mut(&exclusive));
        assert_eq!(*other.value_of(&exclusive), 2);
        other.release_mut(exclusive);
    });
    let _ = store_of(4, |cx| {
        let mut cell = VersionedCell::new(cx, 1u8);
        assert_eq!(cell.store_id(), 4);
        assert_eq!(cx.store_id(), cell.store_id());
        let handle = cell.borrow(cx);
        assert!(cell.lent(&handle));
        cell.release(handle);
    });
}
