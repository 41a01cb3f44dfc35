use std::hash::Hasher;
use viemo::memo::CellIterMemo;
use viemo::memo::CellMemo;
use viemo::memo::CellSliceMemo;
use viemo::memo::Memo;
use viemo::memo::NodeMemo;
use viemo::memo::NodeSliceMemo;
use viemo::memo::OptionCellMemo;
use viemo::memo::OptionCellSliceMemo;
use viemo::memo::OptionNodeMemo;
use viemo::memo::OptionNodeSliceMemo;
use viemo::memo::OwnedMemo;
use viemo::memo::ValueResolver;
use viemo::memo::fingerprint::fingerprint;
use viemo::memo::fingerprint::fingerprint_of;
use viemo::memo::fingerprint::hash_versions;
use viemo::memo::option_cell::differs;
use viemo::memo::option_cell::version_of;
use viemo::memo::option_cell_slice::fingerprint_opt;
use viemo::store::Store;
use viemo::store::StoreIdProvider;
use viemo::store::UpdateContext;
use viemo::versioned_cell::VersionedCell;

fn store_of<R>(id: usize, initializer: impl FnOnce(&mut UpdateContext) -> R) -> Store<R> {
    let mut ids = StoreIdProvider::new();
    for _ in 0..id {
        ids.next_id();
    }
    Store::initialize(&mut ids, initializer)
}

struct Leaf {
    a: u32,
}

struct Node {
    leaf: VersionedCell<Leaf>,
    b: u32,
}

struct Root {
    element: VersionedCell<Leaf>,
    node: VersionedCell<Node>,
    elements: Vec<VersionedCell<Leaf>>,
    nodes: Vec<VersionedCell<Node>>,
    shown: bool,
}

fn store(id: usize) -> Store<Root> {
    store_of(id, |cx| Root {
        element: VersionedCell::new(cx, Leaf { a: 0 }),
        elements: vec![
            VersionedCell::new(cx, Leaf { a: 1 }),
            VersionedCell::new(cx, Leaf { a: 2 }),
            VersionedCell::new(cx, Leaf { a: 3 }),
        ],
        node: {
            let leaf = VersionedCell::new(cx, Leaf { a: 4 });
            VersionedCell::new(cx, Node { leaf, b: 0 })
        },
        nodes: Vec::new(),
        shown: true,
    })
}

fn reference_hash(versions: &[u64]) -> u64 {
    let mut bytes = Vec::new();
    for version in versions {
        bytes.extend_from_slice(&version.to_le_bytes());
    }
    seahash::hash(&bytes)
}

#[test]
fn hash_of_versions_has_the_known_values() {
    assert_eq!(hash_versions(&[]), 14492805990617963705);
    assert_eq!(hash_versions(&[0]), 2080352221000464735);
    assert_eq!(hash_versions(&[7]), 7881822816883392747);
    assert_eq!(hash_versions(&[1, 2, 3]), 4436184725391426958);
    assert_eq!(hash_versions(&[1, 4, 3]), 9544333835101662850);
}

#[test]
fn hash_of_versions_is_the_sea_hash_of_their_bytes() {
    for versions in [vec![], vec![1u64], vec![1, 2, 3], vec![1, 4, 3], vec![u64::MAX, 0, 5, 5, 9]] {
        assert_eq!(hash_versions(&versions), reference_hash(&versions));
        let mut hasher = seahash::SeaHasher::new();
        for version in &versions {
            hasher.write_u64(*version);
        }
        assert_eq!(hash_versions(&versions), hasher.finish());
    }
}

#[test]
fn hash_of_versions_depends_on_order() {
    assert_ne!(hash_versions(&[1, 2, 3]), hash_versions(&[3, 2, 1]));
    assert_ne!(hash_versions(&[1, 2, 3]), hash_versions(&[1, 2]));
    assert_eq!(hash_versions(&[3, 2, 1]), 13259336944232282536);
}

#[test]
fn fingerprint_hashes_the_cells_versions() {
    let _ = store_of(0, |cx| {
        let mut cells = vec![
            VersionedCell::new(cx, 'a'),
            VersionedCell::new(cx, 'b'),
            VersionedCell::new(cx, 'c'),
        ];
        assert_eq!(fingerprint(&cells), hash_versions(&[0, 1, 2]));
        cells[0].touch(cx);
        assert_eq!(fingerprint(&cells), hash_versions(&[3, 1, 2]));
        let gathered: Vec<&VersionedCell<char>> = vec![&cells[2], &cells[0]];
        assert_eq!(fingerprint_of(&gathered), hash_versions(&[2, 3]));
        assert_eq!(fingerprint_opt(Some(&cells[..])), Some(hash_versions(&[3, 1, 2])));
        assert_eq!(fingerprint_opt::<char>(None), None);
        assert_eq!(fingerprint::<char>(&[]), hash_versions(&[]));
    });
}

#[test]
fn optional_fingerprints_compare_by_presence_and_value() {
    assert!(!differs(None, None));
    assert!(!differs(Some(3), Some(3)));
    assert!(differs(Some(3), Some(4)));
    assert!(differs(None, Some(0)));
    assert!(differs(Some(0), None));
    let _ = store_of(0, |cx| {
        let cell = VersionedCell::new(cx, 1u8);
        assert_eq!(version_of(Some(&cell)), Some(0));
        assert_eq!(version_of::<u8>(None), None);
    });
}

#[test]
fn cell_memo_follows_the_selected_cell() {
    let mut store = store(3);
    let mut memo = CellMemo::new(&store, |root: &Root, _cx| &root.element);
    assert_eq!(memo.store_id(), 3);
    assert!(!store.with(|root, cx| memo.refresh(root, cx).is_changed));

    store.update(|root, cx| root.elements[0].touch(cx));
    assert!(!store.with(|root, cx| memo.refresh(root, cx).is_changed));

    store.update(|root, cx| {
        let mut handle = root.element.borrow_mut(cx);
        root.element.set(&mut handle, Leaf { a: 5 });
        root.element.release_mut(handle);
    });
    let (changed, value) = store.with(|root, cx| {
        let refreshed = memo.refresh(root, cx);
        (refreshed.is_changed, refreshed.value.deref(cx).a)
    });
    assert!(changed);
    assert_eq!(value, 5);
    assert!(!store.with(|root, cx| memo.refresh_unchecked(root, cx).is_changed));

    store.update(|root, cx| root.element.touch(cx));
    assert!(store.with(|root, cx| memo.refresh(root, cx).is_changed));

    store.update(|root, cx| root.element = VersionedCell::new(cx, Leaf { a: 5 }));
    assert!(store.with(|root, cx| memo.refresh(root, cx).is_changed));
}

#[test]
fn node_memo_sees_the_node_not_the_cells_below() {
    let mut store = store(0);
    let mut memo = NodeMemo::new(&store, |root: &Root, _cx| &root.node);
    store.update(|root, cx| {
        let handle = root.node.borrow(cx);
        let _ = root.node.get(&handle).b;
        root.node.release(handle);
    });
    assert!(!store.with(|root, cx| memo.refresh(root, cx).is_changed));
    store.update(|root, cx| root.node.touch(cx));
    let (changed, leaf) = store.with(|root, cx| {
        let refreshed = memo.refresh(root, cx);
        (refreshed.is_changed, refreshed.value.deref(cx).leaf.deref(cx).a)
    });
    assert!(changed);
    assert_eq!(leaf, 4);
}

#[test]
fn option_cell_memo_tracks_presence_and_version() {
    let mut store = store(0);
    let mut memo = OptionCellMemo::new(&store, |root: &Root, _cx| root.elements.get(3));
    assert!(!store.with(|root, cx| memo.refresh(root, cx).is_changed));
    store.update(|root, cx| root.elements.push(VersionedCell::new(cx, Leaf { a: 9 })));
    let (changed, value) = store.with(|root, cx| {
        let refreshed = memo.refresh(root, cx);
        (refreshed.is_changed, refreshed.value.map(|cell| cell.deref(cx).a))
    });
    assert!(changed);
    assert_eq!(value, Some(9));
    assert!(!store.with(|root, cx| memo.refresh(root, cx).is_changed));
    store.update(|root, cx| root.elements[3].touch(cx));
    assert!(store.with(|root, cx| memo.refresh(root, cx).is_changed));
    store.update(|root, _cx| {
        root.elements.pop();
    });
    let (changed, present) = store.with(|root, cx| {
        let refreshed = memo.refresh(root, cx);
        (refreshed.is_changed, refreshed.value.is_some())
    });
    assert!(changed);
    assert!(!present);
}

#[test]
fn option_cell_resolver_reapplies_the_selector() {
    let mut store = store(0);
    let memo = OptionCellMemo::new(&store, |root: &Root, _cx| root.elements.get(0));
    let first = store.with(|root, cx| {
        memo.value_resolver().resolve(root, cx).map(|cell| (cell.version(), cell.deref(cx).a))
    });
    assert_eq!(first, Some((1, 1)));
    store.update(|root, cx| {
        let mut handle = root.elements[0].borrow_mut(cx);
        root.elements[0].set(&mut handle, Leaf { a: 8 });
        root.elements[0].release_mut(handle);
    });
    let second = store.with(|root, cx| {
        memo.value_resolver().resolve(root, cx).map(|cell| (cell.version(), cell.deref(cx).a))
    });
    assert_eq!(second, Some((6, 8)));
}

#[test]
fn option_node_memo_tracks_presence() {
    let mut store = store(0);
    let mut memo = OptionNodeMemo::new(&store, |root: &Root, _cx| root.nodes.get(0));
    assert!(!store.with(|root, cx| memo.refresh(root, cx).is_changed));
    store.update(|root, cx| {
        let leaf = VersionedCell::new(cx, Leaf { a: 0 });
        root.nodes.push(VersionedCell::new(cx, Node { leaf, b: 1 }));
    });
    assert!(store.with(|root, cx| memo.refresh(root, cx).is_changed));
}

#[test]
fn slice_memo_of_three_cells_changes_when_the_second_is_touched() {
    let mut store = store(0);
    let mut memo = CellSliceMemo::new(&store, |root: &Root, _cx| &root.elements[..]);
    let versions =
        store.with(|root, _cx| root.elements.iter().map(|c| c.version()).collect::<Vec<u64>>());
    assert_eq!(versions, vec![1, 2, 3]);
    assert_eq!(store.with(|root, _cx| fingerprint(&root.elements)), hash_versions(&[1, 2, 3]));
    assert!(!store.with(|root, cx| memo.refresh(root, cx).is_changed));

    store.update(|root, cx| {
        let _ = VersionedCell::new(cx, 0u8);
        let _ = VersionedCell::new(cx, 0u8);
    });
    store.update(|root, cx| root.elements[1].touch(cx));
    let versions =
        store.with(|root, _cx| root.elements.iter().map(|c| c.version()).collect::<Vec<u64>>());
    assert_eq!(versions[0], 1);
    assert_eq!(versions[2], 3);
    assert!(versions[1] > 3);
    let (changed, len) = store.with(|root, cx| {
        let refreshed = memo.refresh(root, cx);
        (refreshed.is_changed, refreshed.value.len())
    });
    assert!(changed);
    assert_eq!(len, 3);
    assert!(!store.with(|root, cx| memo.refresh(root, cx).is_changed));
}

#[test]
fn slice_memo_counts_reordering_and_resizing_as_change() {
    let mut store = store(0);
    let mut memo = CellSliceMemo::new(&store, |root: &Root, _cx| &root.elements[..]);
    store.update(|root, _cx| root.elements.swap(0, 2));
    assert!(store.with(|root, cx| memo.refresh(root, cx).is_changed));
    store.update(|root, _cx| root.elements.swap(0, 2));
    assert!(store.with(|root, cx| memo.refresh(root, cx).is_changed));
    store.update(|root, _cx| {
        root.elements.pop();
    });
    assert!(store.with(|root, cx| memo.refresh(root, cx).is_changed));
    store.update(|root, cx| root.element.touch(cx));
    assert!(!store.with(|root, cx| memo.refresh(root, cx).is_changed));
}

#[test]
fn node_slice_memo_follows_its_nodes() {
    let mut store = store(0);
    let mut memo = NodeSliceMemo::new(&store, |root: &Root, _cx| &root.nodes[..]);
    assert!(!store.with(|root, cx| memo.refresh(root, cx).is_changed));
    store.update(|root, cx| {
        let leaf = VersionedCell::new(cx, Leaf { a: 0 });
        root.nodes.push(VersionedCell::new(cx, Node { leaf, b: 1 }));
    });
    assert!(store.with(|root, cx| memo.refresh(root, cx).is_changed));
    store.update(|root, cx| {
        let handle = root.nodes[0].borrow_mut(cx);
        root.nodes[0].release_mut(handle);
    });
    assert!(store.with(|root, cx| memo.refresh(root, cx).is_changed));
}

#[test]
fn option_slice_memo_tracks_presence_and_versions() {
    let mut store = store(0);
    let mut memo = OptionCellSliceMemo::new(&store, |root: &Root, _cx| {
        if root.shown {
            Some(&root.elements[..])
        } else {
            None
        }
    });
    assert!(!store.with(|root, cx| memo.refresh(root, cx).is_changed));
    store.update(|root, _cx| root.shown = false);
    assert!(store.with(|root, cx| memo.refresh(root, cx).is_changed));
    store.update(|root, cx| root.elements[0].touch(cx));
    let (changed, present) = store.with(|root, cx| {
        let refreshed = memo.refresh(root, cx);
        (refreshed.is_changed, refreshed.value.is_some())
    });
    assert!(!changed);
    assert!(!present);
    store.update(|root, _cx| root.shown = true);
    assert!(store.with(|root, cx| memo.refresh(root, cx).is_changed));
    store.update(|root, cx| root.elements[2].touch(cx));
    assert!(store.with(|root, cx| memo.refresh(root, cx).is_changed));
}

#[test]
fn option_node_slice_memo_reports_change_only_on_difference() {
    let mut store = store(0);
    let mut memo = OptionNodeSliceMemo::new(&store, |root: &Root, _cx| {
        if root.shown {
            Some(&root.nodes[..])
        } else {
            None
        }
    });
    store.update(|root, cx| root.element.touch(cx));
    assert!(!store.with(|root, cx| memo.refresh(root, cx).is_changed));
    store.update(|root, _cx| root.shown = false);
    assert!(store.with(|root, cx| memo.refresh(root, cx).is_changed));
}

#[test]
fn iter_memo_follows_the_gathered_cells() {
    let mut store = store(0);
    let mut memo = CellIterMemo::new(&store, |root: &Root, _cx| {
        let mut cells: Vec<&VersionedCell<Leaf>> = root.elements.iter().rev().collect();
        cells.push(&root.element);
        cells
    });
    assert!(!store.with(|root, cx| memo.refresh(root, cx).is_changed));
    store.update(|root, cx| root.node.touch(cx));
    assert!(!store.with(|root, cx| memo.refresh(root, cx).is_changed));
    store.update(|root, cx| root.element.touch(cx));
    let (changed, values) = store.with(|root, cx| {
        let refreshed = memo.refresh(root, cx);
        let values: Vec<u32> = refreshed.value.iter().map(|cell| cell.deref(cx).a).collect();
        (refreshed.is_changed, values)
    });
    assert!(changed);
    assert_eq!(values, vec![3, 2, 1, 0]);
}

#[test]
fn owned_memo_compares_derived_values() {
    let mut store = store(0);
    let mut memo = OwnedMemo::new(&store, |root: &Root, cx| root.element.deref(cx).a % 10);
    assert_eq!(*memo.value(), 0);
    store.update(|root, cx| {
        let mut handle = root.element.borrow_mut(cx);
        root.element.set(&mut handle, Leaf { a: 20 });
        root.element.release_mut(handle);
    });
    let refreshed = store.with(|root, cx| {
        let refreshed = memo.refresh(root, cx);
        (refreshed.is_changed, *refreshed.value)
    });
    assert_eq!(refreshed, (false, 0));
    store.update(|root, cx| {
        let mut handle = root.element.borrow_mut(cx);
        root.element.set(&mut handle, Leaf { a: 23 });
        root.element.release_mut(handle);
    });
    let refreshed = store.with(|root, cx| {
        let refreshed = memo.refresh(root, cx);
        (refreshed.is_changed, *refreshed.value)
    });
    assert_eq!(refreshed, (true, 3));
    assert_eq!(*memo.value(), 3);
}

#[test]
fn touching_the_second_of_three_cells_changes_the_fingerprint() {
    let mut store = store_of(0, |cx| {
        let _first = VersionedCell::new(cx, ());
        vec![VersionedCell::new(cx, 'a'), VersionedCell::new(cx, 'b'), VersionedCell::new(cx, 'c')]
    });
    let versions = |store: &Store<Vec<VersionedCell<char>>>| {
        store.with(|cells, _cx| cells.iter().map(|c| c.version()).collect::<Vec<u64>>())
    };
    let mut memo =
        CellSliceMemo::new(&store, |cells: &Vec<VersionedCell<char>>, _cx| &cells[..]);
    assert_eq!(versions(&store), vec![1, 2, 3]);
    assert_eq!(store.with(|cells, _cx| fingerprint(cells)), 4436184725391426958);
    store.update(|cells, cx| cells[1].touch(cx));
    assert_eq!(versions(&store), vec![1, 4, 3]);
    assert_eq!(store.with(|cells, _cx| fingerprint(cells)), 9544333835101662850);
    assert!(store.with(|cells, cx| memo.refresh(cells, cx).is_changed));
}

#[test]
fn owned_memo_takes_values_that_are_not_copy() {
    let mut store = store(0);
    let mut memo =
        OwnedMemo::new(&store, |root: &Root, cx| format!("a{}", root.element.deref(cx).a));
    assert_eq!(memo.value(), "a0");
    let unchanged = store.with(|root, cx| {
        let refreshed = memo.refresh(root, cx);
        (refreshed.is_changed, refreshed.value.clone())
    });
    assert_eq!(unchanged, (false, "a0".to_string()));
    store.update(|root, cx| {
        let mut handle = root.element.borrow_mut(cx);
        root.element.set(&mut handle, Leaf { a: 9 });
        root.element.release_mut(handle);
    });
    let changed = store.with(|root, cx| {
        let refreshed = memo.refresh_unchecked(root, cx);
        (refreshed.is_changed, refreshed.value.clone())
    });
    assert_eq!(changed, (true, "a9".to_string()));
}

#[test]
fn owned_memo_as_a_memo_hands_the_value_out_by_copy() {
    let mut store = store(0);
    let mut memo = OwnedMemo::new(&store, |root: &Root, cx| root.element.deref(cx).a);
    store.update(|root, cx| {
        let mut handle = root.element.borrow_mut(cx);
        root.element.set(&mut handle, Leaf { a: 6 });
        root.element.release_mut(handle);
    });
    let refreshed = store.with(|root, cx| {
        let refreshed = Memo::refresh(&mut memo, root, cx);
        (refreshed.is_changed, refreshed.value)
    });
    assert_eq!(refreshed, (true, 6));
    assert_eq!(Memo::<Root>::store_id(&memo), 0);
}
