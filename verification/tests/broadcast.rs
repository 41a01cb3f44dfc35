use std::cell::RefCell;
use viemo::Broadcaster;

#[test]
fn broadcast_reaches_every_listener_once_most_recent_first() {
    let mut broadcaster: Broadcaster<(u32, u32)> = Broadcaster::new();
    let a = broadcaster.listener((1, 0));
    let b = broadcaster.listener((2, 0));
    let c = broadcaster.listener((3, 0));
    let seen = RefCell::new(Vec::new());
    broadcaster.broadcast(&|payload: (u32, u32)| {
        seen.borrow_mut().push(payload.0);
        (payload.0, payload.1 + 1)
    });
    assert_eq!(*seen.borrow(), vec![3, 2, 1]);
    assert_eq!(broadcaster.get(&a), Some(&(1, 1)));
    assert_eq!(broadcaster.get(&b), Some(&(2, 1)));
    assert_eq!(broadcaster.get(&c), Some(&(3, 1)));
    broadcaster.broadcast(&|payload: (u32, u32)| (payload.0, payload.1 + 1));
    assert_eq!(broadcaster.get(&b), Some(&(2, 2)));
}

#[test]
fn broadcast_on_empty_registry_calls_nothing() {
    let mut broadcaster: Broadcaster<u8> = Broadcaster::new();
    let calls = RefCell::new(0);
    broadcaster.broadcast(&|payload: u8| {
        *calls.borrow_mut() += 1;
        payload
    });
    assert_eq!(*calls.borrow(), 0);
    assert!(broadcaster.can_register());
}

#[test]
fn unlink_removes_head_middle_and_tail() {
    let mut broadcaster: Broadcaster<char> = Broadcaster::new();
    let a = broadcaster.listener('a');
    let b = broadcaster.listener('b');
    let c = broadcaster.listener('c');
    let d = broadcaster.listener('d');
    let order = |broadcaster: &mut Broadcaster<char>| {
        let seen = RefCell::new(Vec::new());
        broadcaster.broadcast(&|payload: char| {
            seen.borrow_mut().push(payload);
            payload
        });
        seen.into_inner()
    };
    assert_eq!(order(&mut broadcaster), vec!['d', 'c', 'b', 'a']);
    assert_eq!(broadcaster.unlink(&c), Some('c'));
    assert_eq!(order(&mut broadcaster), vec!['d', 'b', 'a']);
    assert_eq!(broadcaster.unlink(&d), Some('d'));
    assert_eq!(order(&mut broadcaster), vec!['b', 'a']);
    assert_eq!(broadcaster.unlink(&a), Some('a'));
    assert_eq!(order(&mut broadcaster), vec!['b']);
    assert_eq!(broadcaster.unlink(&b), Some('b'));
    assert_eq!(order(&mut broadcaster), Vec::<char>::new());
}

#[test]
fn unlink_is_idempotent() {
    let mut broadcaster: Broadcaster<u8> = Broadcaster::new();
    let a = broadcaster.listener(1);
    let b = broadcaster.listener(2);
    assert_eq!(broadcaster.unlink(&a), Some(1));
    assert_eq!(broadcaster.unlink(&a), None);
    assert_eq!(broadcaster.get(&a), None);
    assert_eq!(broadcaster.get(&b), Some(&2));
}

#[test]
fn stale_handle_does_not_match_a_reused_slot() {
    let mut broadcaster: Broadcaster<u8> = Broadcaster::new();
    let a = broadcaster.listener(1);
    assert_eq!(broadcaster.unlink(&a), Some(1));
    let b = broadcaster.listener(2);
    assert_eq!(broadcaster.get(&a), None);
    assert_eq!(broadcaster.unlink(&a), None);
    assert_eq!(broadcaster.replace(&a, 9), Err(9));
    assert_eq!(broadcaster.get(&b), Some(&2));
}

#[test]
fn replace_swaps_one_payload() {
    let mut broadcaster: Broadcaster<u8> = Broadcaster::new();
    let a = broadcaster.listener(1);
    let b = broadcaster.listener(2);
    assert_eq!(broadcaster.replace(&a, 7), Ok(1));
    assert_eq!(broadcaster.get(&a), Some(&7));
    assert_eq!(broadcaster.get(&b), Some(&2));
}

#[test]
fn removing_one_listener_leaves_the_others_notified() {
    let mut broadcaster: Broadcaster<u32> = Broadcaster::new();
    let mut handles = Vec::new();
    for i in 0..10u32 {
        handles.push(broadcaster.listener(i * 100));
    }
    let gone = handles.remove(4);
    assert_eq!(broadcaster.unlink(&gone), Some(400));
    broadcaster.broadcast(&|payload: u32| payload + 1);
    for handle in &handles {
        let payload = *broadcaster.get(handle).unwrap();
        assert_eq!(payload % 100, 1);
    }
    assert_eq!(broadcaster.get(&gone), None);
}

#[test]
fn visit_gathers_one_output_per_listener_in_order() {
    let mut broadcaster: Broadcaster<u32> = Broadcaster::new();
    let a = broadcaster.listener(1);
    let _b = broadcaster.listener(2);
    let _c = broadcaster.listener(3);
    let outputs = broadcaster.visit(&|payload: u32| (payload * 10, payload + 100));
    assert_eq!(outputs, vec![103, 102, 101]);
    assert_eq!(broadcaster.get(&a), Some(&10));
    assert_eq!(broadcaster.unlink(&a), Some(10));
    let outputs = broadcaster.visit(&|payload: u32| (payload, payload));
    assert_eq!(outputs, vec![30, 20]);
}

#[test]
fn a_removal_stays_done_when_others_register_afterwards() {
    let mut broadcaster: Broadcaster<u8> = Broadcaster::new();
    let a = broadcaster.listener(1);
    let b = broadcaster.listener(2);
    assert_eq!(broadcaster.unlink(&a), Some(1));
    let c = broadcaster.listener(3);
    let d = broadcaster.listener(4);
    assert_eq!(broadcaster.unlink(&a), None);
    assert_eq!(broadcaster.get(&b), Some(&2));
    assert_eq!(broadcaster.get(&c), Some(&3));
    assert_eq!(broadcaster.get(&d), Some(&4));
    assert_eq!(broadcaster.visit(&|payload: u8| (payload, payload)), vec![4, 3, 2]);
}
