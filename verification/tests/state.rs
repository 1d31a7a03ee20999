use std::future::Future;
use std::sync::Arc;

use runtime::State;

fn block_on<F: Future>(future: F) -> F::Output {
    tokio::runtime::Builder::new_current_thread().build().unwrap().block_on(future)
}

#[test]
fn new_holds_initial_value() {
    let (s, acc) = State::new(42u32);
    assert_eq!(*s.borrow(&acc), 42);
    assert_eq!(s.snapshot(&acc), 42);
}

#[test]
fn set_replaces_value() {
    let (s, mut acc) = State::new(0u32);
    s.set(&mut acc, 99);
    assert_eq!(s.snapshot(&acc), 99);
}

#[test]
fn modify_updates_in_place() {
    let (s, mut acc) = State::new(vec![1, 2, 3]);
    s.modify(&mut acc, |v: &mut Vec<i32>| v.push(4));
    assert_eq!(s.snapshot(&acc), vec![1, 2, 3, 4]);
}

#[test]
fn modify_if_skips_notification_when_false() {
    let (s, mut acc) = State::new(0u32);
    let rx = s.subscribe(&mut acc);
    assert_eq!(*rx.borrow(&acc), 0);
    let changed = s.modify_if(&mut acc, |v: &mut u32| {
        *v = 1;
        false // explicitly say "no change"
    });
    assert!(!changed);
    // Value was still mutated even though receivers weren't notified
    // (this matches tokio::sync::watch::send_if_modified semantics).
    assert_eq!(s.snapshot(&acc), 1);
    // No notification fired, so rx.has_changed() should be false.
    assert!(!rx.has_changed(&s, &acc));
    assert_eq!(*rx.borrow(&acc), 1);
    assert!(!rx.into_inner(&mut acc).has_changed().unwrap());
}

#[test]
fn modify_if_notifies_when_true() {
    let (s, mut acc) = State::new(0u32);
    let rx = s.subscribe(&mut acc);
    assert!(s.modify_if(&mut acc, |v: &mut u32| {
        *v = 1;
        true
    }));
    assert_eq!(s.snapshot(&acc), 1);
    assert!(rx.has_changed(&s, &acc));
    assert!(rx.into_inner(&mut acc).has_changed().unwrap());
}

#[test]
fn subscribe_then_set_wakes_receiver() {
    block_on(async {
        let (s, mut acc) = State::new(0u32);
        let mut rx = s.subscribe(&mut acc).into_inner(&mut acc);
        assert_eq!(*rx.borrow_and_update(), 0);

        s.set(&mut acc, 7);
        rx.changed().await.unwrap();
        assert_eq!(*rx.borrow_and_update(), 7);
    });
}

#[test]
fn multiple_subscribers_all_see_updates() {
    block_on(async {
        let (s, mut acc) = State::new(0u32);
        let mut a = s.subscribe(&mut acc).into_inner(&mut acc);
        let mut b = s.subscribe(&mut acc).into_inner(&mut acc);
        s.set(&mut acc, 11);

        a.changed().await.unwrap();
        b.changed().await.unwrap();
        assert_eq!(*a.borrow_and_update(), 11);
        assert_eq!(*b.borrow_and_update(), 11);
    });
}

#[test]
fn clone_shares_channel() {
    block_on(async {
        let (s1, mut acc) = State::new(0u32);
        let s2 = s1.clone();
        let mut rx = s1.subscribe(&mut acc).into_inner(&mut acc);

        s2.set(&mut acc, 5);
        rx.changed().await.unwrap();
        assert_eq!(*rx.borrow_and_update(), 5);
        assert_eq!(s1.snapshot(&acc), 5);
    });
}

#[test]
fn arc_inner_is_cheap_to_snapshot() {
    // The recommended pattern for large state: State<Arc<T>>.
    // snapshot() is a refcount clone, not a deep clone.
    let (s, acc) = State::new(Arc::new(vec![0u8; 1024 * 1024])); // 1 MB
    let snap_a = s.snapshot(&acc);
    let snap_b = s.snapshot(&acc);
    assert!(Arc::ptr_eq(&snap_a, &snap_b));
    assert_eq!(snap_a.len(), 1024 * 1024);
}

#[test]
fn arc_make_mut_pattern() {
    let (s, mut acc) = State::new(Arc::new(Vec::<u32>::new()));
    s.modify(&mut acc, |v: &mut Arc<Vec<u32>>| Arc::make_mut(v).push(1));
    s.modify(&mut acc, |v: &mut Arc<Vec<u32>>| Arc::make_mut(v).push(2));
    assert_eq!(*s.snapshot(&acc), vec![1, 2]);
}

#[test]
fn receiver_count_tracks_subscribers() {
    let (s, mut acc) = State::new(0u32);
    assert_eq!(s.receiver_count(&mut acc, &[]), 0);
    let a = s.subscribe(&mut acc);
    assert_eq!(s.receiver_count(&mut acc, &[&a]), 1);
    let b = s.subscribe(&mut acc);
    assert_eq!(s.receiver_count(&mut acc, &[&a, &b]), 2);
    drop(b);
    assert_eq!(s.receiver_count(&mut acc, &[&a]), 1);
    a.release(&mut acc);
    assert_eq!(s.receiver_count(&mut acc, &[]), 0);
}

#[test]
fn setting_works_without_subscribers() {
    let (s, mut acc) = State::new("old");
    s.set(&mut acc, "new");
    assert_eq!(*s.borrow(&acc), "new");
    assert_eq!(s.receiver_count(&mut acc, &[]), 0);
}

#[test]
fn new_subscriber_sees_the_latest_at_once() {
    let (s, mut acc) = State::new(1u32);
    s.set(&mut acc, 2);
    let early = s.subscribe(&mut acc);
    assert_eq!(*early.borrow(&acc), 2);
    assert!(!early.has_changed(&s, &acc));
    s.set(&mut acc, 3);
    let late = s.subscribe(&mut acc);
    assert!(early.has_changed(&s, &acc));
    assert!(!late.has_changed(&s, &acc));
    assert_eq!((*early.borrow(&acc), *late.borrow(&acc)), (3, 3));
}

#[test]
fn what_is_written_through_one_handle_is_read_through_all() {
    let (first, mut acc) = State::new(1u32);
    let second = first.clone();
    let watching = second.subscribe(&mut acc);
    second.set(&mut acc, 2);
    assert_eq!(first.snapshot(&acc), 2);
    first.modify(&mut acc, |v: &mut u32| *v += 1);
    assert_eq!(*second.borrow(&acc), 3);
    assert_eq!(*watching.borrow(&acc), 3);
    assert!(watching.has_changed(&first, &acc));
    assert_eq!(first.receiver_count(&mut acc, &[&watching]), 1);
    drop(second);
    assert_eq!((*first.borrow(&acc), *watching.borrow(&acc)), (3, 3));
}

#[test]
fn released_subscribers_are_counted_no_more() {
    let (s, mut acc) = State::new(());
    let a = s.subscribe(&mut acc);
    let b = s.clone().subscribe(&mut acc);
    let c = s.subscribe(&mut acc);
    b.release(&mut acc);
    assert_eq!(s.receiver_count(&mut acc, &[&a, &c]), 2);
    // One that is taken out is still counted, and so are its clones.
    let out = a.into_inner(&mut acc);
    let copy = out.clone();
    assert_eq!(s.receiver_count(&mut acc, &[&c]), 3);
    drop(out);
    drop(copy);
    c.release(&mut acc);
    assert_eq!(s.receiver_count(&mut acc, &[]), 0);
}
