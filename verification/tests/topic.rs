use std::future::Future;
use std::sync::Arc;

use runtime::event::{delivery_outcome, ReceiveError};
use runtime::{Topic, TopicClosed, TopicConfig};
use tokio::sync::broadcast::error::{RecvError, SendError};

fn block_on<F: Future>(future: F) -> F::Output {
    tokio::runtime::Builder::new_current_thread().build().unwrap().block_on(future)
}

#[test]
fn round_trip() {
    block_on(async {
        let (t, mut acc) = Topic::<u32>::with_default_capacity();
        let mut rx = t.subscribe(&mut acc).into_inner(&mut acc);
        assert_eq!(t.receiver_count(&mut acc, &[]), 1);

        let n = t.publish(&mut acc, 42, &[]).expect("had a subscriber");
        assert_eq!(n, 1);

        let got: Arc<u32> = rx.recv().await.unwrap();
        assert_eq!(*got, 42);
    });
}

#[test]
fn multiple_subscribers_see_event() {
    block_on(async {
        let (t, mut acc) = Topic::<&'static str>::new(TopicConfig { capacity: 8 });
        let mut a = t.subscribe(&mut acc).into_inner(&mut acc);
        let mut b = t.subscribe(&mut acc).into_inner(&mut acc);

        assert_eq!(t.publish(&mut acc, "hello", &[]).unwrap(), 2);

        let ga = a.recv().await.unwrap();
        let gb = b.recv().await.unwrap();
        assert_eq!(*ga, "hello");
        assert_eq!(*gb, "hello");
        // Arc-wrapping → same underlying allocation
        assert!(Arc::ptr_eq(&ga, &gb));
    });
}

#[test]
fn publish_without_subscribers_errors() {
    let (t, mut acc) = Topic::<i32>::with_default_capacity();
    assert_eq!(t.receiver_count(&mut acc, &[]), 0);
    let err = t.publish(&mut acc, 1, &[]).unwrap_err();
    let _: TopicClosed = err;
    assert_eq!(err.message(), "topic is closed (no active subscribers)");
}

#[test]
fn publish_after_subscriber_dropped() {
    let (t, mut acc) = Topic::<i32>::with_default_capacity();
    let rx = t.subscribe(&mut acc);
    drop(rx);
    let err = t.publish(&mut acc, 1, &[]).unwrap_err();
    let _: TopicClosed = err;
}

#[test]
fn lag_is_signalled() {
    block_on(async {
        // Tiny buffer + lots of messages → lag.
        let (t, mut acc) = Topic::<u32>::new(TopicConfig { capacity: 2 });
        let mut rx = t.subscribe(&mut acc).into_inner(&mut acc);
        for i in 0..10 {
            // publish returns Ok(_) even when some subscribers will lag: the
            // lag is reported to the subscriber on recv.
            t.publish(&mut acc, i, &[]).unwrap();
        }
        let err = rx.recv().await.unwrap_err();
        assert!(matches!(err, RecvError::Lagged(_)), "got {err:?}");
    });
}

#[test]
fn cloning_topic_shares_buffer() {
    block_on(async {
        let (t, mut acc) = Topic::<u32>::with_default_capacity();
        let mut rx = t.subscribe(&mut acc).into_inner(&mut acc);
        let t2 = t.clone();
        t2.publish(&mut acc, 7, &[]).unwrap();
        let got = rx.recv().await.unwrap();
        assert_eq!(*got, 7);
    });
}

#[test]
fn capacity_is_at_least_one() {
    block_on(async {
        let (t, mut acc) = Topic::<u32>::new(TopicConfig { capacity: 0 });
        let mut rx = t.subscribe(&mut acc).into_inner(&mut acc);
        t.publish(&mut acc, 1, &[]).unwrap();
        assert_eq!(*rx.recv().await.unwrap(), 1);
        t.publish(&mut acc, 2, &[]).unwrap();
        t.publish(&mut acc, 3, &[]).unwrap();
        assert!(matches!(rx.recv().await, Err(RecvError::Lagged(1))));
        assert_eq!(*rx.recv().await.unwrap(), 3);
    });
}

#[test]
fn default_capacity() {
    assert_eq!(TopicConfig::default().capacity, 1024);
}

#[test]
fn delivery_outcome_follows_the_send() {
    assert_eq!(delivery_outcome::<u8>(Ok(3)).unwrap(), 3);
    let refused: Result<usize, SendError<Arc<u8>>> = Err(SendError(Arc::new(1)));
    let _: TopicClosed = delivery_outcome(refused).unwrap_err();
}

#[test]
fn late_subscriber_gets_only_new_events() {
    let (t, mut acc) = Topic::<u32>::new(TopicConfig { capacity: 4 });
    let mut early = t.subscribe(&mut acc);
    t.publish(&mut acc, 1, &[]).unwrap();
    let mut late = t.subscribe(&mut acc);
    assert_eq!(late.try_recv(&t, &acc), Err(ReceiveError::Empty));
    t.publish(&mut acc, 2, &[]).unwrap();
    assert_eq!(late.try_recv(&t, &acc), Ok(Arc::new(2)));
    assert_eq!(late.try_recv(&t, &acc), Err(ReceiveError::Empty));
    assert_eq!(early.try_recv(&t, &acc), Ok(Arc::new(1)));
    assert_eq!(early.try_recv(&t, &acc), Ok(Arc::new(2)));
}

#[test]
fn receiver_that_keeps_within_the_capacity_misses_nothing() {
    let (t, mut acc) = Topic::<u32>::new(TopicConfig { capacity: 3 });
    let mut rx = t.subscribe(&mut acc);
    for i in 0..3 {
        t.publish(&mut acc, i, &[]).unwrap();
    }
    for i in 0..3 {
        assert_eq!(rx.try_recv(&t, &acc), Ok(Arc::new(i)));
    }
    for i in 0..6 {
        t.publish(&mut acc, i, &[]).unwrap();
    }
    assert_eq!(rx.try_recv(&t, &acc), Err(ReceiveError::Lagged(2)));
    assert_eq!(rx.try_recv(&t, &acc), Ok(Arc::new(2)));
}

#[test]
fn topic_of_no_capacity_keeps_the_last_event() {
    let (t, mut acc) = Topic::<u32>::new(TopicConfig { capacity: 0 });
    let mut rx = t.subscribe(&mut acc);
    assert_eq!(t.publish(&mut acc, 1, &[&rx]).unwrap(), 1);
    assert_eq!(t.publish(&mut acc, 2, &[&rx]).unwrap(), 1);
    assert_eq!(rx.try_recv(&t, &acc), Err(ReceiveError::Lagged(1)));
    assert_eq!(rx.try_recv(&t, &acc), Ok(Arc::new(2)));
    assert_eq!(rx.try_recv(&t, &acc), Err(ReceiveError::Empty));
}

#[test]
fn buffer_is_the_capacity_rounded_up_to_a_power_of_two() {
    for (capacity, buffer) in [(1usize, 1u32), (2, 2), (3, 4), (4, 4), (5, 8), (9, 16)] {
        let (t, mut acc) = Topic::<u32>::new(TopicConfig { capacity });
        let mut kept = t.subscribe(&mut acc);
        for i in 0..buffer {
            t.publish(&mut acc, i, &[&kept]).unwrap();
        }
        assert_eq!(kept.try_recv(&t, &acc), Ok(Arc::new(0)));
        let mut missed = t.subscribe(&mut acc);
        for i in 0..buffer + 1 {
            t.publish(&mut acc, i, &[&missed]).unwrap();
        }
        assert_eq!(missed.try_recv(&t, &acc), Err(ReceiveError::Lagged(1)));
        assert_eq!(missed.try_recv(&t, &acc), Ok(Arc::new(1)));
    }
}

#[test]
fn what_is_published_through_one_handle_is_received_through_all() {
    let (first, mut acc) = Topic::<u32>::new(TopicConfig { capacity: 4 });
    let second = first.clone();
    let mut a = first.subscribe(&mut acc);
    let mut b = second.subscribe(&mut acc);
    assert_eq!(second.publish(&mut acc, 1, &[&a]).unwrap(), 2);
    assert_eq!(first.publish(&mut acc, 2, &[&b]).unwrap(), 2);
    assert_eq!(a.try_recv(&second, &acc), Ok(Arc::new(1)));
    assert_eq!(a.try_recv(&first, &acc), Ok(Arc::new(2)));
    assert_eq!(b.try_recv(&first, &acc), Ok(Arc::new(1)));
    assert_eq!(second.receiver_count(&mut acc, &[&a]), 2);
    drop(a);
    assert_eq!(first.receiver_count(&mut acc, &[&b]), 1);
    drop(b);
    assert_eq!(first.receiver_count(&mut acc, &[]), 0);
    assert!(second.publish(&mut acc, 3, &[]).is_err());
}

#[test]
fn an_event_is_delivered_to_as_many_as_are_counted() {
    let (t, mut acc) = Topic::<u32>::new(TopicConfig { capacity: 1 });
    assert_eq!(t.receiver_count(&mut acc, &[]), 0);
    let mut a = t.subscribe(&mut acc);
    let b = t.clone().subscribe(&mut acc);
    let c = t.subscribe(&mut acc);
    assert_eq!(t.receiver_count(&mut acc, &[&a, &b, &c]), 3);
    assert_eq!(t.publish(&mut acc, 1, &[&a, &b, &c]).unwrap(), 3);
    b.release(&mut acc);
    // Those that lag behind are counted too.
    assert_eq!(t.publish(&mut acc, 2, &[&a, &c]).unwrap(), 2);
    assert_eq!(t.receiver_count(&mut acc, &[&a, &c]), 2);
    c.release(&mut acc);
    assert_eq!(a.try_recv(&t, &acc), Err(ReceiveError::Lagged(1)));
    assert_eq!(a.try_recv(&t, &acc), Ok(Arc::new(2)));
    a.release(&mut acc);
    assert_eq!(t.receiver_count(&mut acc, &[]), 0);
    assert!(t.publish(&mut acc, 3, &[]).is_err());
}
