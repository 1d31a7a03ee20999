use std::collections::VecDeque;

use runtime::{ShutdownStream, StreamPoll};

/// A stream that hands out its items, then ends, or waits for more.
struct Items {
    items: VecDeque<usize>,
    open: bool,
}

impl Items {
    fn new(items: impl Iterator<Item = usize>, open: bool) -> Self {
        Items { items: items.collect(), open }
    }
}

fn poll_items(st: &mut Items) -> StreamPoll<usize> {
    match st.items.pop_front() {
        Some(item) => StreamPoll::Item(item),
        None if st.open => StreamPoll::Pending,
        None => StreamPoll::End,
    }
}

/// A shutdown future that fires once it has been polled so many times.
struct FiresAfter(usize);

fn poll_countdown(sh: &mut FiresAfter) -> bool {
    if sh.0 == 0 {
        return true;
    }
    sh.0 -= 1;
    false
}

fn sum(ss: &mut ShutdownStream<FiresAfter, Items>) -> usize {
    let mut acc = 0usize;
    while let StreamPoll::Item(item) = ss.poll_next(poll_countdown, poll_items) {
        acc += item;
    }
    acc
}

#[test]
fn stream_runs_to_completion_when_shutdown_pending() {
    let mut ss = ShutdownStream::new(FiresAfter(usize::MAX), Items::new(0..=100, false));
    assert_eq!(sum(&mut ss), 5050);
    assert!(ss.is_terminated());
}

#[test]
fn early_shutdown_terminates_stream() {
    let mut ss = ShutdownStream::new(FiresAfter(10), Items::new(0..=100, false));
    let acc = sum(&mut ss);
    assert!(acc < 5050, "got {acc}, expected partial sum");
    assert_eq!(acc, 45);
}

#[test]
fn into_parts_round_trip() {
    let ss = ShutdownStream::new(FiresAfter(3), Items::new(7..8, true));
    let (shutdown, stream) = ss.into_parts();
    assert!(shutdown.is_some() && stream.is_some());

    let mut ss = ShutdownStream::from_parts(shutdown, stream);
    assert_eq!(ss.poll_next(poll_countdown, poll_items), StreamPoll::Item(7));
}

#[test]
fn fused_after_termination() {
    let mut ss = ShutdownStream::new(FiresAfter(usize::MAX), Items::new(0..0, false));
    assert!(!ss.is_terminated());
    assert_eq!(ss.poll_next(poll_countdown, poll_items), StreamPoll::End);
    assert!(ss.is_terminated());
    // Polling again gives the end and stays terminated.
    assert_eq!(ss.poll_next(poll_countdown, poll_items), StreamPoll::End);
    assert!(ss.is_terminated());
    let (shutdown, stream) = ss.into_parts();
    assert!(shutdown.is_none() && stream.is_none());
}

#[test]
fn shutdown_is_not_starved_by_a_ready_stream() {
    let mut ss = ShutdownStream::new(FiresAfter(0), Items::new(1..=3, true));
    let polled = ss.poll_next(poll_countdown, |_: &mut Items| -> StreamPoll<usize> {
        panic!("the stream must not be polled")
    });
    assert_eq!(polled, StreamPoll::End);
    let (shutdown, stream) = ss.into_parts();
    assert!(shutdown.is_none() && stream.is_none());
}

#[test]
fn pending_keeps_both_parts() {
    let mut ss = ShutdownStream::new(FiresAfter(2), Items::new(0..0, true));
    assert_eq!(ss.poll_next(poll_countdown, poll_items), StreamPoll::Pending);
    assert!(!ss.is_terminated());
    let (shutdown, stream) = ss.into_parts();
    assert_eq!(shutdown.map(|sh| sh.0), Some(1));
    assert!(stream.is_some());
}

#[test]
fn without_a_stream_there_is_nothing_to_give() {
    let mut ss: ShutdownStream<FiresAfter, Items> =
        ShutdownStream::from_parts(Some(FiresAfter(1)), None);
    assert!(ss.is_terminated());
    assert_eq!(ss.poll_next(poll_countdown, poll_items), StreamPoll::End);
    let (shutdown, stream) = ss.into_parts();
    assert_eq!(shutdown.map(|sh| sh.0), Some(0));
    assert!(stream.is_none());
}

#[test]
fn without_a_shutdown_future_the_stream_runs() {
    let mut ss: ShutdownStream<FiresAfter, Items> =
        ShutdownStream::from_parts(None, Some(Items::new(1..=4, false)));
    assert_eq!(sum(&mut ss), 10);
}
