//! Streams that end at shutdown.
use vstd::prelude::*;

use crate::shutdown_stream::{ShutdownStream, StreamPoll};

verus! {

/// A pair is split into the parts that it was made of.
pub proof fn law_parts_are_kept<Sh, S>(
    shutdown: Sh,
    stream: S,
    made: ShutdownStream<Sh, S>,
    parts: (Option<Sh>, Option<S>),
    rejoined: ShutdownStream<Sh, S>,
    again: (Option<Sh>, Option<S>),
    ended: bool,
)
    requires
        call_ensures(ShutdownStream::<Sh, S>::new, (shutdown, stream), made),
        call_ensures(ShutdownStream::<Sh, S>::into_parts, (made,), parts),
        call_ensures(ShutdownStream::<Sh, S>::from_parts, (again.0, again.1), rejoined),
        call_ensures(ShutdownStream::<Sh, S>::is_terminated, (&rejoined,), ended),
    ensures
        parts == (Some(shutdown), Some(stream)),
        rejoined@ == again,
        ended == again.1 is None,
{
}

/// Where the shutdown future fires, a poll ends the stream and drops both parts, whatever
/// the stream would give.
pub proof fn law_shutdown_ends_the_stream<Sh, S, T, P, Q>(
    before: ShutdownStream<Sh, S>,
    poll_shutdown: P,
    poll_stream: Q,
    polled: StreamPoll<T>,
    after: ShutdownStream<Sh, S>,
    parts: (Option<Sh>, Option<S>),
) where P: FnOnce(&mut Sh) -> bool, Q: FnOnce(&mut S) -> StreamPoll<T>
    requires
        before@.0 is Some,
        forall|sh: &mut Sh, fired: bool| #[trigger]
            call_ensures(poll_shutdown, (sh,), fired) ==> fired,
        exists|pair: &mut ShutdownStream<Sh, S>|
            {
                &&& *pair == before
                &&& #[trigger] call_ensures(
                    ShutdownStream::<Sh, S>::poll_next::<T, P, Q>,
                    (pair, poll_shutdown, poll_stream),
                    polled,
                )
                &&& *final(pair) == after
            },
        call_ensures(ShutdownStream::<Sh, S>::into_parts, (after,), parts),
    ensures
        polled is End,
        parts == (None::<Sh>, None::<S>),
{
}

/// Where the shutdown future does not fire, a poll gives what the stream gives. Both parts
/// are then what polling left of them, or gone where the stream ended.
pub proof fn law_stream_is_passed_on<Sh, S, T, P, Q>(
    before: ShutdownStream<Sh, S>,
    poll_shutdown: P,
    poll_stream: Q,
    polled: StreamPoll<T>,
    after: ShutdownStream<Sh, S>,
    parts: (Option<Sh>, Option<S>),
) where P: FnOnce(&mut Sh) -> bool, Q: FnOnce(&mut S) -> StreamPoll<T>
    requires
        before@.1 is Some,
        before@.0 is None || (forall|sh: &mut Sh, fired: bool| #[trigger]
            call_ensures(poll_shutdown, (sh,), fired) ==> !fired),
        exists|pair: &mut ShutdownStream<Sh, S>|
            {
                &&& *pair == before
                &&& #[trigger] call_ensures(
                    ShutdownStream::<Sh, S>::poll_next::<T, P, Q>,
                    (pair, poll_shutdown, poll_stream),
                    polled,
                )
                &&& *final(pair) == after
            },
        call_ensures(ShutdownStream::<Sh, S>::into_parts, (after,), parts),
    ensures
        exists|st: &mut S|
            {
                &&& *st == before@.1->0
                &&& #[trigger] call_ensures(poll_stream, (st,), polled)
                &&& polled is End ==> parts.1 is None
                &&& !(polled is End) ==> parts.1 == Some(*final(st))
            },
        polled is End ==> parts.0 is None,
        !(polled is End) && before@.0 is None ==> parts.0 is None,
        !(polled is End) && before@.0 is Some ==> exists|sh: &mut Sh|
            {
                &&& *sh == before@.0->0
                &&& #[trigger] call_ensures(poll_shutdown, (sh,), false)
                &&& parts.0 == Some(*final(sh))
            },
{
    if before@.0 is None {
        let (st, given) = choose|st: &mut S, given: StreamPoll<T>|
            {
                &&& *st == before@.1->0
                &&& #[trigger] call_ensures(poll_stream, (st,), given)
                &&& (after@, polled) == crate::shutdown_stream::poll_effect::<Sh, S, T>(
                    None,
                    Some((given, *final(st))),
                )
            };
        assert(given == polled);
        assert(call_ensures(poll_stream, (st,), polled));
    }
}

/// Without a stream, a poll gives the end, and the pair still has none.
pub proof fn law_ended_stream_stays_ended<Sh, S, T, P, Q>(
    before: ShutdownStream<Sh, S>,
    poll_shutdown: P,
    poll_stream: Q,
    polled: StreamPoll<T>,
    after: ShutdownStream<Sh, S>,
    ended: bool,
) where P: FnOnce(&mut Sh) -> bool, Q: FnOnce(&mut S) -> StreamPoll<T>
    requires
        before@.1 is None,
        exists|pair: &mut ShutdownStream<Sh, S>|
            {
                &&& *pair == before
                &&& #[trigger] call_ensures(
                    ShutdownStream::<Sh, S>::poll_next::<T, P, Q>,
                    (pair, poll_shutdown, poll_stream),
                    polled,
                )
                &&& *final(pair) == after
            },
        call_ensures(ShutdownStream::<Sh, S>::is_terminated, (&after,), ended),
    ensures
        polled is End,
        ended,
{
}

} // verus!
