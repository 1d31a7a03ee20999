//! A stream adapter that ends when an associated future fires.
//!
//! [`ShutdownStream`] holds a shutdown future and a stream and decides what each
//! poll of the pair gives. How either of them is polled is the caller's to say.
use vstd::prelude::*;

verus! {

/// What polling a stream gives.
#[derive(Debug, PartialEq, Eq)]
pub enum StreamPoll<T> {
    /// The next item.
    Item(T),
    /// There are no more items.
    End,
    /// Nothing yet.
    Pending,
}

/// A stream that ends when an associated shutdown future fires.
///
/// Polls the shutdown future before the inner stream on each
/// [`poll_next`](Self::poll_next), so a cancellation cannot be starved by a stream
/// that's always ready.
pub struct ShutdownStream<Sh, S> {
    shutdown: Option<Sh>,
    stream: Option<S>,
}

impl<Sh, S> View for ShutdownStream<Sh, S> {
    type V = (Option<Sh>, Option<S>);

    /// The shutdown future and the stream, as far as they are still there.
    closed spec fn view(&self) -> (Option<Sh>, Option<S>) {
        (self.shutdown, self.stream)
    }
}

/// What a poll leaves of the pair, and what it gives.
///
/// `shutdown` is whether the shutdown future fired and what polling it left of it,
/// `stream` is what the stream gave and what polling it left of it; either is `None`
/// where there is nothing to poll. A shutdown future that fires ends the stream for
/// good, whatever the stream has to give.
pub open spec fn poll_effect<Sh, S, T>(
    shutdown: Option<(bool, Sh)>,
    stream: Option<(StreamPoll<T>, S)>,
) -> ((Option<Sh>, Option<S>), StreamPoll<T>) {
    let left = match shutdown {
        Some((_, sh)) => Some(sh),
        None => None,
    };
    if shutdown matches Some((fired, _)) && fired {
        ((None, None), StreamPoll::End)
    } else {
        match stream {
            None => ((left, None), StreamPoll::End),
            Some((StreamPoll::End, _)) => ((None, None), StreamPoll::End),
            Some((polled, st)) => ((left, Some(st)), polled),
        }
    }
}

impl<Sh, S> ShutdownStream<Sh, S> {
    /// Construct from a shutdown future and a stream.
    pub fn new(shutdown: Sh, stream: S) -> (pair: Self)
        ensures
            pair@ == (Some(shutdown), Some(stream)),
    {
        ShutdownStream { shutdown: Some(shutdown), stream: Some(stream) }
    }

    /// Construct from already-`Option`-wrapped parts (useful when rejoining a
    /// previously-split [`ShutdownStream`]).
    pub fn from_parts(shutdown: Option<Sh>, stream: Option<S>) -> (pair: Self)
        ensures
            pair@ == (shutdown, stream),
    {
        ShutdownStream { shutdown, stream }
    }

    /// Decompose into `(shutdown, stream)`. Either may be `None` if the
    /// `ShutdownStream` has terminated.
    pub fn into_parts(self) -> (parts: (Option<Sh>, Option<S>))
        ensures
            parts == self@,
    {
        (self.shutdown, self.stream)
    }

    /// Poll the shutdown future first; if it's ready, terminate. Otherwise poll
    /// the inner stream.
    ///
    /// `poll_shutdown` polls the shutdown future and says whether it is ready,
    /// `poll_stream` polls the stream. The stream is polled only once the shutdown
    /// future has said that it is not ready, or is gone.
    pub fn poll_next<T, P, Q>(&mut self, poll_shutdown: P, poll_stream: Q) -> (polled: StreamPoll<
        T,
    >) where P: FnOnce(&mut Sh) -> bool, Q: FnOnce(&mut S) -> StreamPoll<T>
        requires
            old(self)@.0 matches Some(shutdown) ==> forall|sh: &mut Sh|
                *sh == shutdown ==> #[trigger] call_requires(poll_shutdown, (sh,)),
            old(self)@.0 is None || (exists|sh: &mut Sh|
                *sh == old(self)@.0->0 && #[trigger] call_ensures(poll_shutdown, (sh,), false))
                ==> forall|st: &mut S|
                old(self)@.1 == Some(*st) ==> #[trigger] call_requires(poll_stream, (st,)),
        ensures
            old(self)@.0 is None ==> match old(self)@.1 {
                None => (final(self)@, polled) == poll_effect::<Sh, S, T>(None, None),
                Some(stream) => exists|st: &mut S, given: StreamPoll<T>|
                    {
                        &&& *st == stream
                        &&& #[trigger] call_ensures(poll_stream, (st,), given)
                        &&& (final(self)@, polled) == poll_effect::<Sh, S, T>(
                            None,
                            Some((given, *final(st))),
                        )
                    },
            },
            old(self)@.0 matches Some(shutdown) ==> exists|sh: &mut Sh, fired: bool|
                {
                    &&& *sh == shutdown
                    &&& #[trigger] call_ensures(poll_shutdown, (sh,), fired)
                    &&& if fired || old(self)@.1 is None {
                        (final(self)@, polled) == poll_effect::<Sh, S, T>(
                            Some((fired, *final(sh))),
                            None,
                        )
                    } else {
                        exists|st: &mut S, given: StreamPoll<T>|
                            {
                                &&& *st == old(self)@.1->0
                                &&& #[trigger] call_ensures(poll_stream, (st,), given)
                                &&& (final(self)@, polled) == poll_effect(
                                    Some((fired, *final(sh))),
                                    Some((given, *final(st))),
                                )
                            }
                    }
                },
    {
        let fired = match &mut self.shutdown {
            Some(sh) => poll_shutdown(sh),
            None => false,
        };
        if fired {
            self.shutdown = None;
            self.stream = None;
            return StreamPoll::End;
        }
        let polled = match &mut self.stream {
            Some(st) => poll_stream(st),
            None => return StreamPoll::End,
        };
        if let StreamPoll::End = polled {
            self.shutdown = None;
            self.stream = None;
        }
        polled
    }

    /// Whether the stream has ended and will not give any more items.
    pub fn is_terminated(&self) -> (terminated: bool)
        ensures
            terminated == self@.1 is None,
    {
        self.stream.is_none()
    }
}

/// A pair is what its parts are: one that is split and rejoined is the same as
/// before.
pub proof fn law_parts_round_trip<Sh, S>(
    before: ShutdownStream<Sh, S>,
    rejoined: ShutdownStream<Sh, S>,
)
    requires
        rejoined@ == before@,
    ensures
        rejoined == before,
{
}

/// A shutdown future that fires ends the stream for good, whatever the stream has
/// to give: it cannot be starved.
pub proof fn law_shutdown_comes_first<Sh, S, T>(sh: Sh, stream: Option<(StreamPoll<T>, S)>)
    ensures
        poll_effect(Some((true, sh)), stream) == ((None::<Sh>, None::<S>), StreamPoll::<T>::End),
{
}

/// A stream that ended is gone, and without a stream every poll gives the end: once
/// terminated, the pair stays terminated.
pub proof fn law_fused_after_termination<Sh, S, T>(
    shutdown: Option<(bool, Sh)>,
    stream: Option<(StreamPoll<T>, S)>,
)
    ensures
        poll_effect(shutdown, stream).1 is End <==> poll_effect(shutdown, stream).0.1 is None,
        stream is None ==> poll_effect(shutdown, stream).1 is End,
{
}

/// As long as shutdown does not fire, polling the pair gives what the stream gives.
pub proof fn law_items_pass_through<Sh, S, T>(
    shutdown: Option<(bool, Sh)>,
    given: StreamPoll<T>,
    st: S,
)
    requires
        !(shutdown matches Some((fired, _)) && fired),
    ensures
        poll_effect(shutdown, Some((given, st))).1 == given,
{
}

} // verus!
