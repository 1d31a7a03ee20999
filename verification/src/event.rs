//! Typed publish/subscribe over [`tokio::sync::broadcast`].
//!
//! Each [`Topic<E>`] carries one event type, subscribers receive `Arc<E>`
//! (zero-copy fan-out), and laggy subscribers receive a
//! [`Lagged`](tokio::sync::broadcast::error::RecvError::Lagged) error so
//! back-pressure is observable rather than silent.
//!
//! A topic has one [`TopicAccount`], which [`Topic::new`] hands out with the first handle.
//! Whoever publishes or subscribes, through whichever handle, passes the account.
use std::sync::Arc;

use tokio::sync::broadcast;
use vstd::prelude::*;

use crate::channel;
use crate::channel::broadcast::{
    BroadcastReceiver, BroadcastSender, TopicReceiverState, TopicState,
};

pub use crate::channel::broadcast::{ReceiveError, TopicAccount, MAX_CAPACITY};

verus! {

/// Ring buffer capacity of a topic where none is asked for.
pub const DEFAULT_CAPACITY: usize = 1024;

/// Configuration for a [`Topic`].
#[derive(Clone, Copy, Debug)]
pub struct TopicConfig {
    /// Ring buffer capacity. Lagging subscribers start dropping messages when
    /// more than `capacity` events are in flight for them. Minimum effective
    /// value is 1.
    pub capacity: usize,
}

impl Default for TopicConfig {
    fn default() -> (cfg: Self)
        ensures
            cfg.capacity == DEFAULT_CAPACITY,
    {
        TopicConfig { capacity: DEFAULT_CAPACITY }
    }
}

/// Typed publish/subscribe channel.
///
/// All clones share one underlying ring buffer. Events are wrapped in [`Arc`] so
/// fan-out to many subscribers is allocation-free.
#[verifier::reject_recursive_types(E)]
pub struct Topic<E> {
    channel: BroadcastSender<E>,
}

impl<E> View for Topic<E> {
    type V = int;

    /// The topic that it is a handle to.
    closed spec fn view(&self) -> int {
        self.channel@
    }
}

/// The capacity that a configuration comes to.
pub open spec fn effective_capacity(cfg: TopicConfig) -> nat {
    if cfg.capacity == 0 {
        1
    } else {
        cfg.capacity as nat
    }
}

impl<E: Send + Sync + 'static> Topic<E> {
    /// Create a new topic with the given configuration, and get its account.
    pub fn new(cfg: TopicConfig) -> (made: (Self, TopicAccount<E>))
        requires
            cfg.capacity <= MAX_CAPACITY,
        ensures
            made.1@ == TopicState::<E>::initial(made.0@, effective_capacity(cfg)),
    {
        let capacity: usize = if cfg.capacity == 0 {
            1
        } else {
            cfg.capacity
        };
        let (channel, account) = BroadcastSender::channel(capacity);
        (Topic { channel }, account)
    }

    /// Create a new topic with the default capacity.
    pub fn with_default_capacity() -> (made: (Self, TopicAccount<E>))
        ensures
            made.1@ == TopicState::<E>::initial(made.0@, DEFAULT_CAPACITY as nat),
    {
        Topic::new(TopicConfig::default())
    }

    /// Publish an event to all current subscribers.
    ///
    /// Returns the number of receivers the event was delivered to, or
    /// [`TopicClosed`] if there are no active subscribers.
    ///
    /// Subscribers can be dropped without being released, so those that are alive are
    /// shown: as `beside`. With all of them shown, the number is theirs.
    pub fn publish(
        &self,
        account: &mut TopicAccount<E>,
        event: E,
        beside: &[&TopicReceiver<E>],
    ) -> (outcome: Result<usize, TopicClosed>)
        requires
            self@ == old(account)@.topic,
            are_receivers_of(beside@, old(account)@),
        ensures
            match outcome {
                Ok(count) => {
                    &&& count > 0
                    &&& old(account)@.can_have(beside@.len(), count as nat)
                    &&& final(account)@ == old(account)@.after_publishing(event, count)
                },
                Err(TopicClosed) => {
                    &&& old(account)@.can_have(beside@.len(), 0)
                    &&& final(account)@ == old(account)@.after_publishing(event, 0)
                },
            },
    {
        let sent = self.channel.send(account, Arc::new(event), beside);
        delivery_outcome(sent)
    }

    /// Subscribe to this topic, returning a fresh receiver of what is published from
    /// here on.
    pub fn subscribe(&self, account: &mut TopicAccount<E>) -> (receiver: TopicReceiver<E>)
        requires
            self@ == old(account)@.topic,
        ensures
            final(account)@ == old(account)@.heard(),
            receiver@ == old(account)@.new_receiver(),
    {
        TopicReceiver { inner: self.channel.subscribe(account) }
    }

    /// Current number of active subscribers.
    ///
    /// Subscribers can be dropped without being released, so those that are alive are
    /// shown: as `beside`. With all of them shown, the number is theirs.
    pub fn receiver_count(
        &self,
        account: &mut TopicAccount<E>,
        beside: &[&TopicReceiver<E>],
    ) -> (count: usize)
        requires
            self@ == old(account)@.topic,
            are_receivers_of(beside@, old(account)@),
        ensures
            final(account)@ == old(account)@.counted(count),
            old(account)@.can_have(beside@.len(), count as nat),
    {
        self.channel.receiver_count(account, beside)
    }
}

impl<E> Clone for Topic<E> {
    fn clone(&self) -> (other: Self)
        ensures
            other@ == self@,
    {
        Topic { channel: self.channel.share() }
    }
}

/// A subscription to a [`Topic`].
#[verifier::reject_recursive_types(E)]
pub struct TopicReceiver<E> {
    inner: BroadcastReceiver<E>,
}

impl<E> View for TopicReceiver<E> {
    type V = TopicReceiverState;

    closed spec fn view(&self) -> TopicReceiverState {
        self.inner@
    }
}

/// These are different receivers of a topic, all of them on its account.
pub open spec fn are_receivers_of<E>(beside: Seq<&TopicReceiver<E>>, topic: TopicState<E>) -> bool {
    &&& beside.len() <= topic.receivers
    &&& forall|i: int| 0 <= i < beside.len() ==> (#[trigger] beside[i])@.topic == topic.topic
    &&& forall|i: int, j: int|
        0 <= i < j < beside.len() ==> (#[trigger] beside[i])@.id != (#[trigger] beside[j])@.id
}

impl<E> TopicReceiver<E> {
    /// The receiver itself.
    pub closed spec fn inner(&self) -> broadcast::Receiver<Arc<E>> {
        self.inner.inner()
    }

    /// The receiver itself, to wait on. How many receivers there are is up to its
    /// holder from here on, who can subscribe others.
    pub fn into_inner(self, account: &mut TopicAccount<E>) -> (receiver: broadcast::Receiver<
        Arc<E>,
    >)
        requires
            self@.topic == old(account)@.topic,
        ensures
            receiver == self.inner(),
            final(account)@ == old(account)@.lending(),
    {
        self.inner.into_inner(account)
    }

    /// End this subscription.
    pub fn release(self, account: &mut TopicAccount<E>)
        requires
            self@.topic == old(account)@.topic,
            old(account)@.receivers > 0,
        ensures
            final(account)@ == old(account)@.released(),
    {
        self.inner.give_up(account);
    }
}

impl<E: Send + Sync + 'static> TopicReceiver<E> {
    /// Receive the next event without waiting for it. `topic` is a handle to the topic.
    pub fn try_recv(&mut self, topic: &Topic<E>, account: &TopicAccount<E>) -> (got: Result<
        Arc<E>,
        ReceiveError,
    >)
        requires
            old(self)@.topic == account@.topic,
            topic@ == account@.topic,
            old(self)@.next <= account@.published.len(),
        ensures
            channel::broadcast::received(
                account@,
                old(self)@,
                match got {
                    Ok(event) => Ok(*event),
                    Err(e) => Err(e),
                },
                final(self)@,
            ),
    {
        self.inner.try_recv(&topic.channel, account)
    }
}

/// Each subscriber is counted until it is released, and an event is delivered to as many
/// as are counted: a topic starts with none, one more subscriber makes the number one
/// higher, and its release makes it what it was. Publishing makes no difference to that.
pub proof fn law_subscribers_are_counted<E>(topic: TopicState<E>, event: E, count: usize)
    requires
        !topic.lent,
    ensures
        topic.can_have(topic.receivers, count as nat) ==> count == topic.receivers,
        topic.heard().can_have(topic.receivers + 1, count as nat) ==> count == topic.receivers + 1,
        topic.heard().released().can_have(topic.receivers, count as nat) ==> count
            == topic.receivers,
        topic.after_publishing(event, count).can_have(topic.receivers, count as nat) ==> count
            == topic.receivers,
        topic.counted(count).receivers == topic.receivers && !topic.counted(count).lent,
        TopicState::<E>::initial(topic.topic, topic.capacity).can_have(0, count as nat) ==> count
            == 0,
{
}

/// A late subscriber gets only new events: there is nothing for it until one is
/// published, and the first that is published after it subscribed is the first that it
/// gets, if it keeps up.
pub proof fn law_subscriber_gets_only_new_events<E>(
    topic: TopicState<E>,
    event: E,
    receivers: usize,
    got: Result<E, ReceiveError>,
    after: TopicReceiverState,
)
    ensures
        channel::broadcast::received(topic.heard(), topic.new_receiver(), got, after) ==> got
            == Err::<E, ReceiveError>(ReceiveError::Empty),
        channel::broadcast::received(
            topic.heard().after_publishing(event, receivers),
            topic.new_receiver(),
            got,
            after,
        ) ==> got == Ok::<E, ReceiveError>(event),
{
    lemma_buffer(topic);
    lemma_buffer(topic.heard().after_publishing(event, receivers));
}

/// A subscriber that has no more events before it than the capacity misses none of them.
pub proof fn law_nothing_is_missed_within_the_capacity<E>(
    topic: TopicState<E>,
    before: TopicReceiverState,
    got: Result<E, ReceiveError>,
    after: TopicReceiverState,
)
    requires
        before.next < topic.published.len() <= before.next + topic.capacity,
        channel::broadcast::received(topic, before, got, after),
    ensures
        got == Ok::<E, ReceiveError>(topic.published[before.next as int].event),
        after.next == before.next + 1,
{
    lemma_buffer(topic);
}

/// The buffer of a topic holds as many events as its capacity, and one at least.
pub(crate) proof fn lemma_buffer<E>(topic: TopicState<E>)
    ensures
        topic.buffer() >= topic.capacity,
        topic.buffer() >= 1,
{
    lemma_doubled(1, topic.capacity);
}

proof fn lemma_doubled(size: nat, capacity: nat)
    requires
        size > 0,
    ensures
        channel::broadcast::doubled_up_to(size, capacity) >= capacity,
        channel::broadcast::doubled_up_to(size, capacity) >= size,
    decreases
        if size < capacity {
            capacity - size
        } else {
            0
        },
{
    if size < capacity {
        lemma_doubled(2 * size, capacity);
    }
}

/// A subscriber that fell behind is told how many events it missed, and then gets the
/// oldest that the topic still holds.
pub proof fn law_laggard_is_told_what_it_missed<E>(
    topic: TopicState<E>,
    before: TopicReceiverState,
    told: Result<E, ReceiveError>,
    between: TopicReceiverState,
    got: Result<E, ReceiveError>,
    after: TopicReceiverState,
)
    requires
        before.next + topic.buffer() < topic.published.len(),
        topic.published.len() <= before.next + u64::MAX - topic.buffer(),
        channel::broadcast::received(topic, before, told, between),
        channel::broadcast::received(topic, between, got, after),
    ensures
        told matches Err(ReceiveError::Lagged(missed)) && missed == topic.published.len()
            - topic.buffer() - before.next,
        got == Ok::<E, ReceiveError>(
            topic.published[topic.published.len() - topic.buffer()].event,
        ),
{
    lemma_buffer(topic);
}

/// The outcome of publishing an event, from what came of sending it.
pub fn delivery_outcome<E>(sent: Result<usize, broadcast::error::SendError<Arc<E>>>) -> (outcome:
    Result<usize, TopicClosed>)
    ensures
        match sent {
            Ok(count) => outcome == Ok::<usize, TopicClosed>(count),
            Err(_) => outcome is Err,
        },
{
    match sent {
        Ok(count) => Ok(count),
        Err(_) => Err(TopicClosed),
    }
}

/// Returned by [`Topic::publish`] when no subscribers are active.
#[derive(Debug, Clone, Copy)]
pub struct TopicClosed;

impl TopicClosed {
    /// What this error says.
    pub fn message(&self) -> (message: String)
        ensures
            message@ == "topic is closed (no active subscribers)"@,
    {
        "topic is closed (no active subscribers)".to_owned()
    }
}

} // verus!
