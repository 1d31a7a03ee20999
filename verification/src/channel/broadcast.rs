//! Broadcast channels of `tokio`, and what is known of them.
//!
//! Each channel has one [`TopicAccount`], which says what is known of it. Whoever acts on
//! the channel, through whichever of its senders or receivers, passes the account.
//!
//! Nothing outside this module reaches the channels themselves, except through
//! [`BroadcastReceiver::into_inner`].
use std::sync::Arc;

use tokio::sync::broadcast;
use vstd::prelude::*;

use crate::event;
use crate::event::TopicReceiver;

verus! {

/// [`tokio::sync::broadcast::Sender`].
#[verifier::external_type_specification]
#[verifier::external_body]
#[verifier::reject_recursive_types(T)]
pub struct ExBroadcastSender<T>(broadcast::Sender<T>);

/// [`tokio::sync::broadcast::Receiver`].
#[verifier::external_type_specification]
#[verifier::external_body]
#[verifier::reject_recursive_types(T)]
pub struct ExBroadcastReceiver<T>(broadcast::Receiver<T>);

/// [`tokio::sync::broadcast::error::SendError`].
#[verifier::external_type_specification]
#[verifier::external_body]
#[verifier::reject_recursive_types(T)]
pub struct ExBroadcastSendError<T>(broadcast::error::SendError<T>);

/// An event that was handed to a channel.
pub struct Publication<E> {
    /// The event.
    pub event: E,
    /// How many receivers there were for it at that moment. Without any, it is not
    /// delivered.
    pub receivers: usize,
}

/// What is known of a topic.
#[verifier::ext_equal]
pub struct TopicState<E> {
    /// Which topic it is.
    pub topic: int,
    /// The capacity its ring buffer was asked for with.
    pub capacity: nat,
    /// The events that were published, in order.
    pub published: Seq<Publication<E>>,
    /// How often someone has subscribed.
    pub subscriptions: nat,
    /// How many receivers there are at most, unless one was lent: receivers that are
    /// dropped without being released stay in the count.
    pub receivers: nat,
    /// A receiver was taken out to wait on. Its holder can subscribe others.
    pub lent: bool,
    /// What each count of the receivers came to.
    pub counts: Seq<usize>,
}

/// The first of `size`, `2 * size`, `4 * size` and so on that is no less than
/// `capacity`.
pub open spec fn doubled_up_to(size: nat, capacity: nat) -> nat
    decreases
        if size < capacity {
            capacity - size
        } else {
            0
        },
{
    if size == 0 || size >= capacity {
        size
    } else {
        doubled_up_to(2 * size, capacity)
    }
}

impl<E> TopicState<E> {
    /// A new topic with a buffer for that many events.
    pub open spec fn initial(topic: int, capacity: nat) -> TopicState<E> {
        TopicState {
            topic,
            capacity,
            published: Seq::empty(),
            subscriptions: 0,
            receivers: 0,
            lent: false,
            counts: Seq::empty(),
        }
    }

    /// How many events the buffer holds: the capacity, rounded up to a power of two.
    pub open spec fn buffer(self) -> nat {
        doubled_up_to(1, self.capacity)
    }

    /// One more event is published, with that many receivers for it.
    pub open spec fn after_publishing(self, event: E, receivers: usize) -> TopicState<E> {
        TopicState { published: self.published.push(Publication { event, receivers }), ..self }
    }

    /// Someone subscribes.
    pub open spec fn heard(self) -> TopicState<E> {
        TopicState {
            subscriptions: self.subscriptions + 1,
            receivers: self.receivers + 1,
            ..self
        }
    }

    /// A receiver that subscribes now.
    pub open spec fn new_receiver(self) -> TopicReceiverState {
        TopicReceiverState {
            topic: self.topic,
            id: self.subscriptions,
            next: self.published.len(),
        }
    }

    /// A receiver is released.
    pub open spec fn released(self) -> TopicState<E> {
        TopicState { receivers: (self.receivers - 1) as nat, ..self }
    }

    /// A receiver is taken out.
    pub open spec fn lending(self) -> TopicState<E> {
        TopicState { lent: true, ..self }
    }

    /// The receivers are counted.
    pub open spec fn counted(self, count: usize) -> TopicState<E> {
        TopicState { counts: self.counts.push(count), ..self }
    }

    /// There can be that many receivers, where so many are shown: no fewer than those,
    /// and, unless one was lent, no more than there are on account.
    pub open spec fn can_have(self, shown: nat, receivers: nat) -> bool {
        shown <= receivers && (!self.lent ==> receivers <= self.receivers)
    }
}

/// The largest capacity that a buffer can be had for: beyond it, its slots would
/// not fit in memory together. It is 2 to the power of 57 where a machine word has 64
/// bits, and of 26 where it has 32.
pub const MAX_CAPACITY: usize = usize::MAX / 128 + 1 + 0x0200_0000 * (64 - usize::BITS as usize)
    / 32;

/// What is known of a receiver.
pub struct TopicReceiverState {
    /// The topic that it receives from.
    pub topic: int,
    /// Which of the topic's receivers it is.
    pub id: nat,
    /// Which of the events published on the topic it receives next. It gets none that
    /// come before.
    pub next: nat,
}

/// Why there is no event to receive.
#[derive(Debug, Clone, Copy, PartialEq, Eq)]
pub enum ReceiveError {
    /// There is none yet.
    Empty,
    /// There are no senders any more, and so there will be none.
    Closed,
    /// The receiver fell behind by more events than the buffer holds, and missed so many.
    Lagged(u64),
}

/// What receiving gives, and what it leaves of the receiver: the next event, if there is
/// one. A receiver that has more events before it than the buffer holds misses the oldest,
/// is told so, and goes on from the oldest that is left.
///
/// Events are counted in 64 bits, and counts start over when they are used up: what a
/// receiver gets that fell behind by nearly as many is left open.
pub open spec fn received<E>(
    topic: TopicState<E>,
    before: TopicReceiverState,
    got: Result<E, ReceiveError>,
    after: TopicReceiverState,
) -> bool {
    let waiting = topic.published.len() - before.next;
    let missed = waiting - topic.buffer();
    &&& after.topic == before.topic && after.id == before.id
    &&& before.next <= after.next <= topic.published.len()
    &&& waiting == 0 ==> got == Err::<E, ReceiveError>(ReceiveError::Empty) && after.next
        == before.next
    &&& 0 < waiting <= topic.buffer() ==> got == Ok::<E, ReceiveError>(
        topic.published[before.next as int].event,
    ) && after.next == before.next + 1
    &&& topic.buffer() < waiting <= u64::MAX - topic.buffer() ==> got == Err::<E, ReceiveError>(
        ReceiveError::Lagged(missed as u64),
    ) && after.next == before.next + missed
}

/// The account of a topic. There is one for each topic.
#[verifier::reject_recursive_types(E)]
pub struct TopicAccount<E> {
    known: Ghost<TopicState<E>>,
}

impl<E> View for TopicAccount<E> {
    type V = TopicState<E>;

    closed spec fn view(&self) -> TopicState<E> {
        self.known@
    }
}

/// The sending half of a broadcast channel.
#[verifier::reject_recursive_types(E)]
pub struct BroadcastSender<E> {
    tx: broadcast::Sender<Arc<E>>,
    topic: Ghost<int>,
}

impl<E> View for BroadcastSender<E> {
    type V = int;

    /// The topic that it sends to.
    closed spec fn view(&self) -> int {
        self.topic@
    }
}

impl<E> BroadcastSender<E> {
    /// [`broadcast::channel`], of which the sender is kept: a channel with a buffer
    /// for that many events, rounded up to a power of two, and no receiver.
    #[verifier::external_body]
    pub(crate) fn channel(capacity: usize) -> (made: (Self, TopicAccount<E>))
        requires
            1 <= capacity <= MAX_CAPACITY,
        ensures
            made.1@ == TopicState::<E>::initial(made.0@, capacity as nat),
    {
        let account = TopicAccount { known: Ghost(TopicState::initial(0, capacity as nat)) };
        (BroadcastSender { tx: broadcast::channel(capacity).0, topic: Ghost(0) }, account)
    }

    /// [`broadcast::Sender::send`]: the event is delivered to the receivers there are
    /// at that moment, and their number returned; it is handed back where there are
    /// none. Those at hand are among them: `_beside`. There are no others than those that
    /// were subscribed and not dropped since, unless one was taken out.
    #[verifier::external_body]
    pub(crate) fn send(
        &self,
        account: &mut TopicAccount<E>,
        event: Arc<E>,
        _beside: &[&TopicReceiver<E>],
    ) -> (sent: Result<usize, broadcast::error::SendError<Arc<E>>>)
        requires
            self@ == old(account)@.topic,
            event::are_receivers_of(_beside@, old(account)@),
        ensures
            match sent {
                Ok(count) => count > 0 && old(account)@.can_have(_beside@.len(), count as nat),
                Err(_) => old(account)@.can_have(_beside@.len(), 0),
            },
            final(account)@ == old(account)@.after_publishing(
                *event,
                match sent {
                    Ok(count) => count,
                    Err(_) => 0,
                },
            ),
    {
        self.tx.send(event)
    }

    /// [`broadcast::Sender::subscribe`]: one more receiver of the same channel. It
    /// receives what is sent after this call.
    #[verifier::external_body]
    pub(crate) fn subscribe(&self, account: &mut TopicAccount<E>) -> (receiver: BroadcastReceiver<
        E,
    >)
        requires
            self@ == old(account)@.topic,
        ensures
            final(account)@ == old(account)@.heard(),
            receiver@ == old(account)@.new_receiver(),
    {
        BroadcastReceiver { inner: self.tx.subscribe(), known: Ghost(account@.new_receiver()) }
    }

    /// [`broadcast::Sender::receiver_count`]: how many receivers there are. Those at hand
    /// are among them: `_beside`. There are no others than those that were subscribed
    /// and not dropped since, unless one was taken out.
    #[verifier::external_body]
    pub(crate) fn receiver_count(
        &self,
        account: &mut TopicAccount<E>,
        _beside: &[&TopicReceiver<E>],
    ) -> (count: usize)
        requires
            self@ == old(account)@.topic,
            event::are_receivers_of(_beside@, old(account)@),
        ensures
            final(account)@ == old(account)@.counted(count),
            old(account)@.can_have(_beside@.len(), count as nat),
    {
        self.tx.receiver_count()
    }

    /// `Clone` of [`broadcast::Sender`]: another sender of the same channel.
    #[verifier::external_body]
    pub(crate) fn share(&self) -> (other: Self)
        ensures
            other@ == self@,
    {
        BroadcastSender { tx: self.tx.clone(), topic: Ghost(self@) }
    }
}

/// The receiving half of a broadcast channel.
#[verifier::reject_recursive_types(E)]
pub struct BroadcastReceiver<E> {
    inner: broadcast::Receiver<Arc<E>>,
    known: Ghost<TopicReceiverState>,
}

impl<E> View for BroadcastReceiver<E> {
    type V = TopicReceiverState;

    closed spec fn view(&self) -> TopicReceiverState {
        self.known@
    }
}

impl<E> BroadcastReceiver<E> {
    /// The receiver itself.
    pub closed spec fn inner(&self) -> broadcast::Receiver<Arc<E>> {
        self.inner
    }

    /// The receiver itself, to wait on.
    pub(crate) fn into_inner(self, account: &mut TopicAccount<E>) -> (receiver:
        broadcast::Receiver<Arc<E>>)
        requires
            self@.topic == old(account)@.topic,
        ensures
            receiver == self.inner(),
            final(account)@ == old(account)@.lending(),
    {
        account.known = Ghost(account.known@.lending());
        self.inner
    }

    /// `Drop` of a [`broadcast::Receiver`]: one receiver less.
    #[verifier::external_body]
    pub(crate) fn give_up(self, account: &mut TopicAccount<E>)
        requires
            self@.topic == old(account)@.topic,
            old(account)@.receivers > 0,
        ensures
            final(account)@ == old(account)@.released(),
    {
        drop(self.inner)
    }

    /// [`broadcast::Receiver::try_recv`]: the next event, if there is one. `_sender`
    /// keeps the channel open.
    #[verifier::external_body]
    pub(crate) fn try_recv(
        &mut self,
        _sender: &BroadcastSender<E>,
        account: &TopicAccount<E>,
    ) -> (got: Result<Arc<E>, ReceiveError>)
        requires
            old(self)@.topic == account@.topic,
            _sender@ == account@.topic,
            old(self)@.next <= account@.published.len(),
        ensures
            received(
                account@,
                old(self)@,
                match got {
                    Ok(event) => Ok(*event),
                    Err(e) => Err(e),
                },
                final(self)@,
            ),
    {
        self.inner.try_recv().map_err(
            |e| match e {
                broadcast::error::TryRecvError::Empty => ReceiveError::Empty,
                broadcast::error::TryRecvError::Closed => ReceiveError::Closed,
                broadcast::error::TryRecvError::Lagged(missed) => ReceiveError::Lagged(missed),
            },
        )
    }
}

} // verus!
