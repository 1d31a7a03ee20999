//! Topics: what is published is received, in order, up to what the buffer holds.
use std::sync::Arc;

use tokio::sync::broadcast;
use vstd::arithmetic::power2;
use vstd::prelude::*;

use crate::channel;
use crate::channel::broadcast::{ReceiveError, TopicState};
use crate::event;
use crate::event::{
    delivery_outcome, Topic, TopicAccount, TopicClosed, TopicConfig, TopicReceiver,
};

verus! {

/// A new topic has the capacity that it was asked for with, wherever that is at least one,
/// and one otherwise; nothing was published on it and nobody has subscribed. Without being
/// asked for, the capacity is 1024.
pub proof fn law_capacity_is_as_asked_for<E: Send + Sync + 'static>(
    cfg: TopicConfig,
    topic: Topic<E>,
    account: TopicAccount<E>,
    plain: Topic<E>,
    plain_account: TopicAccount<E>,
    asked: TopicConfig,
)
    requires
        call_ensures(Topic::<E>::new, (cfg,), (topic, account)),
        call_ensures(Topic::<E>::with_default_capacity, (), (plain, plain_account)),
        call_ensures(<TopicConfig as Default>::default, (), asked),
    ensures
        cfg.capacity >= 1 ==> account@.capacity == cfg.capacity,
        cfg.capacity == 0 ==> account@.capacity == 1,
        plain_account@.capacity == 1024,
        asked.capacity == 1024,
        account@.published.len() == 0 && plain_account@.published.len() == 0,
        account@.receivers == 0 && !account@.lent,
        account@.topic == topic@,
{
}

/// Publishing puts the event after those that were published before and changes nothing
/// else on account. It is delivered to as many as there are: to no one exactly where it
/// fails, to no fewer than are shown, and to no more than are on account unless one of
/// them was lent.
pub proof fn law_publishing_delivers_to_those_there_are<E: Send + Sync + 'static>(
    topic: Topic<E>,
    before: TopicAccount<E>,
    event: E,
    beside: &[&TopicReceiver<E>],
    outcome: Result<usize, TopicClosed>,
    after: TopicAccount<E>,
)
    requires
        topic@ == before@.topic,
        event::are_receivers_of(beside@, before@),
        exists|acc: &mut TopicAccount<E>|
            {
                &&& *acc == before
                &&& #[trigger] call_ensures(
                    Topic::<E>::publish,
                    (&topic, acc, event, beside),
                    outcome,
                )
                &&& *final(acc) == after
            },
    ensures
        after@.published.len() == before@.published.len() + 1,
        after@.published.last().event == event,
        forall|i: int|
            0 <= i < before@.published.len() ==> #[trigger] after@.published[i]
                == before@.published[i],
        after@.topic == before@.topic && after@.capacity == before@.capacity,
        after@.receivers == before@.receivers && after@.lent == before@.lent,
        after@.subscriptions == before@.subscriptions,
        outcome matches Ok(count) ==> {
            &&& count > 0
            &&& count >= beside@.len()
            &&& !before@.lent ==> count <= before@.receivers
            &&& after@.published.last().receivers == count
        },
        outcome is Err ==> beside@.len() == 0 && after@.published.last().receivers == 0,
        beside@.len() > 0 ==> outcome is Ok,
        before@.receivers == 0 && !before@.lent ==> outcome is Err,
{
}

/// What is on account after a number of events were published.
proof fn lemma_published<E: Send + Sync + 'static>(
    accs: Seq<&mut TopicAccount<E>>,
    topics: Seq<Topic<E>>,
    besides: Seq<&[&TopicReceiver<E>]>,
    outcomes: Seq<Result<usize, TopicClosed>>,
    accounts: Seq<TopicAccount<E>>,
    events: Seq<E>,
    t: int,
)
    requires
        accounts.len() == events.len() + 1,
        accs.len() == events.len(),
        forall|c: int|
            #![trigger accs[c]]
            0 <= c < events.len() ==> {
                &&& *accs[c] == accounts[c]
                &&& call_ensures(
                    Topic::<E>::publish,
                    (&topics[c], accs[c], events[c], besides[c]),
                    outcomes[c],
                )
                &&& *final(accs[c]) == accounts[c + 1]
            },
        0 <= t <= events.len(),
    ensures
        accounts[t]@.topic == accounts[0]@.topic,
        accounts[t]@.capacity == accounts[0]@.capacity,
        accounts[t]@.published.len() == accounts[0]@.published.len() + t,
        forall|i: int|
            0 <= i < t ==> accounts[t]@.published[accounts[0]@.published.len() + i].event
                == #[trigger] events[i],
    decreases t,
{
    if t > 0 {
        lemma_published(accs, topics, besides, outcomes, accounts, events, t - 1);
        assert(*accs[t - 1] == accounts[t - 1]);
        let before = accounts[t - 1]@.published;
        let base = accounts[0]@.published.len();
        assert forall|i: int| 0 <= i < t implies accounts[t]@.published[base + i].event
            == #[trigger] events[i] by {
            if i < t - 1 {
                assert(accounts[t]@.published[base + i] == before[base + i]);
            }
        }
    }
}

/// Whoever subscribes to a topic and then has no more events published than the topic was
/// asked to hold gets the first of them, whichever handles they were published through.
pub proof fn law_subscriber_within_the_capacity_misses_nothing<E: Send + Sync + 'static>(
    cfg: TopicConfig,
    topic: Topic<E>,
    fresh: TopicAccount<E>,
    receiver: TopicReceiver<E>,
    accs: Seq<&mut TopicAccount<E>>,
    topics: Seq<Topic<E>>,
    besides: Seq<&[&TopicReceiver<E>]>,
    outcomes: Seq<Result<usize, TopicClosed>>,
    accounts: Seq<TopicAccount<E>>,
    events: Seq<E>,
    got: Result<Arc<E>, ReceiveError>,
    left: TopicReceiver<E>,
)
    requires
        call_ensures(Topic::<E>::new, (cfg,), (topic, fresh)),
        accounts.len() == events.len() + 1,
        exists|acc: &mut TopicAccount<E>|
            {
                &&& *acc == fresh
                &&& #[trigger] call_ensures(Topic::<E>::subscribe, (&topic, acc), receiver)
                &&& *final(acc) == accounts[0]
            },
        accs.len() == events.len(),
        forall|c: int|
            #![trigger accs[c]]
            0 <= c < events.len() ==> {
                &&& *accs[c] == accounts[c]
                &&& call_ensures(
                    Topic::<E>::publish,
                    (&topics[c], accs[c], events[c], besides[c]),
                    outcomes[c],
                )
                &&& *final(accs[c]) == accounts[c + 1]
            },
        exists|rx: &mut TopicReceiver<E>|
            {
                &&& *rx == receiver
                &&& #[trigger] call_ensures(
                    TopicReceiver::<E>::try_recv,
                    (rx, &topic, &accounts.last()),
                    got,
                )
                &&& *final(rx) == left
            },
    ensures
        events.len() == 0 ==> got is Err && got->Err_0 is Empty,
        0 < events.len() <= cfg.capacity || events.len() == 1 ==> got is Ok && *(got->Ok_0)
            == events[0] && left@.next == receiver@.next + 1,
{
    let t = events.len() as int;
    lemma_published(accs, topics, besides, outcomes, accounts, events, t);
    let topic_now = accounts[t]@;
    event::lemma_buffer(topic_now);
    if t > 0 {
        assert(topic_now.published[0].event == events[0]);
    }
    assert(accounts.last() == accounts[t]);
}

/// Publishing comes to what sending came to: the number of receivers, or that there were
/// none.
pub proof fn law_delivery_is_as_sent<E>(
    sent: Result<usize, broadcast::error::SendError<Arc<E>>>,
    outcome: Result<usize, TopicClosed>,
)
    requires
        call_ensures(delivery_outcome::<E>, (sent,), outcome),
    ensures
        sent is Ok <==> outcome is Ok,
        sent matches Ok(count) ==> outcome == Ok::<usize, TopicClosed>(count),
{
}

/// A buffer is the smallest power of two that is no less than the capacity.
proof fn lemma_buffer_is_power<E>(topic: TopicState<E>) -> (exponent: nat)
    requires
        topic.capacity >= 1,
    ensures
        topic.buffer() == power2::pow2(exponent),
        topic.capacity <= topic.buffer() < 2 * topic.capacity,
{
    power2::lemma2_to64();
    lemma_doubled_is_power(0, topic.capacity)
}

proof fn lemma_doubled_is_power(exponent: nat, capacity: nat) -> (found: nat)
    requires
        power2::pow2(exponent) < 2 * capacity,
    ensures
        channel::broadcast::doubled_up_to(power2::pow2(exponent), capacity) == power2::pow2(found),
        capacity <= power2::pow2(found) < 2 * capacity,
    decreases
        if power2::pow2(exponent) < capacity {
            capacity - power2::pow2(exponent)
        } else {
            0
        },
{
    power2::lemma_pow2_pos(exponent);
    if power2::pow2(exponent) >= capacity {
        exponent
    } else {
        power2::lemma_pow2_unfold(exponent + 1);
        lemma_doubled_is_power(exponent + 1, capacity)
    }
}

/// What is received is the oldest event that was not received yet, if the topic still holds
/// it; where it does not, the receiver is told how many are gone and goes on with the
/// oldest that is left. A topic holds as many events as its capacity, rounded up to a power
/// of two.
pub proof fn law_oldest_event_held_is_received<E: Send + Sync + 'static>(
    before: TopicReceiver<E>,
    topic: Topic<E>,
    account: TopicAccount<E>,
    got: Result<Arc<E>, ReceiveError>,
    after: TopicReceiver<E>,
)
    requires
        before@.topic == account@.topic,
        topic@ == account@.topic,
        before@.next <= account@.published.len(),
        account@.capacity >= 1,
        exists|rx: &mut TopicReceiver<E>|
            {
                &&& *rx == before
                &&& #[trigger] call_ensures(
                    TopicReceiver::<E>::try_recv,
                    (rx, &topic, &account),
                    got,
                )
                &&& *final(rx) == after
            },
    ensures
        after@.topic == before@.topic && after@.id == before@.id,
        before@.next == account@.published.len() ==> got is Err && got->Err_0 is Empty
            && after@.next == before@.next,
        exists|exponent: nat|
            {
                let held = #[trigger] power2::pow2(exponent);
                let waiting = account@.published.len() - before@.next;
                &&& account@.capacity <= held < 2 * account@.capacity
                &&& 0 < waiting <= held ==> {
                    &&& got is Ok
                    &&& *(got->Ok_0) == account@.published[before@.next as int].event
                    &&& after@.next == before@.next + 1
                }
                &&& held < waiting <= u64::MAX - held ==> {
                    &&& got matches Err(ReceiveError::Lagged(missed))
                    &&& missed == waiting - held
                    &&& after@.next == account@.published.len() - held
                }
            },
{
    let exponent = lemma_buffer_is_power(account@);
    assert(power2::pow2(exponent) == account@.buffer());
}

/// A subscriber receives what is published after it subscribed, and is one more on account,
/// unlike any before it; nothing else changes.
pub proof fn law_subscriber_is_put_on_account<E: Send + Sync + 'static>(
    topic: Topic<E>,
    before: TopicAccount<E>,
    receiver: TopicReceiver<E>,
    after: TopicAccount<E>,
    again: TopicReceiver<E>,
    last: TopicAccount<E>,
)
    requires
        topic@ == before@.topic,
        exists|acc: &mut TopicAccount<E>|
            {
                &&& *acc == before
                &&& #[trigger] call_ensures(Topic::<E>::subscribe, (&topic, acc), receiver)
                &&& *final(acc) == after
            },
        exists|acc: &mut TopicAccount<E>|
            {
                &&& *acc == after
                &&& #[trigger] call_ensures(Topic::<E>::subscribe, (&topic, acc), again)
                &&& *final(acc) == last
            },
    ensures
        receiver@.topic == before@.topic,
        receiver@.next == before@.published.len(),
        receiver@.id != again@.id,
        after@.receivers == before@.receivers + 1,
        last@.receivers == before@.receivers + 2,
        after@.published == before@.published && after@.capacity == before@.capacity,
        after@.topic == before@.topic && after@.lent == before@.lent,
{
}

/// As many are counted as are shown where those are all that there are on account; one that
/// is released is on account no more, and one that is taken out may be one of many.
pub proof fn law_receivers_of_a_topic_are_counted<E: Send + Sync + 'static>(
    topic: Topic<E>,
    other: Topic<E>,
    before: TopicAccount<E>,
    beside: &[&TopicReceiver<E>],
    count: usize,
    counted: TopicAccount<E>,
    receiver: TopicReceiver<E>,
    released: TopicAccount<E>,
    raw: broadcast::Receiver<Arc<E>>,
    lent: TopicAccount<E>,
)
    requires
        topic@ == before@.topic,
        event::are_receivers_of(beside@, before@),
        call_ensures(<Topic<E> as Clone>::clone, (&topic,), other),
        exists|acc: &mut TopicAccount<E>|
            {
                &&& *acc == before
                &&& #[trigger] call_ensures(
                    Topic::<E>::receiver_count,
                    (&topic, acc, beside),
                    count,
                )
                &&& *final(acc) == counted
            },
        receiver@.topic == before@.topic,
        before@.receivers > 0,
        exists|acc: &mut TopicAccount<E>|
            {
                &&& *acc == before
                &&& #[trigger] call_ensures(TopicReceiver::<E>::release, (receiver, acc), ())
                &&& *final(acc) == released
            },
        exists|acc: &mut TopicAccount<E>|
            {
                &&& *acc == before
                &&& #[trigger] call_ensures(TopicReceiver::<E>::into_inner, (receiver, acc), raw)
                &&& *final(acc) == lent
            },
    ensures
        other@ == topic@,
        beside@.len() <= count,
        !before@.lent ==> count <= before@.receivers,
        counted@.receivers == before@.receivers && counted@.published == before@.published,
        counted@.counts == before@.counts.push(count),
        released@.receivers == before@.receivers - 1 && released@.lent == before@.lent,
        released@.published == before@.published,
        raw == receiver.inner(),
        lent@.lent,
        lent@.published == before@.published && lent@.receivers == before@.receivers,
{
}

/// A topic can be had of every capacity that its buffer fits in memory with: up to 2 to the
/// power of 57 where a machine word has 64 bits, and of 26 where it has 32.
pub proof fn law_largest_capacity()
    ensures
        usize::BITS == 64 ==> event::MAX_CAPACITY == 0x0200_0000_0000_0000,
        usize::BITS == 32 ==> event::MAX_CAPACITY == 0x0400_0000,
{
}

} // verus!
