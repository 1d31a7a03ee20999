//! State cells: what is written is read, and who subscribed is told.
use std::ops::Deref;

use tokio::sync::watch;
use vstd::prelude::*;

use crate::state;
use crate::state::{CellAccount, State, StateReceiver, StateRef};

verus! {

/// A new cell holds what it was made with, through every handle to it, and has no
/// subscribers.
pub proof fn law_new_cell_holds_its_value<T: Send + Sync + 'static>(
    initial: T,
    state: State<T>,
    account: CellAccount<T>,
    other: State<T>,
    read: StateRef<'static, T>,
    counted: CellAccount<T>,
    count: usize,
    none: &[&StateReceiver<T>],
)
    requires
        call_ensures(State::<T>::new, (initial,), (state, account)),
        call_ensures(<State<T> as Clone>::clone, (&state,), other),
        call_ensures(State::<T>::borrow, (&other, &account), read),
        none@.len() == 0,
        exists|acc: &mut CellAccount<T>|
            {
                &&& *acc == account
                &&& #[trigger] call_ensures(
                    State::<T>::receiver_count,
                    (&state, acc, none),
                    count,
                )
                &&& *final(acc) == counted
            },
    ensures
        read@ == initial,
        other@ == state@,
        count == 0,
        counted@.value == initial,
{
}

/// What is set is read through every handle and by every subscriber, and those who
/// subscribed before have news of it.
pub proof fn law_what_is_set_is_read<T: Send + Sync + 'static>(
    state: State<T>,
    before: CellAccount<T>,
    subscribed: CellAccount<T>,
    receiver: StateReceiver<T>,
    value: T,
    after: CellAccount<T>,
    read: StateRef<'static, T>,
    received: StateRef<'static, T>,
    at_once: bool,
    news: bool,
)
    requires
        state@ == before@.cell,
        exists|acc: &mut CellAccount<T>|
            {
                &&& *acc == before
                &&& #[trigger] call_ensures(State::<T>::subscribe, (&state, acc), receiver)
                &&& *final(acc) == subscribed
            },
        exists|acc: &mut CellAccount<T>|
            {
                &&& *acc == subscribed
                &&& #[trigger] call_ensures(State::<T>::set, (&state, acc, value), ())
                &&& *final(acc) == after
            },
        call_ensures(State::<T>::borrow, (&state, &after), read),
        call_ensures(StateReceiver::<T>::borrow, (&receiver, &after), received),
        call_ensures(StateReceiver::<T>::has_changed, (&receiver, &state, &subscribed), at_once),
        call_ensures(StateReceiver::<T>::has_changed, (&receiver, &state, &after), news),
    ensures
        read@ == value,
        received@ == value,
        !at_once,
        news,
        subscribed@.value == before@.value,
        subscribed@.receivers == before@.receivers + 1,
        after@.cell == before@.cell,
        after@.receivers == subscribed@.receivers && after@.lent == before@.lent,
{
}

/// What is modified in place is read, whatever subscribers are told: they have news of it
/// where it was said to be a change, and none where it was not.
pub proof fn law_what_is_modified_is_read<T: Send + Sync + 'static, F: FnOnce(&mut T) -> bool>(
    state: State<T>,
    before: CellAccount<T>,
    receiver: StateReceiver<T>,
    f: F,
    changed: bool,
    after: CellAccount<T>,
    read: StateRef<'static, T>,
    news: bool,
)
    requires
        state@ == before@.cell,
        receiver@ == before@.new_receiver(),
        exists|acc: &mut CellAccount<T>|
            {
                &&& *acc == before
                &&& #[trigger] call_ensures(State::<T>::modify_if::<F>, (&state, acc, f), changed)
                &&& *final(acc) == after
            },
        call_ensures(State::<T>::borrow, (&state, &after), read),
        call_ensures(StateReceiver::<T>::has_changed, (&receiver, &state, &after), news),
    ensures
        exists|v: &mut T|
            *v == before@.value && #[trigger] call_ensures(f, (v,), changed) && *final(v) == read@,
        news == changed,
        after@.receivers == before@.receivers && after@.cell == before@.cell,
{
}

/// A value that is modified without being asked about is a change in every case.
pub proof fn law_modification_is_told<T: Send + Sync + 'static, F: FnOnce(&mut T)>(
    state: State<T>,
    before: CellAccount<T>,
    receiver: StateReceiver<T>,
    f: F,
    after: CellAccount<T>,
    read: StateRef<'static, T>,
    news: bool,
)
    requires
        state@ == before@.cell,
        receiver@ == before@.new_receiver(),
        exists|acc: &mut CellAccount<T>|
            {
                &&& *acc == before
                &&& #[trigger] call_ensures(State::<T>::modify::<F>, (&state, acc, f), ())
                &&& *final(acc) == after
            },
        call_ensures(State::<T>::borrow, (&state, &after), read),
        call_ensures(StateReceiver::<T>::has_changed, (&receiver, &state, &after), news),
    ensures
        exists|v: &mut T|
            *v == before@.value && #[trigger] call_ensures(f, (v,), ()) && *final(v) == read@,
        news,
        after@.receivers == before@.receivers && after@.cell == before@.cell,
{
}

/// A snapshot is a clone of what is read.
pub proof fn law_snapshot_is_a_clone<T: Send + Sync + Clone + 'static>(
    state: State<T>,
    account: CellAccount<T>,
    read: StateRef<'static, T>,
    copy: T,
)
    requires
        state@ == account@.cell,
        call_ensures(State::<T>::borrow, (&state, &account), read),
        call_ensures(State::<T>::snapshot, (&state, &account), copy),
    ensures
        cloned(read@, copy),
{
}

/// A subscriber that ends its subscription is counted no more.
pub proof fn law_release_ends_the_subscription<T: Send + Sync + 'static>(
    state: State<T>,
    before: CellAccount<T>,
    receiver: StateReceiver<T>,
    after: CellAccount<T>,
    counted: CellAccount<T>,
    count: usize,
    none: &[&StateReceiver<T>],
)
    requires
        state@ == before@.cell,
        receiver@.cell == before@.cell,
        before@.receivers == 1,
        !before@.lent,
        exists|acc: &mut CellAccount<T>|
            {
                &&& *acc == before
                &&& #[trigger] call_ensures(StateReceiver::<T>::release, (receiver, acc), ())
                &&& *final(acc) == after
            },
        none@.len() == 0,
        exists|acc: &mut CellAccount<T>|
            {
                &&& *acc == after
                &&& #[trigger] call_ensures(
                    State::<T>::receiver_count,
                    (&state, acc, none),
                    count,
                )
                &&& *final(acc) == counted
            },
    ensures
        count == 0,
        after@.value == before@.value,
        after@.notified == before@.notified,
{
}

/// As many are counted as are shown where those are all that there are on account. One that
/// is taken out is the very one that subscribed, and may be one of many from there on.
pub proof fn law_receivers_of_a_cell_are_counted<T: Send + Sync + 'static>(
    state: State<T>,
    before: CellAccount<T>,
    beside: &[&StateReceiver<T>],
    count: usize,
    counted: CellAccount<T>,
    receiver: StateReceiver<T>,
    raw: watch::Receiver<T>,
    lent: CellAccount<T>,
)
    requires
        state@ == before@.cell,
        state::are_receivers_of(beside@, before@),
        exists|acc: &mut CellAccount<T>|
            {
                &&& *acc == before
                &&& #[trigger] call_ensures(
                    State::<T>::receiver_count,
                    (&state, acc, beside),
                    count,
                )
                &&& *final(acc) == counted
            },
        receiver@.cell == before@.cell,
        exists|acc: &mut CellAccount<T>|
            {
                &&& *acc == before
                &&& #[trigger] call_ensures(StateReceiver::<T>::into_inner, (receiver, acc), raw)
                &&& *final(acc) == lent
            },
    ensures
        beside@.len() <= count,
        !before@.lent ==> count <= before@.receivers,
        counted@.receivers == before@.receivers && counted@.value == before@.value,
        counted@.notified == before@.notified,
        counted@.counts == before@.counts.push(count),
        raw == receiver.inner(),
        lent@.lent,
        lent@.value == before@.value && lent@.receivers == before@.receivers,
        lent@.notified == before@.notified,
{
}

/// What is borrowed from a cell is what it holds.
pub proof fn law_borrowed_value_is_the_value<T: Send + Sync + 'static>(
    state: State<T>,
    account: CellAccount<T>,
    read: StateRef<'static, T>,
    value: &T,
)
    requires
        state@ == account@.cell,
        call_ensures(State::<T>::borrow, (&state, &account), read),
        call_ensures(<StateRef<'static, T> as Deref>::deref, (&read,), value),
    ensures
        *value == account@.value,
{
}

/// Each subscriber is one more on account, unlike any before it; nothing else changes.
pub proof fn law_subscriber_is_put_on_account<T: Send + Sync + 'static>(
    state: State<T>,
    before: CellAccount<T>,
    receiver: StateReceiver<T>,
    after: CellAccount<T>,
    again: StateReceiver<T>,
    last: CellAccount<T>,
)
    requires
        state@ == before@.cell,
        exists|acc: &mut CellAccount<T>|
            {
                &&& *acc == before
                &&& #[trigger] call_ensures(State::<T>::subscribe, (&state, acc), receiver)
                &&& *final(acc) == after
            },
        exists|acc: &mut CellAccount<T>|
            {
                &&& *acc == after
                &&& #[trigger] call_ensures(State::<T>::subscribe, (&state, acc), again)
                &&& *final(acc) == last
            },
    ensures
        receiver@.cell == before@.cell && again@.cell == before@.cell,
        receiver@.id != again@.id,
        after@.receivers == before@.receivers + 1,
        last@.receivers == before@.receivers + 2,
        last@.value == before@.value && last@.notified == before@.notified,
        last@.lent == before@.lent,
{
}

} // verus!
