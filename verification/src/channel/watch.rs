//! Watch channels of `tokio`, and what is known of them.
//!
//! Each channel has one [`CellAccount`], which says what is known of it. Whoever acts on
//! the channel, through whichever of its senders or receivers, passes the account: shared
//! to look, exclusively to change. A value that is borrowed from the channel holds on to
//! the account, so that nothing is changed, and no change waits for it, while it is
//! borrowed.
//!
//! Nothing outside this module reaches the channels themselves, except through
//! [`WatchReceiver::into_inner`].
use std::ops::Deref;

use tokio::sync::watch;
use vstd::prelude::*;

use crate::state;
use crate::state::StateReceiver;

verus! {

/// [`tokio::sync::watch::Sender`].
#[verifier::external_type_specification]
#[verifier::external_body]
#[verifier::reject_recursive_types(T)]
pub struct ExWatchSender<T>(watch::Sender<T>);

/// [`tokio::sync::watch::Receiver`].
#[verifier::external_type_specification]
#[verifier::external_body]
#[verifier::reject_recursive_types(T)]
pub struct ExWatchReceiver<T>(watch::Receiver<T>);

/// [`tokio::sync::watch::Ref`].
#[verifier::external_type_specification]
#[verifier::external_body]
#[verifier::reject_recursive_types(T)]
pub struct ExWatchRef<'a, T>(watch::Ref<'a, T>);

/// What is known of a cell.
#[verifier::ext_equal]
pub struct CellState<T> {
    /// Which cell it is.
    pub cell: int,
    /// The current value.
    pub value: T,
    /// How often subscribers have been notified.
    pub notified: nat,
    /// How often someone has subscribed.
    pub subscriptions: nat,
    /// How many receivers there are at most, unless one was lent: receivers that are
    /// dropped without being released stay in the count.
    pub receivers: nat,
    /// A receiver was taken out to wait on. Its holder can clone it.
    pub lent: bool,
    /// What each count of the receivers came to.
    pub counts: Seq<usize>,
}

impl<T> CellState<T> {
    /// A new cell with this value.
    pub open spec fn initial(cell: int, value: T) -> CellState<T> {
        CellState {
            cell,
            value,
            notified: 0,
            subscriptions: 0,
            receivers: 0,
            lent: false,
            counts: Seq::empty(),
        }
    }

    /// The value is another one from here on, and subscribers are notified or not.
    pub open spec fn updated(self, value: T, notify: bool) -> CellState<T> {
        CellState {
            value,
            notified: if notify {
                self.notified + 1
            } else {
                self.notified
            },
            ..self
        }
    }

    /// Someone subscribes.
    pub open spec fn heard(self) -> CellState<T> {
        CellState {
            subscriptions: self.subscriptions + 1,
            receivers: self.receivers + 1,
            ..self
        }
    }

    /// A receiver that subscribes now.
    pub open spec fn new_receiver(self) -> ReceiverState {
        ReceiverState { cell: self.cell, id: self.subscriptions, seen: self.notified }
    }

    /// A receiver is released.
    pub open spec fn released(self) -> CellState<T> {
        CellState { receivers: (self.receivers - 1) as nat, ..self }
    }

    /// A receiver is taken out.
    pub open spec fn lending(self) -> CellState<T> {
        CellState { lent: true, ..self }
    }

    /// The receivers are counted.
    pub open spec fn counted(self, count: usize) -> CellState<T> {
        CellState { counts: self.counts.push(count), ..self }
    }

    /// There can be that many receivers, where so many are shown: no fewer than those,
    /// and, unless one was lent, no more than there are on account.
    pub open spec fn can_have(self, shown: nat, receivers: nat) -> bool {
        shown <= receivers && (!self.lent ==> receivers <= self.receivers)
    }
}

/// What is known of a receiver.
pub struct ReceiverState {
    /// The cell that it receives from.
    pub cell: int,
    /// Which of the cell's receivers it is.
    pub id: nat,
    /// How often subscribers of the cell had been notified when this one last looked.
    pub seen: nat,
}

impl ReceiverState {
    /// The cell has notified its subscribers since this one last looked, but not so often
    /// that counts have started over.
    pub open spec fn has_news<T>(self, cell: CellState<T>) -> bool {
        self.seen < cell.notified <= self.seen + usize::MAX / 4
    }
}

/// The account of a cell. There is one for each cell.
#[verifier::reject_recursive_types(T)]
pub struct CellAccount<T> {
    known: Ghost<CellState<T>>,
}

impl<T> View for CellAccount<T> {
    type V = CellState<T>;

    closed spec fn view(&self) -> CellState<T> {
        self.known@
    }
}

/// The sending half of a watch channel.
#[verifier::reject_recursive_types(T)]
pub struct WatchSender<T> {
    tx: watch::Sender<T>,
    cell: Ghost<int>,
}

impl<T> View for WatchSender<T> {
    type V = int;

    /// The cell that it sends to.
    closed spec fn view(&self) -> int {
        self.cell@
    }
}

/// A value borrowed from a watch channel.
///
/// It holds a read lock on the channel until it is dropped. One that is leaked holds it
/// for good, and the next change waits as long.
#[verifier::reject_recursive_types(T)]
pub struct StateRef<'a, T> {
    inner: watch::Ref<'a, T>,
    value: Ghost<T>,
}

impl<'a, T> View for StateRef<'a, T> {
    type V = T;

    closed spec fn view(&self) -> T {
        self.value@
    }
}

impl<'a, T> StateRef<'a, T> {
    /// `Deref` of [`watch::Ref`]: the borrowed value, which cannot change as long
    /// as it is borrowed.
    #[verifier::external_body]
    pub(crate) fn get(&self) -> (value: &T)
        ensures
            *value == self@,
    {
        &self.inner
    }
}

impl<'a, T> Deref for StateRef<'a, T> {
    type Target = T;

    fn deref(&self) -> (value: &T)
        ensures
            *value == self@,
    {
        self.get()
    }
}

impl<T> WatchSender<T> {
    /// [`watch::channel`], of which the sender is kept: a channel that holds
    /// `initial`, with one sender and no receiver.
    #[verifier::external_body]
    pub(crate) fn channel(initial: T) -> (made: (Self, CellAccount<T>))
        ensures
            made.1@ == CellState::initial(made.0@, initial),
    {
        let account = CellAccount { known: Ghost(CellState::initial(0, initial)) };
        (WatchSender { tx: watch::channel(initial).0, cell: Ghost(0) }, account)
    }

    /// [`watch::Sender::borrow`]: what the channel holds.
    #[verifier::external_body]
    pub(crate) fn borrow<'a>(&'a self, account: &'a CellAccount<T>) -> (current: StateRef<'a, T>)
        requires
            self@ == account@.cell,
        ensures
            current@ == account@.value,
    {
        StateRef { inner: self.tx.borrow(), value: Ghost(account@.value) }
    }

    /// [`watch::Sender::send_replace`]: the channel holds `value` from here on,
    /// whether or not there are receivers, and receivers are notified.
    #[verifier::external_body]
    pub(crate) fn send_replace(&self, account: &mut CellAccount<T>, value: T) -> (previous: T)
        requires
            self@ == old(account)@.cell,
        ensures
            final(account)@ == old(account)@.updated(value, true),
            previous == old(account)@.value,
    {
        self.tx.send_replace(value)
    }

    /// [`watch::Sender::send_modify`]: the channel holds what `f` made of its value,
    /// and receivers are notified.
    #[verifier::external_body]
    pub(crate) fn send_modify<F>(&self, account: &mut CellAccount<T>, f: F) -> (done: ()) where
        F: FnOnce(&mut T),

        requires
            self@ == old(account)@.cell,
            forall|v: &mut T| *v == old(account)@.value ==> #[trigger] call_requires(f, (v,)),
        ensures
            final(account)@ == old(account)@.updated(final(account)@.value, true),
            exists|v: &mut T|
                *v == old(account)@.value && #[trigger] call_ensures(f, (v,), done) && *final(v)
                    == final(account)@.value,
    {
        self.tx.send_modify(f)
    }

    /// [`watch::Sender::send_if_modified`]: the channel holds what `f` made of its
    /// value, and receivers are notified if `f` returned `true`.
    #[verifier::external_body]
    pub(crate) fn send_if_modified<F>(&self, account: &mut CellAccount<T>, f: F) -> (changed:
        bool) where F: FnOnce(&mut T) -> bool,

        requires
            self@ == old(account)@.cell,
            forall|v: &mut T| *v == old(account)@.value ==> #[trigger] call_requires(f, (v,)),
        ensures
            final(account)@ == old(account)@.updated(final(account)@.value, changed),
            exists|v: &mut T|
                *v == old(account)@.value && #[trigger] call_ensures(f, (v,), changed) && *final(v)
                    == final(account)@.value,
    {
        self.tx.send_if_modified(f)
    }

    /// [`watch::Sender::subscribe`]: a receiver of the same channel, which has seen
    /// what the channel holds and cannot set it.
    #[verifier::external_body]
    pub(crate) fn subscribe(&self, account: &mut CellAccount<T>) -> (receiver: WatchReceiver<T>)
        requires
            self@ == old(account)@.cell,
        ensures
            final(account)@ == old(account)@.heard(),
            receiver@ == old(account)@.new_receiver(),
    {
        WatchReceiver { inner: self.tx.subscribe(), known: Ghost(account@.new_receiver()) }
    }

    /// [`watch::Sender::receiver_count`]: how many receivers there are. Those at hand
    /// are among them: `_beside`. There are no others than those that were subscribed
    /// and not dropped since, unless one was taken out.
    #[verifier::external_body]
    pub(crate) fn receiver_count(
        &self,
        account: &mut CellAccount<T>,
        _beside: &[&StateReceiver<T>],
    ) -> (count: usize)
        requires
            self@ == old(account)@.cell,
            state::are_receivers_of(_beside@, old(account)@),
        ensures
            final(account)@ == old(account)@.counted(count),
            old(account)@.can_have(_beside@.len(), count as nat),
    {
        self.tx.receiver_count()
    }

    /// `Clone` of [`watch::Sender`]: another sender of the same channel.
    #[verifier::external_body]
    pub(crate) fn share(&self) -> (other: Self)
        ensures
            other@ == self@,
    {
        WatchSender { tx: self.tx.clone(), cell: Ghost(self@) }
    }
}

/// The receiving half of a watch channel.
#[verifier::reject_recursive_types(T)]
pub struct WatchReceiver<T> {
    inner: watch::Receiver<T>,
    known: Ghost<ReceiverState>,
}

impl<T> View for WatchReceiver<T> {
    type V = ReceiverState;

    closed spec fn view(&self) -> ReceiverState {
        self.known@
    }
}

impl<T> WatchReceiver<T> {
    /// The receiver itself.
    pub closed spec fn inner(&self) -> watch::Receiver<T> {
        self.inner
    }

    /// The receiver itself, to wait on.
    pub(crate) fn into_inner(self, account: &mut CellAccount<T>) -> (receiver: watch::Receiver<T>)
        requires
            self@.cell == old(account)@.cell,
        ensures
            receiver == self.inner(),
            final(account)@ == old(account)@.lending(),
    {
        account.known = Ghost(account.known@.lending());
        self.inner
    }

    /// `Drop` of a [`watch::Receiver`]: one receiver less.
    #[verifier::external_body]
    pub(crate) fn give_up(self, account: &mut CellAccount<T>)
        requires
            self@.cell == old(account)@.cell,
            old(account)@.receivers > 0,
        ensures
            final(account)@ == old(account)@.released(),
    {
        drop(self.inner)
    }

    /// [`watch::Receiver::borrow`]: what the channel holds.
    #[verifier::external_body]
    pub(crate) fn borrow<'a>(&'a self, account: &'a CellAccount<T>) -> (current: StateRef<'a, T>)
        requires
            self@.cell == account@.cell,
        ensures
            current@ == account@.value,
    {
        StateRef { inner: self.inner.borrow(), value: Ghost(account@.value) }
    }

    /// [`watch::Receiver::has_changed`]: whether the version of the channel is another
    /// one than this receiver has seen. Each notification makes a new version, and as
    /// many as a machine word can count make an old one again. `_sender` keeps the
    /// channel open.
    #[verifier::external_body]
    pub(crate) fn has_changed(
        &self,
        _sender: &WatchSender<T>,
        account: &CellAccount<T>,
    ) -> (changed: bool)
        requires
            self@.cell == account@.cell,
            _sender@ == account@.cell,
        ensures
            account@.notified == self@.seen ==> !changed,
            self@.has_news(account@) ==> changed,
    {
        self.inner.has_changed().unwrap_or(false)
    }
}

} // verus!
