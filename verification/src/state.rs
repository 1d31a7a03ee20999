//! [`State<T>`], a snapshot primitive backed by [`tokio::sync::watch`].
//!
//! Counterpart to [`Topic<E>`](crate::Topic): where `Topic<E>` is "live deltas
//! only, late subscribers miss the past," `State<T>` is "always has a current
//! value, new subscribers immediately see it." Use it for app state that a
//! newly-connected client needs to read before subscribing to live updates.
//!
//! For large state, wrap the inner type in an [`Arc`](std::sync::Arc) so
//! [`snapshot`](State::snapshot) is a refcount clone rather than a deep copy.
//!
//! A cell has one [`CellAccount`], which [`State::new`] hands out with the first handle.
//! Whoever reads or writes the cell, through whichever handle, passes the account.
use tokio::sync::watch;
use vstd::prelude::*;

use crate::channel::watch::{CellState, ReceiverState, WatchReceiver, WatchSender};

pub use crate::channel::watch::{CellAccount, StateRef};

verus! {

/// Snapshot state with change notifications.
///
/// Cheap to clone; all clones share the same underlying channel.
#[verifier::reject_recursive_types(T)]
pub struct State<T> {
    cell: WatchSender<T>,
}

impl<T> View for State<T> {
    type V = int;

    /// The cell that it is a handle to.
    closed spec fn view(&self) -> int {
        self.cell@
    }
}

impl<T> State<T> where T: Send + Sync + 'static {
    /// Create a new state cell with the given initial value, and get its account.
    pub fn new(initial: T) -> (made: (Self, CellAccount<T>))
        ensures
            made.1@ == CellState::initial(made.0@, initial),
    {
        let (cell, account) = WatchSender::channel(initial);
        (State { cell }, account)
    }

    /// Borrow the current value without cloning.
    ///
    /// The returned guard holds an internal read lock: **do not hold it across
    /// an `.await` point**, or [`set`](Self::set) / [`modify`](Self::modify)
    /// calls from other tasks will block. Use [`snapshot`](Self::snapshot)
    /// instead for the "load and release" pattern.
    pub fn borrow<'a>(&'a self, account: &'a CellAccount<T>) -> (current: StateRef<'a, T>)
        requires
            self@ == account@.cell,
        ensures
            current@ == account@.value,
    {
        self.cell.borrow(account)
    }

    /// Take a snapshot of the current value.
    ///
    /// Safe to hold across `.await` points. For large `T`, prefer
    /// `State<Arc<U>>` so this is just a refcount bump.
    pub fn snapshot(&self, account: &CellAccount<T>) -> (copy: T) where T: Clone
        requires
            self@ == account@.cell,
        ensures
            cloned(account@.value, copy),
    {
        let current = self.cell.borrow(account);
        current.get().clone()
    }

    /// Replace the current value. Notifies all active subscribers.
    ///
    /// Blocks while a receiver that was taken out of its [`StateReceiver`] is borrowed
    /// from.
    pub fn set(&self, account: &mut CellAccount<T>, value: T)
        requires
            self@ == old(account)@.cell,
        ensures
            final(account)@ == old(account)@.updated(value, true),
    {
        // The previous value is of no use, and replacing it succeeds with no
        // receivers too.
        let _ = self.cell.send_replace(account, value);
    }

    /// Update the current value in place. Notifies all active subscribers.
    ///
    /// Blocks as [`set`](Self::set) does.
    pub fn modify<F>(&self, account: &mut CellAccount<T>, f: F) where F: FnOnce(&mut T)
        requires
            self@ == old(account)@.cell,
            forall|v: &mut T| *v == old(account)@.value ==> #[trigger] call_requires(f, (v,)),
        ensures
            final(account)@ == old(account)@.updated(final(account)@.value, true),
            exists|v: &mut T|
                *v == old(account)@.value && #[trigger] call_ensures(f, (v,), ()) && *final(v)
                    == final(account)@.value,
    {
        self.cell.send_modify(account, f);
    }

    /// Update the current value in place; only notify subscribers if `f`
    /// returns `true`.
    ///
    /// Blocks as [`set`](Self::set) does.
    pub fn modify_if<F>(&self, account: &mut CellAccount<T>, f: F) -> (changed: bool) where
        F: FnOnce(&mut T) -> bool,

        requires
            self@ == old(account)@.cell,
            forall|v: &mut T| *v == old(account)@.value ==> #[trigger] call_requires(f, (v,)),
        ensures
            final(account)@ == old(account)@.updated(final(account)@.value, changed),
            exists|v: &mut T|
                *v == old(account)@.value && #[trigger] call_ensures(f, (v,), changed) && *final(v)
                    == final(account)@.value,
    {
        self.cell.send_if_modified(account, f)
    }

    /// Subscribe to changes. The returned receiver also exposes the current value,
    /// which counts as seen.
    pub fn subscribe(&self, account: &mut CellAccount<T>) -> (receiver: StateReceiver<T>)
        requires
            self@ == old(account)@.cell,
        ensures
            final(account)@ == old(account)@.heard(),
            receiver@ == old(account)@.new_receiver(),
    {
        StateReceiver { inner: self.cell.subscribe(account) }
    }

    /// Current number of active subscribers.
    ///
    /// Subscribers can be dropped without being released, so those that are alive are
    /// shown: as `beside`. With all of them shown, the number is theirs.
    pub fn receiver_count(
        &self,
        account: &mut CellAccount<T>,
        beside: &[&StateReceiver<T>],
    ) -> (count: usize)
        requires
            self@ == old(account)@.cell,
            are_receivers_of(beside@, old(account)@),
        ensures
            final(account)@ == old(account)@.counted(count),
            old(account)@.can_have(beside@.len(), count as nat),
    {
        self.cell.receiver_count(account, beside)
    }
}

impl<T> Clone for State<T> {
    fn clone(&self) -> (other: Self)
        ensures
            other@ == self@,
    {
        State { cell: self.cell.share() }
    }
}

/// A subscription to the changes of a [`State`].
#[verifier::reject_recursive_types(T)]
pub struct StateReceiver<T> {
    inner: WatchReceiver<T>,
}

impl<T> View for StateReceiver<T> {
    type V = ReceiverState;

    closed spec fn view(&self) -> ReceiverState {
        self.inner@
    }
}

/// These are different receivers of a cell, all of them on its account.
pub open spec fn are_receivers_of<T>(beside: Seq<&StateReceiver<T>>, cell: CellState<T>) -> bool {
    &&& beside.len() <= cell.receivers
    &&& forall|i: int| 0 <= i < beside.len() ==> (#[trigger] beside[i])@.cell == cell.cell
    &&& forall|i: int, j: int|
        0 <= i < j < beside.len() ==> (#[trigger] beside[i])@.id != (#[trigger] beside[j])@.id
}

impl<T> StateReceiver<T> {
    /// The receiver itself.
    pub closed spec fn inner(&self) -> watch::Receiver<T> {
        self.inner.inner()
    }

    /// The receiver itself, to wait on. How many receivers there are is up to its
    /// holder from here on, who can clone it.
    pub fn into_inner(self, account: &mut CellAccount<T>) -> (receiver: watch::Receiver<T>)
        requires
            self@.cell == old(account)@.cell,
        ensures
            receiver == self.inner(),
            final(account)@ == old(account)@.lending(),
    {
        self.inner.into_inner(account)
    }

    /// End this subscription.
    pub fn release(self, account: &mut CellAccount<T>)
        requires
            self@.cell == old(account)@.cell,
            old(account)@.receivers > 0,
        ensures
            final(account)@ == old(account)@.released(),
    {
        self.inner.give_up(account);
    }
}

impl<T> StateReceiver<T> where T: Send + Sync + 'static {
    /// The current value of the cell, which does not count as seen by this.
    pub fn borrow<'a>(&'a self, account: &'a CellAccount<T>) -> (current: StateRef<'a, T>)
        requires
            self@.cell == account@.cell,
        ensures
            current@ == account@.value,
    {
        self.inner.borrow(account)
    }

    /// Whether the cell has notified its subscribers since this one last looked. `state`
    /// is a handle to the cell.
    ///
    /// Notifications are counted, and counts start over when they are used up.
    pub fn has_changed(&self, state: &State<T>, account: &CellAccount<T>) -> (changed: bool)
        requires
            self@.cell == account@.cell,
            state@ == account@.cell,
        ensures
            account@.notified == self@.seen ==> !changed,
            self@.has_news(account@) ==> changed,
    {
        self.inner.has_changed(&state.cell, account)
    }
}

/// A new subscriber has nothing left to see; of what is set after that, through
/// whichever handle, it has news.
pub proof fn law_subscriber_has_news<T>(cell: CellState<T>, value: T)
    ensures
        cell.new_receiver().cell == cell.cell,
        cell.heard().value == cell.value,
        cell.heard().notified == cell.new_receiver().seen,
        cell.heard().updated(value, true).value == value,
        cell.new_receiver().has_news(cell.heard().updated(value, true)),
        cell.heard().updated(value, false).notified == cell.new_receiver().seen,
{
}

/// Each subscriber is counted until it is released: a cell starts with none, one more
/// subscriber makes the count one higher, and its release makes it what it was. Reading
/// and writing make no difference to that.
pub proof fn law_subscribers_are_counted<T>(
    cell: CellState<T>,
    value: T,
    notify: bool,
    count: usize,
)
    requires
        !cell.lent,
    ensures
        cell.can_have(cell.receivers, count as nat) ==> count == cell.receivers,
        cell.heard().can_have(cell.receivers + 1, count as nat) ==> count == cell.receivers + 1,
        cell.heard().released().can_have(cell.receivers, count as nat) ==> count == cell.receivers,
        cell.updated(value, notify).can_have(cell.receivers, count as nat) ==> count
            == cell.receivers,
        cell.counted(count).receivers == cell.receivers && !cell.counted(count).lent,
        CellState::initial(cell.cell, value).can_have(0, count as nat) ==> count == 0,
{
}

/// What is written to a cell is what it holds, until the next write; whether
/// subscribers are notified makes no difference to that.
pub proof fn law_cell_holds_last_write<T>(cell: CellState<T>, first: T, second: T, notify: bool)
    ensures
        cell.updated(first, notify).value == first,
        cell.updated(first, notify).updated(second, !notify).value == second,
        cell.updated(first, notify).heard().value == first,
        cell.updated(first, notify).cell == cell.cell,
{
}

} // verus!
