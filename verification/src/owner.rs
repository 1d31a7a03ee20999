//! Counted ownership of a shared value.
//!
//! [`Owner`]s and [`WeakOwner`]s stand for the references of an [`Arc`], and a
//! [`RefCount`] keeps account of how many owners there can be. Nothing outside this
//! module reaches the references themselves, and each function here that makes or gives
//! up one puts it to the account.
use std::sync::{Arc, Weak};

use vstd::prelude::*;

verus! {

/// What is known of a reference.
pub struct OwnerState<R> {
    /// Which shared value it refers to.
    pub resource: int,
    /// The value itself.
    pub res: R,
}

/// What is known of how often a value is owned.
#[verifier::ext_equal]
pub struct CountState {
    /// Which shared value is counted.
    pub resource: int,
    /// How many owners of it there are at most: owners that are dropped without being
    /// given up stay in the count.
    pub live: nat,
    /// What came of each attempt to get the value back or to become an owner of it.
    pub tried: Seq<bool>,
}

impl CountState {
    /// One more owner.
    pub open spec fn gained(self) -> CountState {
        CountState { live: self.live + 1, ..self }
    }

    /// One owner less.
    pub open spec fn lost(self) -> CountState {
        CountState {
            live: if self.live > 0 {
                (self.live - 1) as nat
            } else {
                0
            },
            ..self
        }
    }

    /// One more attempt, and what came of it.
    pub open spec fn attempted(self, success: bool) -> CountState {
        CountState { tried: self.tried.push(success), ..self }
    }
}

/// The account of how often a value is owned. There is one for each shared value.
pub struct RefCount {
    known: Ghost<CountState>,
}

impl View for RefCount {
    type V = CountState;

    closed spec fn view(&self) -> CountState {
        self.known@
    }
}

/// An owning reference to a shared value.
pub struct Owner<R> {
    inner: Arc<R>,
    resource: Ghost<int>,
}

impl<R> View for Owner<R> {
    type V = OwnerState<R>;

    closed spec fn view(&self) -> OwnerState<R> {
        OwnerState { resource: self.resource@, res: *self.inner }
    }
}

impl<R> Owner<R> {
    /// [`Arc::new`]: the first reference to a value, and the account of its owners.
    #[verifier::external_body]
    pub(crate) fn new(res: R) -> (made: (Self, RefCount))
        ensures
            made.0@ == (OwnerState { resource: made.1@.resource, res }),
            made.1@.live == 1,
            made.1@.tried == Seq::<bool>::empty(),
    {
        let known = Ghost(CountState { resource: 0, live: 1, tried: Seq::empty() });
        let count = RefCount { known };
        (Owner { inner: Arc::new(res), resource: Ghost(0) }, count)
    }

    /// The value.
    pub(crate) fn get(&self) -> (res: &R)
        ensures
            *res == self@.res,
    {
        &self.inner
    }

    /// [`Arc::clone`]: one more reference to the same value.
    #[verifier::external_body]
    pub(crate) fn share(&self, count: &mut RefCount) -> (other: Self)
        requires
            self@.resource == old(count)@.resource,
        ensures
            other@ == self@,
            final(count)@ == old(count)@.gained(),
    {
        Owner { inner: Arc::clone(&self.inner), resource: Ghost(self@.resource) }
    }

    /// `Drop` of an [`Arc`]: one reference less.
    #[verifier::external_body]
    pub(crate) fn give_up(self, count: &mut RefCount)
        requires
            self@.resource == old(count)@.resource,
        ensures
            final(count)@ == old(count)@.lost(),
    {
        drop(self.inner)
    }

    /// [`Arc::try_unwrap`]: the value, if there is no other owning reference to it. The
    /// reference is given up either way. `_beside` is another reference, where there is
    /// one at hand.
    #[verifier::external_body]
    pub(crate) fn unwrap(self, count: &mut RefCount, _beside: Option<&Owner<R>>) -> (unwrapped:
        Option<R>)
        requires
            self@.resource == old(count)@.resource,
            _beside matches Some(other) ==> other@.resource == self@.resource && old(count)@.live
                > 1,
        ensures
            final(count)@ == old(count)@.lost().attempted(unwrapped is Some),
            old(count)@.live == 1 ==> unwrapped is Some,
            _beside is Some ==> unwrapped is None,
            unwrapped matches Some(res) ==> res == self@.res,
    {
        Arc::try_unwrap(self.inner).ok()
    }

    /// [`Arc::downgrade`]: a reference to the same value that does not own it.
    #[verifier::external_body]
    pub(crate) fn demote(&self) -> (weak: WeakOwner<R>)
        ensures
            weak@ == self@,
    {
        WeakOwner { inner: WeakRef { inner: Arc::downgrade(&self.inner) }, known: Ghost(self@) }
    }
}

/// [`std::sync::Weak`].
#[verifier::external_body]
#[verifier::reject_recursive_types(R)]
struct WeakRef<R> {
    inner: Weak<R>,
}

/// A reference to a shared value that does not own it.
#[verifier::reject_recursive_types(R)]
pub struct WeakOwner<R> {
    inner: WeakRef<R>,
    known: Ghost<OwnerState<R>>,
}

impl<R> View for WeakOwner<R> {
    type V = OwnerState<R>;

    closed spec fn view(&self) -> OwnerState<R> {
        self.known@
    }
}

impl<R> WeakOwner<R> {
    /// [`Weak::upgrade`]: an owning reference to the same value, if any is left.
    /// `_beside` is one, where there is one at hand.
    #[verifier::external_body]
    pub(crate) fn promote(&self, count: &mut RefCount, _beside: Option<&Owner<R>>) -> (owner:
        Option<Owner<R>>)
        requires
            self@.resource == old(count)@.resource,
            _beside matches Some(other) ==> other@.resource == self@.resource && old(count)@.live
                > 0,
        ensures
            old(count)@.live == 0 ==> owner is None,
            _beside is Some ==> owner is Some,
            owner matches Some(owner) ==> owner@ == self@,
            final(count)@ == (if owner is Some {
                old(count)@.gained()
            } else {
                old(count)@
            }).attempted(owner is Some),
    {
        let inner = self.inner.inner.upgrade()?;
        Some(Owner { inner, resource: Ghost(self@.resource) })
    }

    /// `Clone` of [`Weak`]: another reference of the same kind.
    #[verifier::external_body]
    pub(crate) fn copy(&self) -> (other: Self)
        ensures
            other@ == self@,
    {
        WeakOwner { inner: WeakRef { inner: Weak::clone(&self.inner.inner) }, known: Ghost(self@) }
    }
}

} // verus!
