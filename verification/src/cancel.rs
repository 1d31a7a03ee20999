//! Cancellation tokens of `tokio_util`, and what is known of them.
use tokio_util::sync::CancellationToken;
use vstd::prelude::*;

verus! {

/// [`tokio_util::sync::CancellationToken`].
#[verifier::external_type_specification]
#[verifier::external_body]
pub struct ExCancellationToken(CancellationToken);

/// What is known of a token.
#[verifier::ext_equal]
pub struct TokenState {
    /// Which token it is; clones of a token are the same token.
    pub id: int,
    /// The tokens that it is a child of, directly or through other children.
    pub ancestors: Set<int>,
    /// It is known to be cancelled. A token with clones may have been cancelled
    /// through one of them, and any token through an ancestor, without this.
    pub cancelled: bool,
    /// It has no clones.
    pub sole: bool,
}

impl TokenState {
    /// Nobody can have cancelled this token: it was not cancelled itself, has no
    /// clones, and is no one's child.
    pub open spec fn live_root(self) -> bool {
        !self.cancelled && self.sole && self.ancestors == Set::<int>::empty()
    }

    /// Nobody can have cancelled this token: it was not cancelled itself, has no
    /// clones, and is a child of `root` alone, which nobody can have cancelled.
    pub open spec fn live_child_of(self, root: TokenState) -> bool {
        &&& root.live_root()
        &&& !self.cancelled
        &&& self.sole
        &&& self.ancestors == Set::<int>::empty().insert(root.id)
    }
}

/// What there is to know of a token that was handed out. Its holders may clone or cancel it at
/// any time, but not undo that, nor change where it stands.
#[verifier::ext_equal]
pub struct HandedOut {
    /// Which token it is.
    pub id: int,
    /// The tokens that it is a child of, directly or through other children.
    pub ancestors: Set<int>,
    /// It was cancelled when it was handed out.
    pub cancelled: bool,
}

/// What there was to know of `token` when it was handed out.
pub uninterp spec fn handed_out(token: CancellationToken) -> HandedOut;

/// A cancellation token that nobody else has, unless a clone of it was handed out.
///
/// Nothing outside this module reaches the token itself, so that it is cancelled or
/// cloned through the methods here alone.
pub struct Token {
    inner: CancellationToken,
    known: Ghost<TokenState>,
}

impl View for Token {
    type V = TokenState;

    closed spec fn view(&self) -> TokenState {
        self.known@
    }
}

impl Token {
    /// [`CancellationToken::new`]: a token of its own that is not cancelled.
    #[verifier::external_body]
    pub(crate) fn new() -> (token: Self)
        ensures
            token@.live_root(),
    {
        let known = Ghost(
            TokenState { id: 0, ancestors: Set::empty(), cancelled: false, sole: true },
        );
        Token { inner: CancellationToken::new(), known }
    }

    /// [`CancellationToken::cancel`]: cancelled from here on, since no call undoes it.
    #[verifier::external_body]
    pub(crate) fn cancel(&mut self)
        ensures
            final(self)@ == (TokenState { cancelled: true, ..old(self)@ }),
    {
        self.inner.cancel()
    }

    /// [`CancellationToken::is_cancelled`]: true of a token that was cancelled or has
    /// an ancestor that was; false of one that nobody can have cancelled.
    ///
    /// `_root` may be any token: what is known of it matters where it is an ancestor.
    #[verifier::external_body]
    pub(crate) fn is_cancelled(&self, _root: &Token) -> (r: bool)
        ensures
            self@.cancelled ==> r,
            _root@.cancelled && self@.ancestors.contains(_root@.id) ==> r,
            self@.live_root() ==> !r,
            self@.live_child_of(_root@) ==> !r,
    {
        self.inner.is_cancelled()
    }

    /// `Clone` of a [`CancellationToken`], handed out: its holder may cancel it at any
    /// time.
    #[verifier::external_body]
    pub(crate) fn hand_out(&mut self) -> (copy: CancellationToken)
        ensures
            final(self)@ == (TokenState { sole: false, ..old(self)@ }),
            handed_out(copy).id == old(self)@.id,
            handed_out(copy).ancestors == old(self)@.ancestors,
            old(self)@.cancelled ==> handed_out(copy).cancelled,
    {
        self.inner.clone()
    }

    /// [`CancellationToken::child_token`]: a new token below this one, cancelled if
    /// this one is. Cancelling the child does not cancel the parent, so the parent
    /// stays as it is.
    #[verifier::external_body]
    pub(crate) fn child(&self) -> (child: Token)
        ensures
            child@.cancelled == self@.cancelled,
            child@.sole,
            child@.ancestors == self@.ancestors.insert(self@.id),
    {
        Token { inner: self.inner.child_token(), known: Ghost(TokenState { id: 0, ..self@ }) }
    }
}

} // verus!
