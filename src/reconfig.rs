use vstd::prelude::*;

verus! {

/// What kinds of transactions the epoch still admits. The state only moves forward.
#[derive(Clone, Copy, Debug, PartialEq, Eq, Structural)]
pub enum ReconfigState {
    AcceptAll,
    RejectUserCerts,
    RejectAllCerts,
    RejectAllTx,
}

/// Position of a state along the forward-only chain of states.
pub open spec fn stage(s: ReconfigState) -> nat {
    match s {
        ReconfigState::AcceptAll => 0,
        ReconfigState::RejectUserCerts => 1,
        ReconfigState::RejectAllCerts => 2,
        ReconfigState::RejectAllTx => 3,
    }
}

/// The state that sits at a given position of the chain.
pub open spec fn state_at(n: nat) -> ReconfigState {
    if n == 0 {
        ReconfigState::AcceptAll
    } else if n == 1 {
        ReconfigState::RejectUserCerts
    } else if n == 2 {
        ReconfigState::RejectAllCerts
    } else {
        ReconfigState::RejectAllTx
    }
}

/// The state reached by moving forward to at least position `n`.
pub open spec fn advance_to(s: ReconfigState, n: nat) -> ReconfigState {
    if stage(s) >= n {
        s
    } else {
        state_at(n)
    }
}

impl ReconfigState {
    pub fn new() -> (r: ReconfigState)
        ensures
            r == ReconfigState::AcceptAll,
    {
        ReconfigState::AcceptAll
    }

    /// New user transactions may still be submitted to consensus.
    pub fn should_accept_user_certs(&self) -> (r: bool)
        ensures
            r == (stage(*self) == 0),
    {
        matches!(self, ReconfigState::AcceptAll)
    }

    /// Certificates sequenced by consensus are still processed.
    pub fn should_accept_consensus_certs(&self) -> (r: bool)
        ensures
            r == (stage(*self) <= 1),
    {
        matches!(self, ReconfigState::AcceptAll | ReconfigState::RejectUserCerts)
    }

    pub fn is_reject_all_certs(&self) -> (r: bool)
        ensures
            r == (stage(*self) == 2),
    {
        matches!(self, ReconfigState::RejectAllCerts)
    }

    pub fn is_reject_all_tx(&self) -> (r: bool)
        ensures
            r == (stage(*self) == 3),
    {
        matches!(self, ReconfigState::RejectAllTx)
    }

    /// Any transaction, system ones included, is still processed.
    pub fn should_accept_tx(&self) -> (r: bool)
        ensures
            r == (stage(*self) < 3),
    {
        !matches!(self, ReconfigState::RejectAllTx)
    }

    /// Closes admission of new user transactions (the epoch-close request).
    pub fn close_user_certs(&mut self)
        ensures
            *final(self) == advance_to(*old(self), 1),
    {
        if matches!(self, ReconfigState::AcceptAll) {
            *self = ReconfigState::RejectUserCerts;
        }
    }

    /// Stops processing consensus certificates once end-of-publish reached quorum.
    pub fn close_all_certs(&mut self)
        ensures
            *final(self) == advance_to(*old(self), 2),
    {
        if matches!(self, ReconfigState::AcceptAll | ReconfigState::RejectUserCerts) {
            *self = ReconfigState::RejectAllCerts;
        }
    }

    /// Terminal state: the epoch processes nothing more.
    pub fn close_all_tx(&mut self)
        ensures
            *final(self) == advance_to(*old(self), 3),
    {
        *self = ReconfigState::RejectAllTx;
    }
}

/// Every transition moves forward along the chain, never back, and lands at or
/// past the position it asks for.
pub proof fn lemma_advance_forward(s: ReconfigState, n: nat)
    requires
        n <= 3,
    ensures
        stage(advance_to(s, n)) >= stage(s),
        stage(advance_to(s, n)) >= n,
        stage(s) >= n ==> advance_to(s, n) == s,
{
}

} // verus!
