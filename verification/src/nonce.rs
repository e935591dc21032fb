//! Replay protection: each signed request carries a per-user nonce, and a
//! nonce that was used once is refused forever after.

use vstd::prelude::*;
use crate::errors::SwapTradeError;
use crate::store::KeyedList;

verus! {

/// The nonces each user has used.
pub struct NonceGuard {
    used: KeyedList<(u64, u64), bool>,
}

impl View for NonceGuard {
    type V = Set<(u64, u64)>;

    closed spec fn view(&self) -> Set<(u64, u64)> {
        self.used@.dom()
    }
}

impl NonceGuard {
    /// A guard that has seen no nonce.
    pub fn new() -> (g: NonceGuard)
        ensures
            g@ == Set::<(u64, u64)>::empty(),
    {
        NonceGuard { used: KeyedList::new() }
    }

    /// Consume `nonce` for `user`: accepted the first time, refused with
    /// `RateLimitExceeded` ever after.
    pub fn consume(&mut self, user: u64, nonce: u64) -> (r: Result<(), SwapTradeError>)
        ensures
            old(self)@.contains((user, nonce)) ==> r == Err::<(), SwapTradeError>(SwapTradeError::RateLimitExceeded)
                && final(self)@ == old(self)@,
            !old(self)@.contains((user, nonce)) ==> r is Ok && final(self)@ == old(self)@.insert((user, nonce)),
    {
        if self.used.contains_key(&(user, nonce)) {
            return Err(SwapTradeError::RateLimitExceeded);
        }
        self.used.set((user, nonce), true);
        proof {
            assert(self@ =~= old(self)@.insert((user, nonce)));
        }
        Ok(())
    }

    /// Whether `user` has used `nonce`.
    pub fn is_used(&self, user: u64, nonce: u64) -> (r: bool)
        ensures
            r == self@.contains((user, nonce)),
    {
        self.used.contains_key(&(user, nonce))
    }
}

/// A replayed nonce is refused: once `(user, nonce)` was consumed, the
/// guard holds it, and consumption only ever adds.
pub proof fn lemma_replay_refused(used: Set<(u64, u64)>, user: u64, nonce: u64, other_user: u64, other_nonce: u64)
    ensures
        used.insert((user, nonce)).contains((user, nonce)),
        used.contains((other_user, other_nonce)) ==> used.insert((user, nonce)).contains((other_user, other_nonce)),
        other_user != user && !used.contains((other_user, nonce)) ==> !used.insert((user, nonce)).contains((other_user, nonce)),
{
}

} // verus!
