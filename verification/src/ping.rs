//! A liveness probe contract.

use vstd::prelude::*;

verus! {

/// The probe contract.
pub struct PingContract;

impl PingContract {
    /// Answers `pong`.
    pub fn ping() -> (s: String)
        ensures
            s@ == seq!['p', 'o', 'n', 'g'],
    {
        proof {
            reveal_strlit("pong");
        }
        String::from_str("pong")
    }
}

} // verus!
