//! Stored estimates used to preview a governance proposal: its impact
//! score, its simulated effect and the historical approval of similar
//! proposals, each looked up by proposal id with a default when none was
//! stored.

use vstd::prelude::*;
use crate::store::KeyedList;
use crate::portfolio::get_or;

verus! {

/// Impact score assumed for a proposal with no stored estimate.
pub const DEFAULT_IMPACT: i32 = 50;

/// The impact score (0..=100 by convention) stored for `proposal_id`, or
/// 50 when none was stored.
pub fn analyze_impact(impacts: &KeyedList<String, i32>, proposal_id: &String) -> (r: i32)
    ensures
        r == get_or(impacts@, proposal_id@, DEFAULT_IMPACT),
{
    match impacts.get(proposal_id) {
        Some(v) => *v,
        None => DEFAULT_IMPACT,
    }
}

/// The simulated effect stored for `proposal_id`, or 0.
pub fn simulate(effects: &KeyedList<String, i32>, proposal_id: &String) -> (r: i32)
    ensures
        r == get_or(effects@, proposal_id@, 0i32),
{
    match effects.get(proposal_id) {
        Some(v) => *v,
        None => 0,
    }
}

/// The historical approval percentage stored for `proposal_id`, or 0.
pub fn get_outcome(history: &KeyedList<String, i32>, proposal_id: &String) -> (r: i32)
    ensures
        r == get_or(history@, proposal_id@, 0i32),
{
    match history.get(proposal_id) {
        Some(v) => *v,
        None => 0,
    }
}

} // verus!
