//! Timelocked parameter updates: the admin proposes a validated value for
//! one parameter, and it can be committed only once the timelock delay has
//! passed, only once, and touching only that parameter.

use vstd::prelude::*;
use crate::errors::SwapTradeError;
use crate::admin::require_admin;
use crate::store::KeyedList;

verus! {

/// Shortest timelock the admin may set: 24 hours, in seconds.
pub const PARAM_TIMELOCK_MIN: u64 = 86_400;
/// Timelock used when none was set: 48 hours, in seconds.
pub const PARAM_TIMELOCK_DEFAULT: u64 = 172_800;

/// The parameters governance controls.
#[derive(Clone, Copy, Debug, PartialEq, Eq, Structural)]
pub enum ParamKey {
    /// Largest swap amount.
    MaxSwapAmount,
    /// Fee in basis points.
    FeeBps,
    /// Rate-limit window in seconds.
    RateLimitWindow,
}

/// A proposed update waiting for its timelock.
#[derive(Clone, Copy, Debug, PartialEq, Eq, Structural)]
pub struct PendingParamUpdate {
    pub param: ParamKey,
    pub new_value: i128,
    pub proposed_at: u64,
    pub executable_at: u64,
    pub proposer: u64,
    pub executed: bool,
}

impl View for PendingParamUpdate {
    type V = PendingParamUpdate;

    open spec fn view(&self) -> PendingParamUpdate {
        *self
    }
}

/// The stored entries of the governance parameters.
#[derive(Clone, Copy, Debug, PartialEq, Eq, Structural)]
pub enum GovParamStorageKey {
    TimelockDelay,
    PendingUpdate(u64),
    UpdateCounter,
    ParamValue(ParamKey),
}

/// Abstract state of the governance parameters.
pub struct GovParamsView {
    pub timelock_delay: Option<u64>,
    pub counter: Option<u64>,
    pub pending: Map<u64, PendingParamUpdate>,
    pub max_swap_amount: Option<i128>,
    pub fee_bps: Option<i128>,
    pub rate_limit_window: Option<i128>,
}

impl GovParamsView {
    /// The timelock delay in force.
    pub open spec fn delay(self) -> u64 {
        match self.timelock_delay {
            Some(d) => d,
            None => PARAM_TIMELOCK_DEFAULT,
        }
    }

    /// The id the next proposal gets.
    pub open spec fn next_id(self) -> u64 {
        match self.counter {
            Some(c) => c,
            None => 0,
        }
    }

    /// The committed value of `param`.
    pub open spec fn param(self, param: ParamKey) -> Option<i128> {
        match param {
            ParamKey::MaxSwapAmount => self.max_swap_amount,
            ParamKey::FeeBps => self.fee_bps,
            ParamKey::RateLimitWindow => self.rate_limit_window,
        }
    }

    /// The state with `param` committed to `value` and nothing else changed.
    pub open spec fn with_param(self, param: ParamKey, value: i128) -> GovParamsView {
        match param {
            ParamKey::MaxSwapAmount => GovParamsView { max_swap_amount: Some(value), ..self },
            ParamKey::FeeBps => GovParamsView { fee_bps: Some(value), ..self },
            ParamKey::RateLimitWindow => GovParamsView { rate_limit_window: Some(value), ..self },
        }
    }
}

/// Whether `value` is acceptable for `param`: a max swap amount in
/// 1..=10^18, a fee in 0..=10000 bps, a window of 60 s to 7 days.
pub open spec fn param_value_valid(param: ParamKey, value: i128) -> bool {
    match param {
        ParamKey::MaxSwapAmount => 0 < value <= 1_000_000_000_000_000_000,
        ParamKey::FeeBps => 0 <= value <= 10_000,
        ParamKey::RateLimitWindow => 60 <= value <= 604_800,
    }
}

/// Why executing update `id` at `now` by `admin` is refused, if it is.
pub open spec fn spec_execute_refusal(g: GovParamsView, admin_of_record: Option<u64>, admin: u64, id: u64, now: u64) -> Option<SwapTradeError> {
    if admin_of_record != Some(admin) {
        Some(SwapTradeError::NotAdmin)
    } else if !g.pending.contains_key(id) {
        Some(SwapTradeError::KYCOverrideNotFound)
    } else if g.pending[id].executed {
        Some(SwapTradeError::KYCOverrideAlreadyExecuted)
    } else if now < g.pending[id].executable_at {
        Some(SwapTradeError::KYCTimelockNotElapsed)
    } else {
        None
    }
}

/// State after update `id` is executed: its parameter is committed and the
/// update is marked executed.
pub open spec fn spec_execute(g: GovParamsView, id: u64) -> GovParamsView {
    let u = g.pending[id];
    GovParamsView {
        pending: g.pending.insert(id, PendingParamUpdate { executed: true, ..u }),
        ..g.with_param(u.param, u.new_value)
    }
}

/// The governance parameters' stored state.
pub struct GovernanceParams {
    timelock_delay: Option<u64>,
    counter: Option<u64>,
    pending: KeyedList<u64, PendingParamUpdate>,
    max_swap_amount: Option<i128>,
    fee_bps: Option<i128>,
    rate_limit_window: Option<i128>,
}

impl View for GovernanceParams {
    type V = GovParamsView;

    closed spec fn view(&self) -> GovParamsView {
        GovParamsView {
            timelock_delay: self.timelock_delay,
            counter: self.counter,
            pending: self.pending@,
            max_swap_amount: self.max_swap_amount,
            fee_bps: self.fee_bps,
            rate_limit_window: self.rate_limit_window,
        }
    }
}

impl GovernanceParams {
    /// Parameters with nothing stored.
    pub fn new() -> (g: GovernanceParams)
        ensures
            g@.timelock_delay is None,
            g@.counter is None,
            g@.pending.is_empty(),
            g@.max_swap_amount is None,
            g@.fee_bps is None,
            g@.rate_limit_window is None,
    {
        GovernanceParams {
            timelock_delay: None,
            counter: None,
            pending: KeyedList::new(),
            max_swap_amount: None,
            fee_bps: None,
            rate_limit_window: None,
        }
    }

    /// Whether a value is stored under `key`.
    pub fn is_set(&self, key: GovParamStorageKey) -> (r: bool)
        ensures
            key == GovParamStorageKey::TimelockDelay ==> r == self@.timelock_delay is Some,
            key == GovParamStorageKey::UpdateCounter ==> r == self@.counter is Some,
            forall|id: u64| key == GovParamStorageKey::PendingUpdate(id) ==> r == self@.pending.contains_key(id),
            forall|p: ParamKey| key == GovParamStorageKey::ParamValue(p) ==> r == self@.param(p) is Some,
    {
        match key {
            GovParamStorageKey::TimelockDelay => self.timelock_delay.is_some(),
            GovParamStorageKey::UpdateCounter => self.counter.is_some(),
            GovParamStorageKey::PendingUpdate(id) => self.pending.contains_key(&id),
            GovParamStorageKey::ParamValue(p) => self.get_param(p).is_some(),
        }
    }

    /// Set the timelock delay; only the admin may, and not below 24 hours.
    pub fn set_timelock_delay(&mut self, admin_of_record: Option<u64>, admin: u64, delay: u64) -> (r: Result<(), SwapTradeError>)
        ensures
            admin_of_record != Some(admin) ==> r == Err::<(), SwapTradeError>(SwapTradeError::NotAdmin) && final(self)@ == old(self)@,
            admin_of_record == Some(admin) && delay < PARAM_TIMELOCK_MIN ==> r == Err::<(), SwapTradeError>(SwapTradeError::InvalidTimelockDuration)
                && final(self)@ == old(self)@,
            admin_of_record == Some(admin) && delay >= PARAM_TIMELOCK_MIN ==> r is Ok
                && final(self)@ == (GovParamsView { timelock_delay: Some(delay), ..old(self)@ }),
    {
        match require_admin(admin_of_record, admin) {
            Err(e) => {
                return Err(e);
            },
            Ok(()) => {},
        }
        if delay < PARAM_TIMELOCK_MIN {
            return Err(SwapTradeError::InvalidTimelockDuration);
        }
        self.timelock_delay = Some(delay);
        Ok(())
    }

    /// The timelock delay in force (48 hours by default).
    pub fn get_timelock_delay(&self) -> (d: u64)
        ensures
            d == self@.delay(),
    {
        match self.timelock_delay {
            Some(d) => d,
            None => PARAM_TIMELOCK_DEFAULT,
        }
    }

    /// Queue `new_value` for `param` at time `now`; only the admin may, and
    /// only a valid value. Returns the update id. The update becomes
    /// executable after the timelock delay; the id counter and that instant
    /// must not overflow.
    pub fn propose_update(&mut self, admin_of_record: Option<u64>, admin: u64, param: ParamKey, new_value: i128, now: u64)
        -> (r: Result<u64, SwapTradeError>)
        requires
            now + old(self)@.delay() <= u64::MAX,
            old(self)@.next_id() < u64::MAX,
        ensures
            admin_of_record != Some(admin) ==> r == Err::<u64, SwapTradeError>(SwapTradeError::NotAdmin) && final(self)@ == old(self)@,
            admin_of_record == Some(admin) && !param_value_valid(param, new_value) ==> r == Err::<u64, SwapTradeError>(SwapTradeError::InvalidAmount)
                && final(self)@ == old(self)@,
            admin_of_record == Some(admin) && param_value_valid(param, new_value) ==> {
                let id = old(self)@.next_id();
                &&& r == Ok::<u64, SwapTradeError>(id)
                &&& final(self)@ == (GovParamsView {
                    pending: old(self)@.pending.insert(id, PendingParamUpdate {
                        param,
                        new_value,
                        proposed_at: now,
                        executable_at: (now + old(self)@.delay()) as u64,
                        proposer: admin,
                        executed: false,
                    }),
                    counter: Some((id + 1) as u64),
                    ..old(self)@
                })
            },
    {
        match require_admin(admin_of_record, admin) {
            Err(e) => {
                return Err(e);
            },
            Ok(()) => {},
        }
        match Self::validate_param_value(&param, new_value) {
            Err(e) => {
                return Err(e);
            },
            Ok(()) => {},
        }
        let delay = self.get_timelock_delay();
        let id: u64 = match self.counter {
            Some(c) => c,
            None => 0,
        };
        let update = PendingParamUpdate {
            param,
            new_value,
            proposed_at: now,
            executable_at: now + delay,
            proposer: admin,
            executed: false,
        };
        self.pending.set(id, update);
        self.counter = Some(id + 1);
        Ok(id)
    }

    /// Commit update `update_id` at time `now`; only the admin may, only once,
    /// and not before its timelock elapsed. Only the targeted parameter
    /// changes.
    pub fn execute_update(&mut self, admin_of_record: Option<u64>, admin: u64, update_id: u64, now: u64)
        -> (r: Result<(), SwapTradeError>)
        ensures
            match spec_execute_refusal(old(self)@, admin_of_record, admin, update_id, now) {
                Some(e) => r == Err::<(), SwapTradeError>(e) && final(self)@ == old(self)@,
                None => r is Ok && final(self)@ == spec_execute(old(self)@, update_id),
            },
    {
        match require_admin(admin_of_record, admin) {
            Err(e) => {
                return Err(e);
            },
            Ok(()) => {},
        }
        let mut update: PendingParamUpdate = match self.pending.get(&update_id) {
            Some(u) => *u,
            None => {
                return Err(SwapTradeError::KYCOverrideNotFound);
            },
        };
        if update.executed {
            return Err(SwapTradeError::KYCOverrideAlreadyExecuted);
        }
        if now < update.executable_at {
            return Err(SwapTradeError::KYCTimelockNotElapsed);
        }
        match update.param {
            ParamKey::MaxSwapAmount => {
                self.max_swap_amount = Some(update.new_value);
            },
            ParamKey::FeeBps => {
                self.fee_bps = Some(update.new_value);
            },
            ParamKey::RateLimitWindow => {
                self.rate_limit_window = Some(update.new_value);
            },
        }
        update.executed = true;
        self.pending.set(update_id, update);
        Ok(())
    }

    /// The committed value of `param`, if any.
    pub fn get_param(&self, param: ParamKey) -> (r: Option<i128>)
        ensures
            r == self@.param(param),
    {
        match param {
            ParamKey::MaxSwapAmount => self.max_swap_amount,
            ParamKey::FeeBps => self.fee_bps,
            ParamKey::RateLimitWindow => self.rate_limit_window,
        }
    }

    /// The update `update_id`, if it was proposed.
    pub fn get_pending_update(&self, update_id: u64) -> (r: Option<PendingParamUpdate>)
        ensures
            match r {
                Some(u) => self@.pending.contains_key(update_id) && u == self@.pending[update_id],
                None => !self@.pending.contains_key(update_id),
            },
    {
        match self.pending.get(&update_id) {
            Some(u) => Some(*u),
            None => None,
        }
    }

    /// `Ok` when `value` is acceptable for `param`, else `InvalidAmount`.
    pub fn validate_param_value(param: &ParamKey, value: i128) -> (r: Result<(), SwapTradeError>)
        ensures
            param_value_valid(*param, value) ==> r is Ok,
            !param_value_valid(*param, value) ==> r == Err::<(), SwapTradeError>(SwapTradeError::InvalidAmount),
    {
        match param {
            ParamKey::MaxSwapAmount => {
                if value <= 0 || value > 1_000_000_000_000_000_000 {
                    return Err(SwapTradeError::InvalidAmount);
                }
            },
            ParamKey::FeeBps => {
                if value < 0 || value > 10_000 {
                    return Err(SwapTradeError::InvalidAmount);
                }
            },
            ParamKey::RateLimitWindow => {
                if value < 60 || value > 604_800 {
                    return Err(SwapTradeError::InvalidAmount);
                }
            },
        }
        Ok(())
    }
}

/// Executing an update touches only its parameter: every other parameter
/// keeps its committed value, and the delay and counter are unchanged.
pub proof fn lemma_execute_touches_only_target(g: GovParamsView, id: u64, other: ParamKey)
    requires
        g.pending.contains_key(id),
        other != g.pending[id].param,
    ensures
        spec_execute(g, id).param(other) == g.param(other),
        spec_execute(g, id).param(g.pending[id].param) == Some(g.pending[id].new_value),
        spec_execute(g, id).timelock_delay == g.timelock_delay,
        spec_execute(g, id).counter == g.counter,
{
}

/// An executed update cannot run again, and no update runs before its
/// timelock elapses.
pub proof fn lemma_execute_once_after_timelock(g: GovParamsView, admin_of_record: Option<u64>, admin: u64, id: u64, now: u64, later: u64)
    requires
        spec_execute_refusal(g, admin_of_record, admin, id, now) is None,
    ensures
        spec_execute_refusal(spec_execute(g, id), admin_of_record, admin, id, later)
            == Some(SwapTradeError::KYCOverrideAlreadyExecuted),
        now >= g.pending[id].executable_at,
{
}

/// A proposal made at `now` cannot run before `now` plus the delay.
pub proof fn lemma_no_early_execution(g: GovParamsView, admin_of_record: Option<u64>, admin: u64, id: u64, now: u64)
    requires
        admin_of_record == Some(admin),
        g.pending.contains_key(id),
        !g.pending[id].executed,
        now < g.pending[id].executable_at,
    ensures
        spec_execute_refusal(g, admin_of_record, admin, id, now) == Some(SwapTradeError::KYCTimelockNotElapsed),
{
}

} // verus!
