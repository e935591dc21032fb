//! On-chain governance: holders of voting power open proposals for a
//! bounded voting period, vote once each, and a proposal that met its
//! quorum and approval threshold is executed once its execution delay has
//! passed, applying a parameter change, an admin change or an emergency
//! pause to the governed settings.

use vstd::prelude::*;
use crate::errors::SwapTradeError;
use crate::store::{KeyedList, Dup};
use crate::portfolio::get_or;

verus! {

/// The settings a proposal can change.
#[derive(Clone, Copy, Debug, PartialEq, Eq, Structural)]
pub enum GovernanceParamKey {
    MaxSwapAmount,
    FeeBps,
    RateLimitWindow,
    MaxSlippageBps,
    EmergencyPause,
    RiskConfigMaxPosition,
    RiskConfigConcentrationLimit,
    GovernanceQuorumThreshold,
    GovernanceApprovalThreshold,
}

/// What a proposal does when executed.
#[derive(Clone, Copy, Debug, PartialEq, Eq, Structural)]
pub enum ProposalType {
    ParameterChange { param_key: GovernanceParamKey, new_value: i128 },
    AdminUpgrade { new_admin: u64 },
    EmergencyAction { pause: bool },
    /// Executed by hand; executing it changes no setting.
    Custom {},
}

/// Where a proposal stands.
#[derive(Clone, Copy, Debug, PartialEq, Eq, Structural)]
pub enum ProposalStatus {
    Active,
    Passed,
    Rejected,
    Executed,
    Cancelled,
}

/// A voter's choice.
#[derive(Clone, Copy, Debug, PartialEq, Eq, Structural)]
pub enum VoteOption {
    For,
    Against,
    Abstain,
}

/// A cast vote.
#[derive(Clone, Copy, Debug, PartialEq, Eq, Structural)]
pub struct Vote {
    pub voter: u64,
    pub option: VoteOption,
    pub voting_power: u128,
    pub timestamp: u64,
}

/// Governance rules. Thresholds are in basis points.
#[derive(Clone, Copy, Debug, PartialEq, Eq, Structural)]
pub struct GovernanceConfig {
    pub min_voting_period: u64,
    pub max_voting_period: u64,
    pub proposal_cooldown: u64,
    pub quorum_threshold: u32,
    pub approval_threshold: u32,
    pub execution_delay: u64,
}

/// The platform settings governance can change; `None` until first set.
#[derive(Clone, Copy, Debug, PartialEq, Eq, Structural)]
pub struct GovernedSettings {
    pub admin: Option<u64>,
    pub max_swap_amount: Option<i128>,
    pub fee_bps: Option<u32>,
    pub rate_limit_window: Option<i128>,
    pub max_slippage_bps: Option<u32>,
    pub paused: Option<bool>,
    pub max_position_per_user: Option<i128>,
    pub concentration_limit_threshold: Option<u32>,
}

/// A governance proposal.
pub struct Proposal {
    pub id: u64,
    pub proposer: u64,
    pub proposal_type: ProposalType,
    pub description: String,
    pub start_time: u64,
    pub end_time: u64,
    pub execution_time: Option<u64>,
    pub status: ProposalStatus,
    pub votes_for: u128,
    pub votes_against: u128,
    pub votes_abstain: u128,
    pub total_voting_power: u128,
    pub quorum_required: u128,
    pub approval_threshold: u32,
    pub executed: bool,
}

/// Abstract value of a proposal.
pub struct ProposalView {
    pub id: u64,
    pub proposer: u64,
    pub proposal_type: ProposalType,
    pub description: Seq<char>,
    pub start_time: u64,
    pub end_time: u64,
    pub execution_time: Option<u64>,
    pub status: ProposalStatus,
    pub votes_for: u128,
    pub votes_against: u128,
    pub votes_abstain: u128,
    pub total_voting_power: u128,
    pub quorum_required: u128,
    pub approval_threshold: u32,
    pub executed: bool,
}

impl View for Proposal {
    type V = ProposalView;

    open spec fn view(&self) -> ProposalView {
        ProposalView {
            id: self.id,
            proposer: self.proposer,
            proposal_type: self.proposal_type,
            description: self.description@,
            start_time: self.start_time,
            end_time: self.end_time,
            execution_time: self.execution_time,
            status: self.status,
            votes_for: self.votes_for,
            votes_against: self.votes_against,
            votes_abstain: self.votes_abstain,
            total_voting_power: self.total_voting_power,
            quorum_required: self.quorum_required,
            approval_threshold: self.approval_threshold,
            executed: self.executed,
        }
    }
}

impl Dup for Proposal {
    fn dup(&self) -> (r: Self) {
        Proposal {
            id: self.id,
            proposer: self.proposer,
            proposal_type: self.proposal_type,
            description: self.description.clone(),
            start_time: self.start_time,
            end_time: self.end_time,
            execution_time: self.execution_time,
            status: self.status,
            votes_for: self.votes_for,
            votes_against: self.votes_against,
            votes_abstain: self.votes_abstain,
            total_voting_power: self.total_voting_power,
            quorum_required: self.quorum_required,
            approval_threshold: self.approval_threshold,
            executed: self.executed,
        }
    }
}

impl View for Vote {
    type V = Vote;

    open spec fn view(&self) -> Vote {
        *self
    }
}

/// The rules in force when none were set: every field zero.
pub open spec fn default_config() -> GovernanceConfig {
    GovernanceConfig {
        min_voting_period: 0,
        max_voting_period: 0,
        proposal_cooldown: 0,
        quorum_threshold: 0,
        approval_threshold: 0,
        execution_delay: 0,
    }
}

/// Whether a configuration is acceptable: a positive minimum voting period
/// no longer than the maximum, and thresholds of at most 100%.
pub open spec fn config_valid(c: GovernanceConfig) -> bool {
    c.min_voting_period != 0 && c.max_voting_period >= c.min_voting_period
        && c.quorum_threshold <= 10000 && c.approval_threshold <= 10000
}

/// Abstract state of the governance system.
pub struct GovernanceView {
    pub proposals: Map<u64, ProposalView>,
    pub votes: Map<u64, Seq<Vote>>,
    pub last_proposal: Map<u64, u64>,
    pub next_id: Option<u64>,
    pub config: Option<GovernanceConfig>,
    pub settings: GovernedSettings,
}

impl GovernanceView {
    /// The rules in force.
    pub open spec fn cfg(self) -> GovernanceConfig {
        match self.config {
            Some(c) => c,
            None => default_config(),
        }
    }

    /// The id the next proposal gets (proposals count from 1).
    pub open spec fn upcoming_id(self) -> u64 {
        match self.next_id {
            Some(n) => n,
            None => 1,
        }
    }

    /// When `proposer` last opened a proposal (0 if never).
    pub open spec fn last_proposal_of(self, proposer: u64) -> u64 {
        get_or(self.last_proposal, proposer, 0u64)
    }

    /// The votes cast on proposal `id`.
    pub open spec fn votes_on(self, id: u64) -> Seq<Vote> {
        get_or(self.votes, id, Seq::empty())
    }

    /// Whether `voter` has voted on proposal `id`.
    pub open spec fn has_voted(self, id: u64, voter: u64) -> bool {
        exists|i: int| 0 <= i < self.votes_on(id).len() && #[trigger] self.votes_on(id)[i].voter == voter
    }
}

/// The proposal opened by `proposer` at `now`.
pub open spec fn new_proposal(
    g: GovernanceView,
    proposer: u64,
    proposal_type: ProposalType,
    description: Seq<char>,
    voting_period: u64,
    now: u64,
    total_voting_power: u128,
) -> ProposalView {
    let c = g.cfg();
    ProposalView {
        id: g.upcoming_id(),
        proposer,
        proposal_type,
        description,
        start_time: now,
        end_time: (now + voting_period) as u64,
        execution_time: None,
        status: ProposalStatus::Active,
        votes_for: 0,
        votes_against: 0,
        votes_abstain: 0,
        total_voting_power,
        quorum_required: ((c.quorum_threshold * total_voting_power) / 10000) as u128,
        approval_threshold: c.approval_threshold,
        executed: false,
    }
}

/// The state after `proposer` opened a proposal at `now`: it is stored
/// under the upcoming id, the id after it becomes the upcoming one, and the
/// proposer's last proposal time is `now`.
pub open spec fn created(
    g: GovernanceView,
    proposer: u64,
    proposal_type: ProposalType,
    description: Seq<char>,
    voting_period: u64,
    now: u64,
    total_voting_power: u128,
) -> GovernanceView {
    let id = g.upcoming_id();
    GovernanceView {
        proposals: g.proposals.insert(id, new_proposal(g, proposer, proposal_type, description, voting_period, now, total_voting_power)),
        next_id: Some((id + 1) as u64),
        last_proposal: g.last_proposal.insert(proposer, now),
        ..g
    }
}

/// Every stored proposal has an id below the upcoming one.
pub open spec fn ids_below_upcoming(g: GovernanceView) -> bool {
    forall|k: u64| #[trigger] g.proposals.contains_key(k) ==> k < g.upcoming_id()
}

/// The governance state is well formed: every stored proposal sits under
/// its own id, below the upcoming id, and ids count from 1. A new system is
/// well formed and every operation keeps it so.
pub open spec fn gov_wf(g: GovernanceView) -> bool {
    &&& ids_below_upcoming(g)
    &&& g.upcoming_id() >= 1
    &&& forall|k: u64| #[trigger] g.proposals.contains_key(k) ==> g.proposals[k].id == k
}

/// Why `proposer` may not open a proposal at `now`, if they may not.
pub open spec fn spec_create_refusal(g: GovernanceView, proposer: u64, voting_period: u64, now: u64, voting_power: u128) -> Option<SwapTradeError> {
    let c = g.cfg();
    if voting_period < c.min_voting_period || voting_period > c.max_voting_period {
        Some(SwapTradeError::InvalidAmount)
    } else if now - g.last_proposal_of(proposer) < c.proposal_cooldown {
        Some(SwapTradeError::RateLimitExceeded)
    } else if voting_power == 0 {
        Some(SwapTradeError::InvalidAmount)
    } else {
        None
    }
}

/// The state after `voter` cast `option` with `power` on proposal `id` at
/// `now`: the vote is recorded and the option's tally grows by the power.
pub open spec fn voted(g: GovernanceView, voter: u64, id: u64, option: VoteOption, now: u64, power: u128) -> GovernanceView {
    GovernanceView {
        votes: g.votes.insert(id, g.votes_on(id).push(Vote { voter, option, voting_power: power, timestamp: now })),
        proposals: g.proposals.insert(id, tallied(g.proposals[id], option, power)),
        ..g
    }
}

/// Why `voter` may not vote on proposal `id` at `now`, if they may not.
pub open spec fn spec_vote_refusal(g: GovernanceView, voter: u64, id: u64, now: u64, voting_power: u128) -> Option<SwapTradeError> {
    if !g.proposals.contains_key(id) {
        Some(SwapTradeError::InvalidAmount)
    } else if g.proposals[id].status != ProposalStatus::Active {
        Some(SwapTradeError::InvalidAmount)
    } else if now < g.proposals[id].start_time || now > g.proposals[id].end_time {
        Some(SwapTradeError::InvalidAmount)
    } else if g.has_voted(id, voter) {
        Some(SwapTradeError::InvalidAmount)
    } else if voting_power == 0 {
        Some(SwapTradeError::InvalidAmount)
    } else {
        None
    }
}

/// `p` with `power` more votes for `option`.
pub open spec fn tallied(p: ProposalView, option: VoteOption, power: u128) -> ProposalView {
    match option {
        VoteOption::For => ProposalView { votes_for: (p.votes_for + power) as u128, ..p },
        VoteOption::Against => ProposalView { votes_against: (p.votes_against + power) as u128, ..p },
        VoteOption::Abstain => ProposalView { votes_abstain: (p.votes_abstain + power) as u128, ..p },
    }
}

/// The tally of `option` in `p`.
pub open spec fn tally_of(p: ProposalView, option: VoteOption) -> u128 {
    match option {
        VoteOption::For => p.votes_for,
        VoteOption::Against => p.votes_against,
        VoteOption::Abstain => p.votes_abstain,
    }
}

/// The outcome of the vote on `p` at `now`: rejected below quorum (for and
/// against votes together) or below the approval rate; otherwise passed and
/// executable after `delay`.
pub open spec fn finalized(p: ProposalView, now: u64, delay: u64) -> ProposalView {
    let total = p.votes_for + p.votes_against;
    if total < p.quorum_required {
        ProposalView { status: ProposalStatus::Rejected, ..p }
    } else {
        let rate = if total > 0 { (p.votes_for * 10000) / total } else { 0 };
        if rate >= p.approval_threshold {
            ProposalView { status: ProposalStatus::Passed, execution_time: Some((now + delay) as u64), ..p }
        } else {
            ProposalView { status: ProposalStatus::Rejected, ..p }
        }
    }
}

/// The arithmetic of finalizing `p` at `now` fits its integer types.
pub open spec fn finalize_fits(p: ProposalView, now: u64, delay: u64) -> bool {
    p.votes_for + p.votes_against <= u128::MAX && p.votes_for * 10000 <= u128::MAX && now + delay <= u64::MAX
}

/// The governed settings and rules after executing a proposal of type `t`,
/// or why execution fails.
pub open spec fn spec_apply(g: GovernanceView, t: ProposalType) -> Result<(GovernedSettings, Option<GovernanceConfig>), SwapTradeError> {
    let s = g.settings;
    match t {
        ProposalType::ParameterChange { param_key, new_value } => match param_key {
            GovernanceParamKey::MaxSwapAmount => Ok((GovernedSettings { max_swap_amount: Some(new_value), ..s }, g.config)),
            GovernanceParamKey::FeeBps => Ok((GovernedSettings { fee_bps: Some(new_value as u32), ..s }, g.config)),
            GovernanceParamKey::RateLimitWindow => Ok((GovernedSettings { rate_limit_window: Some(new_value), ..s }, g.config)),
            GovernanceParamKey::MaxSlippageBps => Ok((GovernedSettings { max_slippage_bps: Some(new_value as u32), ..s }, g.config)),
            GovernanceParamKey::EmergencyPause => Ok((GovernedSettings { paused: Some(new_value != 0), ..s }, g.config)),
            GovernanceParamKey::RiskConfigMaxPosition => Ok((GovernedSettings { max_position_per_user: Some(new_value), ..s }, g.config)),
            GovernanceParamKey::RiskConfigConcentrationLimit => Ok((GovernedSettings { concentration_limit_threshold: Some(new_value as u32), ..s }, g.config)),
            GovernanceParamKey::GovernanceQuorumThreshold => {
                let c = GovernanceConfig { quorum_threshold: new_value as u32, ..g.cfg() };
                if s.admin is None {
                    Err(SwapTradeError::NotAdmin)
                } else if !config_valid(c) {
                    Err(SwapTradeError::InvalidAmount)
                } else {
                    Ok((s, Some(c)))
                }
            },
            GovernanceParamKey::GovernanceApprovalThreshold => {
                let c = GovernanceConfig { approval_threshold: new_value as u32, ..g.cfg() };
                if s.admin is None {
                    Err(SwapTradeError::NotAdmin)
                } else if !config_valid(c) {
                    Err(SwapTradeError::InvalidAmount)
                } else {
                    Ok((s, Some(c)))
                }
            },
        },
        ProposalType::AdminUpgrade { new_admin } => Ok((GovernedSettings { admin: Some(new_admin), ..s }, g.config)),
        ProposalType::EmergencyAction { pause } => Ok((GovernedSettings { paused: Some(pause), ..s }, g.config)),
        ProposalType::Custom {} => Ok((s, g.config)),
    }
}

/// The proposal `p` as the execution step reads it at `now`: an active
/// proposal whose vote is over is finalized (its outcome decided and, when
/// passed, its execution time set to `now` plus `delay`); a passed one keeps
/// the execution time it was given.
pub open spec fn settled(p: ProposalView, now: u64, delay: u64) -> ProposalView {
    if p.status == ProposalStatus::Active { finalized(p, now, delay) } else { p }
}

/// Executing proposal `id` at `now`: the new state and the result. A
/// proposal must exist, be active or passed, not executed, and its vote must
/// be over; otherwise nothing changes. It runs when it passed and its
/// execution time has come, and is then marked executed. A passed proposal
/// whose execution time is still ahead is stored as passed, with that time,
/// so a later call executes it. A proposal that did not pass, or whose
/// action is refused, leaves the state unchanged.
pub open spec fn spec_execute(g: GovernanceView, id: u64, now: u64) -> (GovernanceView, Result<(), SwapTradeError>) {
    if !g.proposals.contains_key(id) {
        (g, Err(SwapTradeError::InvalidAmount))
    } else {
        let p = g.proposals[id];
        if p.status != ProposalStatus::Active && p.status != ProposalStatus::Passed {
            (g, Err(SwapTradeError::InvalidAmount))
        } else if p.executed {
            (g, Err(SwapTradeError::InvalidAmount))
        } else if now < p.end_time {
            (g, Err(SwapTradeError::InvalidAmount))
        } else {
            let f = settled(p, now, g.cfg().execution_delay);
            let g1 = GovernanceView { proposals: g.proposals.insert(id, f), ..g };
            if f.status != ProposalStatus::Passed {
                (g, Err(SwapTradeError::InvalidAmount))
            } else if f.execution_time is None || now < f.execution_time.unwrap() {
                (g1, Err(SwapTradeError::InvalidAmount))
            } else {
                match spec_apply(g, p.proposal_type) {
                    Err(e) => (g, Err(e)),
                    Ok((st, c)) => (GovernanceView {
                        proposals: g.proposals.insert(id, ProposalView { executed: true, status: ProposalStatus::Executed, ..f }),
                        settings: st,
                        config: c,
                        ..g
                    }, Ok(())),
                }
            }
        }
    }
}

/// The governance system's stored state.
pub struct GovernanceSystem {
    proposals: KeyedList<u64, Proposal>,
    votes: KeyedList<u64, Vec<Vote>>,
    last_proposal: KeyedList<u64, u64>,
    next_id: Option<u64>,
    config: Option<GovernanceConfig>,
    settings: GovernedSettings,
}

impl View for GovernanceSystem {
    type V = GovernanceView;

    closed spec fn view(&self) -> GovernanceView {
        GovernanceView {
            proposals: self.proposals@,
            votes: self.votes@,
            last_proposal: self.last_proposal@,
            next_id: self.next_id,
            config: self.config,
            settings: self.settings,
        }
    }
}

impl Dup for Vec<Vote> {
    fn dup(&self) -> (r: Self) {
        let mut out: Vec<Vote> = Vec::new();
        let mut i: usize = 0;
        while i < self.len()
            invariant
                0 <= i <= self.len(),
                out@ == self@.subrange(0, i as int),
            decreases self.len() - i,
        {
            out.push(self[i]);
            i = i + 1;
            proof {
                assert(out@ =~= self@.subrange(0, i as int));
            }
        }
        proof {
            assert(self@.subrange(0, self@.len() as int) =~= self@);
        }
        out
    }
}

impl GovernanceSystem {
    /// A governance system with no proposals, default rules and the given
    /// admin of record.
    pub fn new(admin: Option<u64>) -> (g: GovernanceSystem)
        ensures
            g@.proposals.is_empty(),
            g@.votes.is_empty(),
            g@.last_proposal.is_empty(),
            g@.next_id is None,
            g@.config is None,
            gov_wf(g@),
            g@.settings == (GovernedSettings {
                admin,
                max_swap_amount: None,
                fee_bps: None,
                rate_limit_window: None,
                max_slippage_bps: None,
                paused: None,
                max_position_per_user: None,
                concentration_limit_threshold: None,
            }),
    {
        GovernanceSystem {
            proposals: KeyedList::new(),
            votes: KeyedList::new(),
            last_proposal: KeyedList::new(),
            next_id: None,
            config: None,
            settings: GovernedSettings {
                admin,
                max_swap_amount: None,
                fee_bps: None,
                rate_limit_window: None,
                max_slippage_bps: None,
                paused: None,
                max_position_per_user: None,
                concentration_limit_threshold: None,
            },
        }
    }

    /// The governed settings.
    pub fn get_settings(&self) -> (s: GovernedSettings)
        ensures
            s == self@.settings,
    {
        self.settings
    }

    /// The rules in force (all zero until set).
    pub fn get_config(&self) -> (c: GovernanceConfig)
        ensures
            c == self@.cfg(),
    {
        match self.config {
            Some(c) => c,
            None => GovernanceConfig {
                min_voting_period: 0,
                max_voting_period: 0,
                proposal_cooldown: 0,
                quorum_threshold: 0,
                approval_threshold: 0,
                execution_delay: 0,
            },
        }
    }

    /// Replace the rules; only the admin may, and only with valid rules.
    pub fn set_config(&mut self, admin: u64, config: &GovernanceConfig) -> (r: Result<(), SwapTradeError>)
        ensures
            old(self)@.settings.admin != Some(admin) ==> r == Err::<(), SwapTradeError>(SwapTradeError::NotAdmin)
                && final(self)@ == old(self)@,
            old(self)@.settings.admin == Some(admin) && !config_valid(*config) ==> r == Err::<(), SwapTradeError>(SwapTradeError::InvalidAmount)
                && final(self)@ == old(self)@,
            old(self)@.settings.admin == Some(admin) && config_valid(*config) ==> r is Ok
                && final(self)@ == (GovernanceView { config: Some(*config), ..old(self)@ }),
            gov_wf(old(self)@) ==> gov_wf(final(self)@),
    {
        match crate::admin::require_admin(self.settings.admin, admin) {
            Err(e) => {
                return Err(e);
            },
            Ok(()) => {},
        }
        if config.min_voting_period == 0 || config.max_voting_period < config.min_voting_period {
            return Err(SwapTradeError::InvalidAmount);
        }
        if config.quorum_threshold > 10000 || config.approval_threshold > 10000 {
            return Err(SwapTradeError::InvalidAmount);
        }
        self.config = Some(*config);
        Ok(())
    }

    /// The proposal `id`, or `InvalidAmount` when there is none.
    pub fn get_proposal(&self, proposal_id: u64) -> (r: Result<Proposal, SwapTradeError>)
        ensures
            self@.proposals.contains_key(proposal_id) ==> r is Ok && r.unwrap()@ == self@.proposals[proposal_id],
            !self@.proposals.contains_key(proposal_id) ==> r == Err::<Proposal, SwapTradeError>(SwapTradeError::InvalidAmount),
    {
        match self.proposals.get(&proposal_id) {
            Some(p) => Ok(p.dup()),
            None => Err(SwapTradeError::InvalidAmount),
        }
    }

    /// The votes cast on proposal `id`, in casting order.
    pub fn get_proposal_votes(&self, proposal_id: u64) -> (r: Vec<Vote>)
        ensures
            r@ == self@.votes_on(proposal_id),
    {
        match self.votes.get(&proposal_id) {
            Some(v) => v.dup(),
            None => Vec::new(),
        }
    }

    /// Open a proposal by `proposer` at `now`, holding `voting_power` out of
    /// `total_voting_power`: the voting period must be within the rules'
    /// bounds, the proposer's cooldown must have passed, and they must hold
    /// voting power. Returns the new proposal's id. Time must not run
    /// backwards, and the ids, the end of the vote and the quorum must fit.
    pub fn create_proposal(
        &mut self,
        proposer: u64,
        proposal_type: ProposalType,
        description: String,
        voting_period: u64,
        now: u64,
        voting_power: u128,
        total_voting_power: u128,
    ) -> (r: Result<u64, SwapTradeError>)
        requires
            now >= old(self)@.last_proposal_of(proposer),
            now + voting_period <= u64::MAX,
            old(self)@.upcoming_id() < u64::MAX,
            old(self)@.cfg().quorum_threshold * total_voting_power <= u128::MAX,
        ensures
            match spec_create_refusal(old(self)@, proposer, voting_period, now, voting_power) {
                Some(e) => r == Err::<u64, SwapTradeError>(e) && final(self)@ == old(self)@,
                None => r == Ok::<u64, SwapTradeError>(old(self)@.upcoming_id())
                    && final(self)@ == created(old(self)@, proposer, proposal_type, description@, voting_period, now, total_voting_power),
            },
            r matches Ok(id) ==> final(self)@.upcoming_id() == id + 1,
            gov_wf(old(self)@) ==> gov_wf(final(self)@),
            gov_wf(old(self)@) && r is Ok ==> !old(self)@.proposals.contains_key(r.unwrap()),
    {
        let config = self.get_config();
        if voting_period < config.min_voting_period || voting_period > config.max_voting_period {
            return Err(SwapTradeError::InvalidAmount);
        }
        let last_proposal_time: u64 = match self.last_proposal.get(&proposer) {
            Some(t) => *t,
            None => 0,
        };
        if now - last_proposal_time < config.proposal_cooldown {
            return Err(SwapTradeError::RateLimitExceeded);
        }
        if voting_power == 0 {
            return Err(SwapTradeError::InvalidAmount);
        }
        let proposal_id: u64 = match self.next_id {
            Some(n) => n,
            None => 1,
        };
        self.next_id = Some(proposal_id + 1);
        let proposal = Proposal {
            id: proposal_id,
            proposer,
            proposal_type,
            description,
            start_time: now,
            end_time: now + voting_period,
            execution_time: None,
            status: ProposalStatus::Active,
            votes_for: 0,
            votes_against: 0,
            votes_abstain: 0,
            total_voting_power,
            quorum_required: (config.quorum_threshold as u128 * total_voting_power) / 10000,
            approval_threshold: config.approval_threshold,
            executed: false,
        };
        self.proposals.set(proposal_id, proposal);
        self.last_proposal.set(proposer, now);
        Ok(proposal_id)
    }

    /// Whether `voter` is among `votes`.
    fn voted(votes: &Vec<Vote>, voter: u64) -> (r: bool)
        ensures
            r == exists|i: int| 0 <= i < votes@.len() && #[trigger] votes@[i].voter == voter,
    {
        let mut i: usize = 0;
        while i < votes.len()
            invariant
                0 <= i <= votes@.len(),
                forall|j: int| 0 <= j < i ==> #[trigger] votes@[j].voter != voter,
            decreases votes@.len() - i,
        {
            if votes[i].voter == voter {
                return true;
            }
            i = i + 1;
        }
        false
    }

    /// Cast `voter`'s vote with `voting_power` on proposal `id` at `now`:
    /// the proposal must be active and open at `now`, the voter must not
    /// have voted and must hold voting power. The tally must fit.
    pub fn cast_vote(&mut self, voter: u64, proposal_id: u64, vote_option: VoteOption, now: u64, voting_power: u128)
        -> (r: Result<(), SwapTradeError>)
        requires
            old(self)@.proposals.contains_key(proposal_id) ==> tally_of(old(self)@.proposals[proposal_id], vote_option) + voting_power <= u128::MAX,
        ensures
            match spec_vote_refusal(old(self)@, voter, proposal_id, now, voting_power) {
                Some(e) => r == Err::<(), SwapTradeError>(e) && final(self)@ == old(self)@,
                None => r is Ok && final(self)@ == voted(old(self)@, voter, proposal_id, vote_option, now, voting_power),
            },
            final(self)@.next_id == old(self)@.next_id,
            gov_wf(old(self)@) ==> gov_wf(final(self)@),
    {
        let mut proposal = match self.get_proposal(proposal_id) {
            Ok(p) => p,
            Err(e) => {
                return Err(e);
            },
        };
        if proposal.status != ProposalStatus::Active {
            return Err(SwapTradeError::InvalidAmount);
        }
        if now < proposal.start_time || now > proposal.end_time {
            return Err(SwapTradeError::InvalidAmount);
        }
        let mut votes = self.get_proposal_votes(proposal_id);
        if Self::voted(&votes, voter) {
            return Err(SwapTradeError::InvalidAmount);
        }
        if voting_power == 0 {
            return Err(SwapTradeError::InvalidAmount);
        }
        votes.push(Vote { voter, option: vote_option, voting_power, timestamp: now });
        match vote_option {
            VoteOption::For => {
                proposal.votes_for = proposal.votes_for + voting_power;
            },
            VoteOption::Against => {
                proposal.votes_against = proposal.votes_against + voting_power;
            },
            VoteOption::Abstain => {
                proposal.votes_abstain = proposal.votes_abstain + voting_power;
            },
        }
        self.votes.set(proposal_id, votes);
        self.proposals.set(proposal_id, proposal);
        Ok(())
    }

    /// Decide the vote on `proposal` at `now`.
    fn finalize_proposal(&self, proposal: &mut Proposal, now: u64)
        requires
            finalize_fits(old(proposal)@, now, self@.cfg().execution_delay),
        ensures
            final(proposal)@ == finalized(old(proposal)@, now, self@.cfg().execution_delay),
    {
        let total_votes = proposal.votes_for + proposal.votes_against;
        if total_votes < proposal.quorum_required {
            proposal.status = ProposalStatus::Rejected;
            return;
        }
        let approval_rate: u128 = if total_votes > 0 { (proposal.votes_for * 10000) / total_votes } else { 0 };
        if approval_rate >= proposal.approval_threshold as u128 {
            proposal.status = ProposalStatus::Passed;
            let config = self.get_config();
            proposal.execution_time = Some(now + config.execution_delay);
        } else {
            proposal.status = ProposalStatus::Rejected;
        }
    }

    /// Apply a proposal of type `t` to the settings and rules.
    fn execute_proposal_action(&mut self, t: ProposalType) -> (r: Result<(), SwapTradeError>)
        ensures
            match spec_apply(old(self)@, t) {
                Err(e) => r == Err::<(), SwapTradeError>(e) && final(self)@ == old(self)@,
                Ok((s, c)) => r is Ok && final(self)@ == (GovernanceView { settings: s, config: c, ..old(self)@ }),
            },
    {
        match t {
            ProposalType::ParameterChange { param_key, new_value } => self.execute_parameter_change(param_key, new_value),
            ProposalType::AdminUpgrade { new_admin } => {
                self.settings.admin = Some(new_admin);
                Ok(())
            },
            ProposalType::EmergencyAction { pause } => {
                self.settings.paused = Some(pause);
                Ok(())
            },
            ProposalType::Custom {} => Ok(()),
        }
    }

    /// Apply a parameter change.
    fn execute_parameter_change(&mut self, param_key: GovernanceParamKey, new_value: i128) -> (r: Result<(), SwapTradeError>)
        ensures
            match spec_apply(old(self)@, ProposalType::ParameterChange { param_key, new_value }) {
                Err(e) => r == Err::<(), SwapTradeError>(e) && final(self)@ == old(self)@,
                Ok((s, c)) => r is Ok && final(self)@ == (GovernanceView { settings: s, config: c, ..old(self)@ }),
            },
    {
        match param_key {
            GovernanceParamKey::MaxSwapAmount => {
                self.settings.max_swap_amount = Some(new_value);
            },
            GovernanceParamKey::FeeBps => {
                self.settings.fee_bps = Some(#[verifier::truncate] (new_value as u32));
            },
            GovernanceParamKey::RateLimitWindow => {
                self.settings.rate_limit_window = Some(new_value);
            },
            GovernanceParamKey::MaxSlippageBps => {
                self.settings.max_slippage_bps = Some(#[verifier::truncate] (new_value as u32));
            },
            GovernanceParamKey::EmergencyPause => {
                self.settings.paused = Some(new_value != 0);
            },
            GovernanceParamKey::RiskConfigMaxPosition => {
                self.settings.max_position_per_user = Some(new_value);
            },
            GovernanceParamKey::RiskConfigConcentrationLimit => {
                self.settings.concentration_limit_threshold = Some(#[verifier::truncate] (new_value as u32));
            },
            GovernanceParamKey::GovernanceQuorumThreshold => {
                let mut config = self.get_config();
                config.quorum_threshold = #[verifier::truncate] (new_value as u32);
                let admin = match self.settings.admin {
                    Some(a) => a,
                    None => {
                        return Err(SwapTradeError::NotAdmin);
                    },
                };
                return self.set_config(admin, &config);
            },
            GovernanceParamKey::GovernanceApprovalThreshold => {
                let mut config = self.get_config();
                config.approval_threshold = #[verifier::truncate] (new_value as u32);
                let admin = match self.settings.admin {
                    Some(a) => a,
                    None => {
                        return Err(SwapTradeError::NotAdmin);
                    },
                };
                return self.set_config(admin, &config);
            },
        }
        Ok(())
    }

    /// Execute proposal `id` at `now` (see `spec_execute`). The vote counts
    /// and the execution instant must fit.
    pub fn execute_proposal(&mut self, proposal_id: u64, now: u64) -> (r: Result<(), SwapTradeError>)
        requires
            old(self)@.proposals.contains_key(proposal_id) ==> finalize_fits(old(self)@.proposals[proposal_id], now, old(self)@.cfg().execution_delay),
        ensures
            final(self)@ == spec_execute(old(self)@, proposal_id, now).0,
            r == spec_execute(old(self)@, proposal_id, now).1,
            final(self)@.next_id == old(self)@.next_id,
            gov_wf(old(self)@) ==> gov_wf(final(self)@),
    {
        let mut proposal = match self.get_proposal(proposal_id) {
            Ok(p) => p,
            Err(e) => {
                return Err(e);
            },
        };
        if proposal.status != ProposalStatus::Active && proposal.status != ProposalStatus::Passed {
            return Err(SwapTradeError::InvalidAmount);
        }
        if proposal.executed {
            return Err(SwapTradeError::InvalidAmount);
        }
        if now < proposal.end_time {
            return Err(SwapTradeError::InvalidAmount);
        }
        if proposal.status == ProposalStatus::Active {
            self.finalize_proposal(&mut proposal, now);
        }
        if proposal.status != ProposalStatus::Passed {
            return Err(SwapTradeError::InvalidAmount);
        }
        match proposal.execution_time {
            Some(execution_time) => {
                if now < execution_time {
                    self.proposals.set(proposal_id, proposal);
                    return Err(SwapTradeError::InvalidAmount);
                }
            },
            None => {
                self.proposals.set(proposal_id, proposal);
                return Err(SwapTradeError::InvalidAmount);
            },
        }
        match self.execute_proposal_action(proposal.proposal_type) {
            Err(e) => {
                return Err(e);
            },
            Ok(()) => {},
        }
        proposal.executed = true;
        proposal.status = ProposalStatus::Executed;
        self.proposals.set(proposal_id, proposal);
        Ok(())
    }

    /// Cancel proposal `id` at `now`: only its proposer may, and only while
    /// it is active and its vote is not over.
    pub fn cancel_proposal(&mut self, canceller: u64, proposal_id: u64, now: u64) -> (r: Result<(), SwapTradeError>)
        ensures
            !old(self)@.proposals.contains_key(proposal_id) ==> r == Err::<(), SwapTradeError>(SwapTradeError::InvalidAmount)
                && final(self)@ == old(self)@,
            old(self)@.proposals.contains_key(proposal_id) ==> {
                let p = old(self)@.proposals[proposal_id];
                &&& p.proposer != canceller ==> r == Err::<(), SwapTradeError>(SwapTradeError::NotAdmin) && final(self)@ == old(self)@
                &&& p.proposer == canceller && (p.status != ProposalStatus::Active || now > p.end_time)
                    ==> r == Err::<(), SwapTradeError>(SwapTradeError::InvalidAmount) && final(self)@ == old(self)@
                &&& p.proposer == canceller && p.status == ProposalStatus::Active && now <= p.end_time ==> r is Ok
                    && final(self)@ == (GovernanceView {
                        proposals: old(self)@.proposals.insert(proposal_id, ProposalView { status: ProposalStatus::Cancelled, ..p }),
                        ..old(self)@
                    })
            },
            final(self)@.next_id == old(self)@.next_id,
            gov_wf(old(self)@) ==> gov_wf(final(self)@),
    {
        let mut proposal = match self.get_proposal(proposal_id) {
            Ok(p) => p,
            Err(e) => {
                return Err(e);
            },
        };
        if proposal.proposer != canceller {
            return Err(SwapTradeError::NotAdmin);
        }
        if proposal.status != ProposalStatus::Active || now > proposal.end_time {
            return Err(SwapTradeError::InvalidAmount);
        }
        proposal.status = ProposalStatus::Cancelled;
        self.proposals.set(proposal_id, proposal);
        Ok(())
    }
}

/// Vote tallies: an admitted vote adds its power to the tally of its option
/// and leaves the other two tallies as they were, the vote is recorded, and
/// any later vote by the same voter on the proposal is refused (a refused
/// vote changes nothing). Stated where the tally stays within `u128`, as
/// the addition of the tally requires.
pub proof fn lemma_vote_tally(
    g: GovernanceView,
    voter: u64,
    id: u64,
    option: VoteOption,
    now: u64,
    power: u128,
    other: VoteOption,
    later: u64,
    power2: u128,
)
    requires
        spec_vote_refusal(g, voter, id, now, power) is None,
        tally_of(g.proposals[id], option) + power <= u128::MAX,
    ensures
        ({
            let after = voted(g, voter, id, option, now, power);
            &&& tally_of(after.proposals[id], option) == tally_of(g.proposals[id], option) + power
            &&& other != option ==> tally_of(after.proposals[id], other) == tally_of(g.proposals[id], other)
            &&& after.has_voted(id, voter)
            &&& spec_vote_refusal(after, voter, id, later, power2) == Some(SwapTradeError::InvalidAmount)
        }),
{
    let after = voted(g, voter, id, option, now, power);
    let n = g.votes_on(id).len() as int;
    assert(after.votes_on(id)[n].voter == voter);
}

/// A proposal executes at most once: after it ran, executing it again is
/// refused and changes nothing.
pub proof fn lemma_execute_once(g: GovernanceView, id: u64, now: u64, later: u64)
    requires
        spec_execute(g, id, now).1 is Ok,
    ensures
        spec_execute(spec_execute(g, id, now).0, id, later)
            == (spec_execute(g, id, now).0, Err::<(), SwapTradeError>(SwapTradeError::InvalidAmount)),
{
}

/// A proposal only executes after its vote ended, having passed (decided
/// now or earlier), once its execution time has come.
pub proof fn lemma_execute_requires_passed_vote(g: GovernanceView, id: u64, now: u64)
    requires
        spec_execute(g, id, now).1 is Ok,
    ensures
        g.proposals.contains_key(id),
        now >= g.proposals[id].end_time,
        !g.proposals[id].executed,
        settled(g.proposals[id], now, g.cfg().execution_delay).status == ProposalStatus::Passed,
        now >= settled(g.proposals[id], now, g.cfg().execution_delay).execution_time.unwrap(),
{
}

/// A passed proposal is executed once its delay has elapsed: if a call at
/// `t1`, after its vote ended, settles it as passed, a call at any `t2` at or after its execution
/// time succeeds, unless applying its action is refused.
pub proof fn lemma_passed_proposal_executes(g: GovernanceView, id: u64, t1: u64, t2: u64)
    requires
        g.proposals.contains_key(id),
        t1 >= g.proposals[id].end_time,
        spec_execute(g, id, t1).0.proposals[id].status == ProposalStatus::Passed,
        !spec_execute(g, id, t1).0.proposals[id].executed,
        spec_execute(g, id, t1).0.proposals[id].execution_time matches Some(t) && t2 >= t,
        t2 >= t1,
        spec_apply(spec_execute(g, id, t1).0, g.proposals[id].proposal_type) is Ok,
    ensures
        spec_execute(spec_execute(g, id, t1).0, id, t2).1 is Ok,
        spec_execute(spec_execute(g, id, t1).0, id, t2).0.proposals[id].executed,
        spec_execute(spec_execute(g, id, t1).0, id, t2).0.proposals[id].status == ProposalStatus::Executed,
{
}

/// Proposal ids increase from call to call: a new proposal is stored under
/// the upcoming id and carries it, the upcoming id then grows by one, and
/// where every stored id lies below the upcoming one, the new id was held
/// by no proposal and that stays so afterwards.
pub proof fn lemma_proposal_ids_increase(
    g: GovernanceView,
    proposer: u64,
    proposal_type: ProposalType,
    description: Seq<char>,
    voting_period: u64,
    now: u64,
    total_voting_power: u128,
)
    requires
        g.upcoming_id() < u64::MAX,
    ensures
        ({
            let h = created(g, proposer, proposal_type, description, voting_period, now, total_voting_power);
            &&& h.upcoming_id() == g.upcoming_id() + 1
            &&& h.proposals.contains_key(g.upcoming_id())
            &&& h.proposals[g.upcoming_id()].id == g.upcoming_id()
            &&& ids_below_upcoming(g) ==> !g.proposals.contains_key(g.upcoming_id()) && ids_below_upcoming(h)
        }),
{
}

/// How a vote is decided: a settled proposal is either passed or rejected.
/// It passes only when the For and Against votes together reach the quorum
/// and the For votes make up at least the approval threshold of them (in
/// basis points, rounded down), and it is then scheduled after the
/// execution delay; when both hold and some vote was cast, it passes. The
/// tallies and everything else about the proposal stay as they were.
pub proof fn lemma_finalized_decides_by_quorum_and_approval(p: ProposalView, now: u64, delay: u64)
    requires
        now + delay <= u64::MAX,
    ensures
        ({
            let f = finalized(p, now, delay);
            let total = p.votes_for + p.votes_against;
            &&& f.status == ProposalStatus::Passed || f.status == ProposalStatus::Rejected
            &&& f.status == ProposalStatus::Passed ==> total >= p.quorum_required
                && p.votes_for * 10000 >= p.approval_threshold * total
                && (total == 0 ==> p.approval_threshold == 0)
                && f.execution_time == Some((now + delay) as u64)
            &&& total > 0 && total >= p.quorum_required && p.votes_for * 10000 >= p.approval_threshold * total
                ==> f.status == ProposalStatus::Passed
            &&& f.votes_for == p.votes_for && f.votes_against == p.votes_against && f.votes_abstain == p.votes_abstain
            &&& f.id == p.id && f.proposal_type == p.proposal_type && f.executed == p.executed
        }),
{
    let total = p.votes_for + p.votes_against;
    let h = p.approval_threshold as int;
    if total > 0 {
        let a = p.votes_for * 10000;
        let r = a / total;
        assert(r * total <= a && a < (r + 1) * total) by (nonlinear_arith)
            requires total > 0, a >= 0, r == a / total;
        assert(r >= h <==> a >= h * total) by (nonlinear_arith)
            requires total > 0, r * total <= a, a < (r + 1) * total;
    }
}

/// A proposal still open when executed runs only on an approving vote: a
/// successful execution means its For and Against votes reached the quorum
/// and the For votes met the approval threshold.
pub proof fn lemma_execute_needs_approval(g: GovernanceView, id: u64, now: u64)
    requires
        spec_execute(g, id, now).1 is Ok,
        g.proposals.contains_key(id),
        g.proposals[id].status == ProposalStatus::Active,
        now + g.cfg().execution_delay <= u64::MAX,
    ensures
        ({
            let p = g.proposals[id];
            &&& p.votes_for + p.votes_against >= p.quorum_required
            &&& p.votes_for * 10000 >= p.approval_threshold * (p.votes_for + p.votes_against)
        }),
{
    lemma_finalized_decides_by_quorum_and_approval(g.proposals[id], now, g.cfg().execution_delay);
}

} // verus!
