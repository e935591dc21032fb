use swaptrade::errors::SwapTradeError;
use swaptrade::governance_system::{
    GovernanceConfig, GovernanceParamKey, GovernanceSystem, ProposalStatus, ProposalType, VoteOption,
};

const ADMIN: u64 = 1;

fn config() -> GovernanceConfig {
    GovernanceConfig {
        min_voting_period: 100,
        max_voting_period: 1000,
        proposal_cooldown: 50,
        quorum_threshold: 2000,
        approval_threshold: 5000,
        execution_delay: 0,
    }
}

fn configured() -> GovernanceSystem {
    let mut g = GovernanceSystem::new(Some(ADMIN));
    g.set_config(ADMIN, &config()).unwrap();
    g
}

fn fee_change(value: i128) -> ProposalType {
    ProposalType::ParameterChange { param_key: GovernanceParamKey::FeeBps, new_value: value }
}

#[test]
fn only_the_admin_sets_valid_rules() {
    let mut g = GovernanceSystem::new(Some(ADMIN));
    assert_eq!(g.set_config(2, &config()), Err(SwapTradeError::NotAdmin));
    let bad = GovernanceConfig { min_voting_period: 0, ..config() };
    assert_eq!(g.set_config(ADMIN, &bad), Err(SwapTradeError::InvalidAmount));
    let too_high = GovernanceConfig { quorum_threshold: 10_001, ..config() };
    assert_eq!(g.set_config(ADMIN, &too_high), Err(SwapTradeError::InvalidAmount));
    assert!(g.set_config(ADMIN, &config()).is_ok());
    assert_eq!(g.get_config(), config());
}

#[test]
fn proposals_are_numbered_from_one_and_rate_limited() {
    let mut g = configured();
    let id = g.create_proposal(7, fee_change(25), "fee".to_string(), 200, 1000, 10, 100).unwrap();
    assert_eq!(id, 1);
    assert_eq!(
        g.create_proposal(7, fee_change(26), "again".to_string(), 200, 1020, 10, 100),
        Err(SwapTradeError::RateLimitExceeded)
    );
    assert_eq!(g.create_proposal(8, fee_change(26), "other".to_string(), 200, 1020, 10, 100), Ok(2));
    assert_eq!(
        g.create_proposal(9, fee_change(26), "short".to_string(), 10, 1020, 10, 100),
        Err(SwapTradeError::InvalidAmount)
    );
    assert_eq!(
        g.create_proposal(9, fee_change(26), "powerless".to_string(), 200, 1020, 0, 100),
        Err(SwapTradeError::InvalidAmount)
    );
    let p = g.get_proposal(1).unwrap();
    assert_eq!(p.status, ProposalStatus::Active);
    assert_eq!(p.end_time, 1200);
    assert_eq!(p.quorum_required, 20);
}

#[test]
fn a_voter_votes_once() {
    let mut g = configured();
    let id = g.create_proposal(7, fee_change(25), "fee".to_string(), 200, 1000, 10, 100).unwrap();
    assert!(g.cast_vote(3, id, VoteOption::For, 1100, 30).is_ok());
    assert_eq!(g.cast_vote(3, id, VoteOption::Against, 1101, 30), Err(SwapTradeError::InvalidAmount));
    assert_eq!(g.cast_vote(4, id, VoteOption::For, 1300, 30), Err(SwapTradeError::InvalidAmount));
    assert_eq!(g.get_proposal_votes(id).len(), 1);
    assert_eq!(g.get_proposal(id).unwrap().votes_for, 30);
}

#[test]
fn a_passed_proposal_executes_once() {
    let mut g = configured();
    let id = g.create_proposal(7, fee_change(25), "fee".to_string(), 200, 1000, 10, 100).unwrap();
    g.cast_vote(3, id, VoteOption::For, 1100, 30).unwrap();
    g.cast_vote(4, id, VoteOption::Against, 1100, 10).unwrap();
    assert_eq!(g.execute_proposal(id, 1199), Err(SwapTradeError::InvalidAmount));
    assert!(g.execute_proposal(id, 1200).is_ok());
    assert_eq!(g.get_settings().fee_bps, Some(25));
    assert_eq!(g.get_proposal(id).unwrap().status, ProposalStatus::Executed);
    assert_eq!(g.execute_proposal(id, 1300), Err(SwapTradeError::InvalidAmount));
}

#[test]
fn a_proposal_below_quorum_is_not_executed() {
    let mut g = configured();
    let id = g.create_proposal(7, fee_change(25), "fee".to_string(), 200, 1000, 10, 100).unwrap();
    g.cast_vote(3, id, VoteOption::For, 1100, 5).unwrap();
    assert_eq!(g.execute_proposal(id, 1200), Err(SwapTradeError::InvalidAmount));
    assert_eq!(g.get_settings().fee_bps, None);
    assert_eq!(g.get_proposal(id).unwrap().status, ProposalStatus::Active);
}

#[test]
fn only_the_proposer_cancels_an_open_proposal() {
    let mut g = configured();
    let id = g.create_proposal(7, ProposalType::EmergencyAction { pause: true }, "halt".to_string(), 200, 1000, 10, 100).unwrap();
    assert_eq!(g.cancel_proposal(8, id, 1100), Err(SwapTradeError::NotAdmin));
    assert!(g.cancel_proposal(7, id, 1100).is_ok());
    assert_eq!(g.get_proposal(id).unwrap().status, ProposalStatus::Cancelled);
    assert_eq!(g.cast_vote(3, id, VoteOption::For, 1100, 30), Err(SwapTradeError::InvalidAmount));
}

#[test]
fn admin_upgrade_replaces_the_admin() {
    let mut g = configured();
    // Before the cooldown has passed since time zero, nobody may propose.
    assert_eq!(
        g.create_proposal(7, ProposalType::Custom {}, "early".to_string(), 100, 10, 10, 100),
        Err(SwapTradeError::RateLimitExceeded)
    );
    let id = g.create_proposal(7, ProposalType::AdminUpgrade { new_admin: 42 }, "admin".to_string(), 100, 100, 10, 100).unwrap();
    g.cast_vote(3, id, VoteOption::For, 150, 100).unwrap();
    assert!(g.execute_proposal(id, 200).is_ok());
    assert_eq!(g.get_settings().admin, Some(42));
    assert_eq!(g.get_proposal(999).err(), Some(SwapTradeError::InvalidAmount));
}

#[test]
fn a_passed_proposal_waits_for_the_execution_delay() {
    let mut g = GovernanceSystem::new(Some(ADMIN));
    g.set_config(ADMIN, &GovernanceConfig { execution_delay: 50, ..config() }).unwrap();
    let id = g.create_proposal(7, fee_change(25), "fee".to_string(), 200, 1000, 10, 100).unwrap();
    g.cast_vote(3, id, VoteOption::For, 1100, 30).unwrap();
    // The first call after the vote closes settles the proposal as passed
    // and schedules it for 1250.
    assert_eq!(g.execute_proposal(id, 1200), Err(SwapTradeError::InvalidAmount));
    let p = g.get_proposal(id).unwrap();
    assert_eq!(p.status, ProposalStatus::Passed);
    assert_eq!(p.execution_time, Some(1250));
    assert_eq!(g.execute_proposal(id, 1249), Err(SwapTradeError::InvalidAmount));
    assert!(g.execute_proposal(id, 1250).is_ok());
    assert_eq!(g.get_settings().fee_bps, Some(25));
    let p = g.get_proposal(id).unwrap();
    assert_eq!(p.status, ProposalStatus::Executed);
    assert!(p.executed);
}

#[test]
fn proposal_ids_are_consecutive_across_other_calls() {
    let mut g = configured();
    let a = g.create_proposal(7, fee_change(25), "a".to_string(), 200, 1000, 10, 100).unwrap();
    g.cast_vote(3, a, VoteOption::For, 1100, 30).unwrap();
    let p = g.get_proposal(a).unwrap();
    assert_eq!((p.votes_for, p.votes_against, p.votes_abstain), (30, 0, 0));
    assert_eq!(g.cast_vote(3, a, VoteOption::Against, 1150, 30), Err(SwapTradeError::InvalidAmount));
    assert_eq!(g.get_proposal(a).unwrap().votes_against, 0);
    g.cancel_proposal(7, a, 1150).unwrap();
    let b = g.create_proposal(8, fee_change(26), "b".to_string(), 200, 1200, 10, 100).unwrap();
    assert_eq!(b, a + 1);
    assert_eq!(g.get_proposal(a).unwrap().status, ProposalStatus::Cancelled);
}
