use swaptrade::batch::{BatchOperation, OperationResult};
use swaptrade::contract::CounterContract;

const NOW: u64 = 1_000;

fn tokens() -> (String, String) {
    ("XLM".to_string(), "USDC-SIM".to_string())
}

#[test]
fn test_three_leg_batch_strategy() {
    let mut client = CounterContract::new();
    let user = 1u64;
    let (xlm, usdc) = tokens();
    client.mint(&xlm, user, 2000).unwrap();
    let batch_ops = vec![
        BatchOperation::Swap(xlm.clone(), usdc.clone(), 500, user),
        BatchOperation::Swap(usdc.clone(), xlm.clone(), 200, user),
        BatchOperation::Swap(xlm.clone(), usdc.clone(), 300, user),
    ];
    let batch_result = client.execute_batch(&batch_ops, NOW);
    assert_eq!(batch_result.operations_executed, 3);
    assert_eq!(batch_result.operations_failed, 0);
    assert_eq!(batch_result.results.len(), 3);
    for r in &batch_result.results {
        assert!(matches!(r, OperationResult::Success(_)));
    }
    assert_eq!(client.get_balance(&xlm, user), 1400);
    assert_eq!(client.get_balance(&usdc, user), 600);
}

#[test]
fn test_batch_with_add_liquidity_and_swap() {
    let mut client = CounterContract::new();
    let user = 1u64;
    let (xlm, usdc) = tokens();
    client.mint(&xlm, user, 1000).unwrap();
    client.mint(&usdc, user, 1000).unwrap();
    let batch_ops = vec![
        BatchOperation::MintToken(xlm.clone(), user, 500),
        BatchOperation::AddLiquidity(300, 300, user),
        BatchOperation::Swap(xlm.clone(), usdc.clone(), 200, user),
    ];
    let batch_result = client.execute_batch(&batch_ops, NOW);
    assert_eq!(batch_result.operations_executed, 3);
    assert_eq!(batch_result.operations_failed, 0);
}

#[test]
fn test_batch_with_remove_liquidity() {
    let mut client = CounterContract::new();
    let user = 1u64;
    let (xlm, usdc) = tokens();
    client.mint(&xlm, user, 1000).unwrap();
    client.mint(&usdc, user, 1000).unwrap();
    client.execute_batch(&vec![BatchOperation::AddLiquidity(500, 500, user)], NOW);
    let batch_ops = vec![
        BatchOperation::Swap(xlm.clone(), usdc.clone(), 200, user),
        BatchOperation::RemoveLiquidity(100, 100, user),
    ];
    let batch_result = client.execute_batch(&batch_ops, NOW);
    assert_eq!(batch_result.operations_executed, 2);
    assert_eq!(batch_result.operations_failed, 0);
}

#[test]
fn test_atomic_batch_rollback_on_failure() {
    let mut client = CounterContract::new();
    let user = 1u64;
    let (xlm, usdc) = tokens();
    client.mint(&xlm, user, 500).unwrap();
    let initial_xlm = client.get_balance(&xlm, user);
    let initial_usdc = client.get_balance(&usdc, user);
    let batch_ops = vec![
        BatchOperation::Swap(xlm.clone(), usdc.clone(), 200, user),
        BatchOperation::Swap(xlm.clone(), usdc.clone(), 500, user),
    ];
    let batch_result = client.execute_batch_atomic(&batch_ops, NOW);
    assert!(batch_result.operations_failed > 0);
    assert_eq!(client.get_balance(&xlm, user), initial_xlm);
    assert_eq!(client.get_balance(&usdc, user), initial_usdc);
}

#[test]
fn test_best_effort_continues_on_failure() {
    let mut client = CounterContract::new();
    let user = 1u64;
    let (xlm, usdc) = tokens();
    client.mint(&xlm, user, 1000).unwrap();
    let batch_ops = vec![
        BatchOperation::Swap(xlm.clone(), usdc.clone(), 200, user),
        BatchOperation::Swap(xlm.clone(), usdc.clone(), 5000, user),
        BatchOperation::Swap(usdc.clone(), xlm.clone(), 100, user),
    ];
    let batch_result = client.execute_batch_best_effort(&batch_ops, NOW);
    assert_eq!(batch_result.results.len(), 3);
    assert!(batch_result.operations_executed > 0);
    assert!(batch_result.operations_failed > 0);
    assert!(matches!(batch_result.results[0], OperationResult::Success(_)));
    assert!(matches!(batch_result.results[1], OperationResult::OpError(_)));
}

#[test]
fn test_atomicity_three_operations_middle_fails() {
    let mut client = CounterContract::new();
    let user = 1u64;
    let (xlm, usdc) = tokens();
    client.mint(&xlm, user, 400).unwrap();
    let initial_xlm = client.get_balance(&xlm, user);
    let batch_ops = vec![
        BatchOperation::Swap(xlm.clone(), usdc.clone(), 100, user),
        BatchOperation::Swap(xlm.clone(), usdc.clone(), 500, user),
        BatchOperation::Swap(usdc.clone(), xlm.clone(), 50, user),
    ];
    let batch_result = client.execute_batch_atomic(&batch_ops, NOW);
    assert!(batch_result.operations_failed > 0);
    assert_eq!(client.get_balance(&xlm, user), initial_xlm);
}

#[test]
fn test_validation_catches_invalid_amount() {
    let mut client = CounterContract::new();
    let (xlm, usdc) = tokens();
    let batch_result = client.execute_batch(&vec![BatchOperation::Swap(xlm, usdc, -100, 1)], NOW);
    assert!(batch_result.operations_failed > 0);
}

#[test]
fn test_validation_catches_same_token_swap() {
    let mut client = CounterContract::new();
    let (xlm, _) = tokens();
    let batch_result = client.execute_batch(&vec![BatchOperation::Swap(xlm.clone(), xlm, 100, 1)], NOW);
    assert!(batch_result.operations_failed > 0);
}

#[test]
fn test_batch_size_limit_enforced() {
    let mut client = CounterContract::new();
    let (xlm, usdc) = tokens();
    let batch_ops: Vec<BatchOperation> =
        (0..11).map(|_| BatchOperation::Swap(xlm.clone(), usdc.clone(), 10, 1)).collect();
    let batch_result = client.execute_batch(&batch_ops, NOW);
    assert!(batch_result.operations_failed > 0);
}

#[test]
fn test_empty_batch_rejected() {
    let mut client = CounterContract::new();
    let batch_result = client.execute_batch(&Vec::new(), NOW);
    assert!(batch_result.operations_failed > 0);
}

#[test]
fn test_complex_multi_operation_strategy() {
    let mut client = CounterContract::new();
    let user = 1u64;
    let (xlm, usdc) = tokens();
    client.mint(&xlm, user, 2000).unwrap();
    client.mint(&usdc, user, 2000).unwrap();
    let batch_ops = vec![
        BatchOperation::MintToken(xlm.clone(), user, 500),
        BatchOperation::AddLiquidity(400, 400, user),
        BatchOperation::Swap(xlm.clone(), usdc.clone(), 300, user),
        BatchOperation::Swap(usdc.clone(), xlm.clone(), 200, user),
        BatchOperation::Swap(xlm.clone(), usdc.clone(), 100, user),
        BatchOperation::RemoveLiquidity(200, 200, user),
    ];
    let batch_result = client.execute_batch(&batch_ops, NOW);
    assert_eq!(batch_result.operations_executed, 6);
    assert_eq!(batch_result.operations_failed, 0);
    assert_eq!(batch_result.results.len(), 6);
}

#[test]
fn test_batch_updates_portfolio_stats() {
    let mut client = CounterContract::new();
    let user = 1u64;
    let (xlm, usdc) = tokens();
    client.mint(&xlm, user, 1000).unwrap();
    let (initial_trades, _) = client.get_portfolio(user);
    let batch_ops = vec![
        BatchOperation::Swap(xlm.clone(), usdc.clone(), 100, user),
        BatchOperation::Swap(usdc.clone(), xlm.clone(), 50, user),
        BatchOperation::Swap(xlm.clone(), usdc.clone(), 50, user),
    ];
    client.execute_batch(&batch_ops, NOW);
    let (final_trades, _) = client.get_portfolio(user);
    assert_eq!(final_trades, initial_trades + 3);
}

#[test]
fn test_batch_multi_user_isolation() {
    let mut client = CounterContract::new();
    let (xlm, usdc) = tokens();
    client.mint(&xlm, 1, 1000).unwrap();
    client.mint(&xlm, 2, 1000).unwrap();
    let batch_ops = vec![
        BatchOperation::Swap(xlm.clone(), usdc.clone(), 200, 1),
        BatchOperation::Swap(xlm.clone(), usdc.clone(), 300, 2),
    ];
    let batch_result = client.execute_batch(&batch_ops, NOW);
    assert_eq!(batch_result.operations_executed, 2);
    assert_eq!(batch_result.operations_failed, 0);
    assert_eq!(client.get_balance(&xlm, 1), 800);
    assert_eq!(client.get_balance(&usdc, 1), 200);
    assert_eq!(client.get_balance(&xlm, 2), 700);
    assert_eq!(client.get_balance(&usdc, 2), 300);
}

#[test]
fn test_clear_error_messages() {
    let mut client = CounterContract::new();
    let (xlm, _) = tokens();
    let batch_result = client.execute_batch_best_effort(&vec![BatchOperation::Swap(xlm.clone(), xlm, 100, 1)], NOW);
    assert!(batch_result.operations_failed > 0);
}

#[test]
fn batch_add_liquidity_takes_the_deposit_from_the_user() {
    let mut client = CounterContract::new();
    let user = 1u64;
    let (xlm, usdc) = tokens();
    client.mint(&xlm, user, 1000).unwrap();
    client.mint(&usdc, user, 1000).unwrap();
    let result = client.execute_batch(&vec![BatchOperation::AddLiquidity(300, 200, user)], NOW);
    assert_eq!(result.operations_executed, 1);
    assert_eq!(result.operations_failed, 0);
    assert!(matches!(result.results[0], OperationResult::Success(500)));
    assert_eq!(client.get_balance(&xlm, user), 700);
    assert_eq!(client.get_balance(&usdc, user), 800);
    let (x, u, _) = client.get_pool_stats();
    assert_eq!((x, u), (300, 200));
}

#[test]
fn atomic_batch_that_succeeds_reports_every_step() {
    let mut client = CounterContract::new();
    let user = 1u64;
    let (xlm, usdc) = tokens();
    client.mint(&xlm, user, 1000).unwrap();
    let ops = vec![
        BatchOperation::Swap(xlm.clone(), usdc.clone(), 200, user),
        BatchOperation::Swap(usdc.clone(), xlm.clone(), 50, user),
    ];
    let result = client.execute_batch_atomic(&ops, NOW);
    assert_eq!(result.operations_executed, 2);
    assert_eq!(result.operations_failed, 0);
    assert_eq!(result.results.len(), 2);
    assert!(matches!(result.results[0], OperationResult::Success(200)));
    assert!(matches!(result.results[1], OperationResult::Success(50)));
    assert_eq!(client.get_balance(&xlm, user), 850);
    assert_eq!(client.get_balance(&usdc, user), 150);
}
