use swaptrade::batch::{validate_batch, BatchError, BatchOperation};

#[test]
fn test_validate_batch_size_limit() {
    let user = 1u64;
    let mut operations = Vec::new();
    for _ in 0..11 {
        operations.push(BatchOperation::Swap("XLM".to_string(), "USDC-SIM".to_string(), 100, user));
    }
    let result = validate_batch(&operations);
    assert!(result.is_err());
    assert_eq!(result.unwrap_err(), BatchError::BatchSizeExceeded);
}

#[test]
fn test_validate_empty_batch() {
    let operations: Vec<BatchOperation> = Vec::new();
    let result = validate_batch(&operations);
    assert!(result.is_err());
    assert_eq!(result.unwrap_err(), BatchError::EmptyBatch);
}

#[test]
fn test_validate_invalid_swap_amount() {
    let operations = vec![BatchOperation::Swap("XLM".to_string(), "USDC-SIM".to_string(), -100, 1)];
    let result = validate_batch(&operations);
    assert!(result.is_err());
    assert_eq!(result.unwrap_err(), BatchError::InvalidAmount);
}

#[test]
fn test_validate_same_token_swap() {
    let operations = vec![BatchOperation::Swap("XLM".to_string(), "XLM".to_string(), 100, 1)];
    let result = validate_batch(&operations);
    assert!(result.is_err());
    assert_eq!(result.unwrap_err(), BatchError::SameTokenSwap);
}

#[test]
fn ten_operations_are_accepted() {
    let operations: Vec<BatchOperation> =
        (0..10).map(|_| BatchOperation::Swap("XLM".to_string(), "USDC-SIM".to_string(), 100, 1)).collect();
    assert_eq!(validate_batch(&operations), Ok(()));
}

#[test]
fn liquidity_and_mint_operations_are_validated() {
    assert_eq!(validate_batch(&vec![BatchOperation::AddLiquidity(0, 10, 1)]), Err(BatchError::InvalidLiquidity));
    assert_eq!(validate_batch(&vec![BatchOperation::RemoveLiquidity(-1, 10, 1)]), Err(BatchError::NegativeLiquidity));
    assert_eq!(validate_batch(&vec![BatchOperation::RemoveLiquidity(0, 0, 1)]), Err(BatchError::ZeroLiquidity));
    assert_eq!(validate_batch(&vec![BatchOperation::MintToken("XLM".to_string(), 1, -5)]), Err(BatchError::NegativeMint));
    assert_eq!(validate_batch(&vec![BatchOperation::Swap("DOGE".to_string(), "XLM".to_string(), 5, 1)]), Err(BatchError::InvalidToken));
}
