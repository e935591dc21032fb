use swaptrade::portfolio::Portfolio;

#[test]
fn test_record_transaction_stores_data_correctly() {
    let mut portfolio = Portfolio::new();
    let user = 1u64;
    let now = 1234567890u64;
    let from_token = "XLM".to_string();
    let to_token = "USDC".to_string();
    let amount_in = 100_000_000;
    let amount_out = 98_000_000;
    portfolio.record_transaction(user, &from_token, &to_token, amount_in, amount_out, now, 1);
    let transactions = portfolio.get_user_transactions(user, 10);
    assert_eq!(transactions.len(), 1);
    let tx = &transactions[0];
    assert_eq!(tx.timestamp, 1234567890);
    assert_eq!(tx.from_token, from_token);
    assert_eq!(tx.to_token, to_token);
    assert_eq!(tx.from_amount, amount_in);
    assert_eq!(tx.to_amount, amount_out);
    assert_eq!(tx.rate_achieved, 9_800_000);
}

#[test]
fn test_transaction_limit_capped_at_100() {
    let mut portfolio = Portfolio::new();
    let user = 1u64;
    let a = "A".to_string();
    let b = "B".to_string();
    for i in 0..110i128 {
        portfolio.record_transaction(user, &a, &b, 100 + i, 100 + i, 1000, 1);
    }
    let transactions = portfolio.get_user_transactions(user, 200);
    assert_eq!(transactions.len(), 100);
    assert_eq!(transactions[0].from_amount, 110);
    assert_eq!(transactions[99].from_amount, 209);
}

#[test]
fn test_get_user_transactions_limit_works() {
    let mut portfolio = Portfolio::new();
    let user = 1u64;
    let a = "A".to_string();
    let b = "B".to_string();
    for _ in 0..10 {
        portfolio.record_transaction(user, &a, &b, 100, 100, 1000, 1);
    }
    let limited = portfolio.get_user_transactions(user, 5);
    assert_eq!(limited.len(), 5);
}
