use swaptrade::validation::{validate_amount, validate_swap_pair, validate_token_symbol, validate_user_address, MAX_AMOUNT};

#[test]
fn rejects_zero_amount() {
    assert!(validate_amount(0).is_err());
}

#[test]
fn rejects_negative_amount() {
    assert!(validate_amount(-10).is_err());
}

#[test]
fn accepts_valid_tokens() {
    assert!(validate_token_symbol(&"XLM".to_string()).is_ok());
}

#[test]
fn rejects_same_token_swap() {
    assert!(validate_swap_pair(&"XLM".to_string(), &"XLM".to_string()).is_err());
}

#[test]
fn accepts_valid_user_address() {
    let user = 12345u64;
    assert!(validate_user_address(user).is_ok());
}

#[test]
fn accepts_amount_up_to_the_maximum() {
    assert!(validate_amount(1).is_ok());
    assert!(validate_amount(MAX_AMOUNT).is_ok());
    assert!(validate_amount(MAX_AMOUNT + 1).is_err());
}
