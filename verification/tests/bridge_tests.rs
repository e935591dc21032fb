use swaptrade::bridge::{confirm_bridge, fail_bridge, get_bridge_request, initiate_bridge, BridgeError, BridgeLedger, BridgeStatus};

fn chains() -> (String, String) {
    ("stellar".to_string(), "ethereum".to_string())
}

#[test]
fn a_request_is_locked_then_released() {
    let mut ledger = BridgeLedger::new();
    let (src, dst) = chains();
    let id = initiate_bridge(&mut ledger, 1, 2, 500, src, dst).unwrap();
    assert_eq!(id, 1);
    let req = get_bridge_request(&ledger, id).unwrap();
    assert_eq!(req.status, BridgeStatus::Locked);
    assert_eq!(req.amount, 500);
    assert_eq!(req.sender, 1);
    assert_eq!(req.recipient, 2);
    assert!(confirm_bridge(&mut ledger, id).is_ok());
    assert_eq!(get_bridge_request(&ledger, id).unwrap().status, BridgeStatus::Released);
}

#[test]
fn settled_requests_stay_settled() {
    let mut ledger = BridgeLedger::new();
    let (src, dst) = chains();
    let id = initiate_bridge(&mut ledger, 1, 2, 10, src, dst).unwrap();
    assert!(fail_bridge(&mut ledger, id).is_ok());
    assert_eq!(get_bridge_request(&ledger, id).unwrap().status, BridgeStatus::Failed);
    assert_eq!(confirm_bridge(&mut ledger, id), Err(BridgeError::NotLocked));
    assert_eq!(fail_bridge(&mut ledger, id), Err(BridgeError::NotLocked));
}

#[test]
fn bridge_refusals() {
    let mut ledger = BridgeLedger::new();
    let (src, dst) = chains();
    assert_eq!(initiate_bridge(&mut ledger, 1, 2, 0, src.clone(), dst.clone()), Err(BridgeError::NonPositiveAmount));
    assert_eq!(initiate_bridge(&mut ledger, 1, 2, -5, src.clone(), dst.clone()), Err(BridgeError::NonPositiveAmount));
    assert_eq!(confirm_bridge(&mut ledger, 3), Err(BridgeError::NotFound));
    assert!(get_bridge_request(&ledger, 3).is_err());
    assert_eq!(initiate_bridge(&mut ledger, 1, 2, 5, src.clone(), dst.clone()), Ok(1));
    assert_eq!(initiate_bridge(&mut ledger, 1, 2, 5, src, dst), Ok(2));
}
