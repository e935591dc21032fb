use swaptrade::audit_stats::{category_breakdown, count_by_key, severity_breakdown};
use swaptrade::audit::{
    merkle_check, merkle_root, merkle_root_hex, query_events, recompute_hash, verify_chain, AuditEvent, ChainIssue,
    EventFilter,
};

fn to_hex(bytes: &[u8]) -> String {
    bytes.iter().map(|b| format!("{:02x}", b)).collect()
}

fn state() -> [u8; 32] {
    let mut s = [0u8; 32];
    s[0] = 1;
    s
}

fn event(id: u64, ts: u128, actor: &str, action: &str, target: &str, gas: u64, category: &str, prev: [u8; 32]) -> AuditEvent {
    AuditEvent {
        id,
        timestamp: ts,
        actor: actor.to_string(),
        action: action.to_string(),
        target: target.to_string(),
        result: "OK".to_string(),
        gas_used: gas,
        state_hash: state(),
        category: category.to_string(),
        severity: "Info".to_string(),
        prev_hash: prev,
        event_hash: [0u8; 32],
    }
}

fn sealed_trail() -> Vec<AuditEvent> {
    let mut first = event(1, 5_000_000_000, "alice", "TRADE", "pool", 21_000, "Trading", [0u8; 32]);
    first.event_hash = recompute_hash(&first);
    let mut second = event(2, 6_000_000_000, "bob", "LOGIN", "gateway", 0, "Security", first.event_hash);
    second.event_hash = recompute_hash(&second);
    vec![first, second]
}

#[test]
fn event_hash_is_sha256_of_the_fields() {
    let trail = sealed_trail();
    assert_eq!(to_hex(&trail[0].event_hash), "12498b4edb5024c840095978eb112697397a2c8113c8f17c1f9b93c4fb158fe1");
    assert_eq!(to_hex(&trail[1].event_hash), "e5f846251a45a18527fccbc8b01dadfba12252b2faa4b604866e751e9774c223");
}

#[test]
fn sealed_trail_verifies() {
    assert!(verify_chain(&sealed_trail()).is_empty());
    assert!(verify_chain(&Vec::new()).is_empty());
}

#[test]
fn tampered_field_breaks_the_self_hash() {
    let mut trail = sealed_trail();
    trail[0].action = "TAMPERED".to_string();
    assert_eq!(verify_chain(&trail), vec![ChainIssue::SelfHashMismatch { index: 0, id: 1 }]);
}

#[test]
fn broken_link_is_reported() {
    let mut trail = sealed_trail();
    trail[1].prev_hash = [7u8; 32];
    trail[1].event_hash = recompute_hash(&trail[1]);
    assert_eq!(verify_chain(&trail), vec![ChainIssue::PrevHashMismatch { index: 1, id: 2 }]);
}

#[test]
fn genesis_must_point_at_zero() {
    let mut lone = event(9, 1, "root", "INIT", "system", 0, "System", [1u8; 32]);
    lone.event_hash = recompute_hash(&lone);
    assert_eq!(verify_chain(&vec![lone]), vec![ChainIssue::GenesisPrevHashNonZero]);
}

#[test]
fn merkle_root_of_nothing_is_none() {
    assert_eq!(merkle_root(&Vec::new()), None);
    assert_eq!(merkle_root_hex(&Vec::new()), None);
    assert!(merkle_check(&None, &Vec::new()));
    assert!(!merkle_check(&Some("00".to_string()), &Vec::new()));
}

#[test]
fn merkle_root_of_one_hash_is_that_hash() {
    let h = [0xabu8; 32];
    assert_eq!(merkle_root(&vec![h]), Some(h));
    assert_eq!(merkle_root_hex(&vec![h]), Some("ab".repeat(32)));
}

#[test]
fn merkle_root_pairs_hashes_and_repeats_an_odd_one() {
    let (a, b, c) = ([0xaau8; 32], [0xbbu8; 32], [0xccu8; 32]);
    assert_eq!(
        merkle_root_hex(&vec![a, b]).unwrap(),
        "e2d80f78d79027556d6619a1400605abbdca6bb6eb24e0831e33ecd5466fa5f6"
    );
    assert_eq!(
        merkle_root_hex(&vec![a, b, c]).unwrap(),
        "b3a419030971470a7bb3b165e163a11973b3e81aa1dfb29c0769725346a76fbf"
    );
    let claimed = Some("b3a419030971470a7bb3b165e163a11973b3e81aa1dfb29c0769725346a76fbf".to_string());
    assert!(merkle_check(&claimed, &vec![a, b, c]));
    assert!(!merkle_check(&claimed, &vec![a, b]));
}

fn no_filter() -> EventFilter {
    EventFilter { actor: None, action: None, category: None, from: None, to: None }
}

#[test]
fn query_filters_by_actor_action_and_category() {
    let trail = sealed_trail();
    assert_eq!(query_events(&trail, &no_filter()), vec![0, 1]);
    let by_actor = EventFilter { actor: Some("bob".to_string()), ..no_filter() };
    assert_eq!(query_events(&trail, &by_actor), vec![1]);
    let by_action = EventFilter { action: Some("TRADE".to_string()), ..no_filter() };
    assert_eq!(query_events(&trail, &by_action), vec![0]);
    let by_category = EventFilter { category: Some("trading".to_string()), ..no_filter() };
    assert_eq!(query_events(&trail, &by_category), vec![0]);
    let nobody = EventFilter { actor: Some("carol".to_string()), ..no_filter() };
    assert!(query_events(&trail, &nobody).is_empty());
}

#[test]
fn query_time_bounds_are_seconds_and_inclusive() {
    let trail = sealed_trail();
    let from_six = EventFilter { from: Some(6), ..no_filter() };
    assert_eq!(query_events(&trail, &from_six), vec![1]);
    let to_five = EventFilter { to: Some(5), ..no_filter() };
    assert_eq!(query_events(&trail, &to_five), vec![0]);
    let window = EventFilter { from: Some(5), to: Some(6), ..no_filter() };
    assert_eq!(query_events(&trail, &window), vec![0, 1]);
}

#[test]
fn breakdown_counts_each_key_in_byte_order() {
    let keys: Vec<String> = ["Trading", "admin", "Security", "Trading", "Trade"].iter().map(|k| k.to_string()).collect();
    let expected: Vec<(String, usize)> = vec![
        ("Security".to_string(), 1),
        ("Trade".to_string(), 1),
        ("Trading".to_string(), 2),
        ("admin".to_string(), 1),
    ];
    assert_eq!(count_by_key(&keys), expected);
    assert!(count_by_key(&Vec::new()).is_empty());
}

#[test]
fn category_and_severity_breakdowns() {
    let mut trail = sealed_trail();
    let mut third = event(3, 7_000_000_000, "carol", "SWAP", "pool", 5, "Trading", trail[1].event_hash);
    third.severity = "Critical".to_string();
    trail.push(third);
    assert_eq!(
        category_breakdown(&trail),
        vec![("Security".to_string(), 1), ("Trading".to_string(), 2)]
    );
    assert_eq!(
        severity_breakdown(&trail),
        vec![("Critical".to_string(), 1), ("Info".to_string(), 2)]
    );
}
