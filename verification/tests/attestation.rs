use veritasor::attestation::{AttestationContract, AttestationError};
use veritasor::dynamic_fees::FeeError;

const ADMIN: u64 = 1;
const TOKEN: u64 = 2;
const COLLECTOR: u64 = 3;
const BUSINESS: u64 = 4;

fn dummy_root(val: u8) -> [u8; 32] {
    [val; 32]
}

/// A contract initialized with fees configured and disabled.
fn setup_env_and_contract() -> (AttestationContract, u64) {
    let mut client = AttestationContract::new();
    client.initialize(ADMIN).unwrap();
    client.configure_fees(TOKEN, COLLECTOR, 0, false).unwrap();
    (client, BUSINESS)
}

#[test]
fn test_submit_emits_event() {
    let (mut client, business) = setup_env_and_contract();
    let root = dummy_root(5);
    let transfer = client
        .submit_multi_period_attestation(business, 202401, 202406, root, 1672531200, 1)
        .unwrap();
    assert!(transfer.is_none());
    let stored = client.get_attestation_for_period(business, 202401).unwrap();
    assert_eq!(stored.start_period, 202401);
    assert_eq!(stored.end_period, 202406);
    assert_eq!(stored.merkle_root, root);
}

#[test]
fn test_single_period_attestation() {
    let (mut client, business) = setup_env_and_contract();
    let root = dummy_root(1);
    client
        .submit_multi_period_attestation(business, 202401, 202401, root, 1672531200, 1)
        .unwrap();
    let attestation = client.get_attestation_for_period(business, 202401).unwrap();
    assert_eq!(attestation.merkle_root, root);
    assert_eq!(attestation.start_period, 202401);
    assert_eq!(attestation.end_period, 202401);
    assert!(client.verify_multi_period_attestation(business, 202401, root));
    assert!(client.get_attestation_for_period(business, 202402).is_none());
}

#[test]
fn test_multi_period_valid_resolution() {
    let (mut client, business) = setup_env_and_contract();
    let root = dummy_root(1);
    client
        .submit_multi_period_attestation(business, 202401, 202403, root, 1672531200, 1)
        .unwrap();
    assert_eq!(client.get_attestation_for_period(business, 202401).unwrap().merkle_root, root);
    assert_eq!(client.get_attestation_for_period(business, 202402).unwrap().merkle_root, root);
    assert_eq!(client.get_attestation_for_period(business, 202403).unwrap().merkle_root, root);
}

#[test]
fn test_invalid_range_panics() {
    let (mut client, business) = setup_env_and_contract();
    let root = dummy_root(1);
    let result = client.submit_multi_period_attestation(business, 202405, 202401, root, 1672531200, 1);
    assert!(result.is_err(), "Expected panic for start_period > end_period");
    assert_eq!(result, Err(AttestationError::InvalidRange));
}

#[test]
fn test_overlapping_ranges_disallowed() {
    let (mut client, business) = setup_env_and_contract();
    let root1 = dummy_root(1);
    let root2 = dummy_root(2);
    client
        .submit_multi_period_attestation(business, 202401, 202406, root1, 1672531200, 1)
        .unwrap();
    assert!(client.submit_multi_period_attestation(business, 202403, 202404, root2, 1672531200, 1).is_err());
    assert!(client.submit_multi_period_attestation(business, 202405, 202408, root2, 1672531200, 1).is_err());
    assert!(client.submit_multi_period_attestation(business, 202312, 202402, root2, 1672531200, 1).is_err());
    assert!(client.submit_multi_period_attestation(business, 202401, 202406, root2, 1672531200, 1).is_err());
    let result = client.submit_multi_period_attestation(business, 202407, 202412, root2, 1672531200, 1);
    assert!(result.is_ok(), "Adjacent periods should not trigger an overlap error");
}

#[test]
fn test_revocation_impact() {
    let (mut client, business) = setup_env_and_contract();
    let root1 = dummy_root(1);
    let root2 = dummy_root(2);
    client
        .submit_multi_period_attestation(business, 202401, 202412, root1, 1672531200, 1)
        .unwrap();
    client.revoke_multi_period_attestation(business, root1).unwrap();
    assert!(client.get_attestation_for_period(business, 202406).is_none());
    assert!(!client.verify_multi_period_attestation(business, 202406, root1));
    let result = client.submit_multi_period_attestation(business, 202405, 202407, root2, 1672531200, 1);
    assert!(result.is_ok(), "Overlapping on a revoked attestation should be allowed");
}

#[test]
fn overlap_error_is_reported() {
    let (mut client, business) = setup_env_and_contract();
    client
        .submit_multi_period_attestation(business, 202401, 202406, dummy_root(1), 1, 1)
        .unwrap();
    assert_eq!(
        client.submit_multi_period_attestation(business, 202406, 202407, dummy_root(2), 1, 1),
        Err(AttestationError::OverlappingRange)
    );
    assert_eq!(client.get_business_count(business), 1);
}

#[test]
fn revoke_errors() {
    let (mut client, business) = setup_env_and_contract();
    assert_eq!(client.revoke_multi_period_attestation(business, dummy_root(1)), Err(AttestationError::NoRanges));
    client
        .submit_multi_period_attestation(business, 202401, 202402, dummy_root(1), 1, 1)
        .unwrap();
    assert_eq!(
        client.revoke_multi_period_attestation(business, dummy_root(9)),
        Err(AttestationError::RootNotFound)
    );
}

#[test]
fn single_period_submit_then_read_back() {
    let (mut client, business) = setup_env_and_contract();
    let period = String::from("2026-02");
    client.submit_attestation(business, period.clone(), dummy_root(7), 1700000000, 2).unwrap();
    assert_eq!(client.get_attestation(business, period.clone()), Some((dummy_root(7), 1700000000, 2, 0)));
    assert!(client.verify_attestation(business, period.clone(), dummy_root(7)));
    assert!(!client.verify_attestation(business, period.clone(), dummy_root(8)));
    assert_eq!(
        client.submit_attestation(business, period, dummy_root(8), 1, 1),
        Err(AttestationError::AlreadyExists)
    );
}

#[test]
fn fees_are_charged_and_discounted() {
    let mut client = AttestationContract::new();
    client.initialize(ADMIN).unwrap();
    assert_eq!(client.initialize(ADMIN), Err(AttestationError::AlreadyInitialized));
    client.configure_fees(TOKEN, COLLECTOR, 1_000_000, true).unwrap();
    client.set_tier_discount(1, 2_000).unwrap();
    client.set_business_tier(BUSINESS, 1).unwrap();
    client.set_volume_brackets(vec![1], vec![1_000]).unwrap();
    // Tier 20 % off, no volume discount yet: 800 000.
    assert_eq!(client.get_fee_quote(BUSINESS), Ok(800_000));
    let t = client.submit_attestation(BUSINESS, String::from("p1"), dummy_root(1), 1, 1).unwrap().unwrap();
    assert_eq!(t.amount, 800_000);
    assert_eq!(t.from, BUSINESS);
    assert_eq!(t.to, COLLECTOR);
    assert_eq!(t.token, TOKEN);
    // Count is now 1: both discounts apply, 1e6 * 0.8 * 0.9 = 720 000.
    assert_eq!(client.get_fee_quote(BUSINESS), Ok(720_000));
    let (_, _, _, fee) = {
        client.submit_attestation(BUSINESS, String::from("p2"), dummy_root(2), 1, 1).unwrap();
        client.get_attestation(BUSINESS, String::from("p2")).unwrap()
    };
    assert_eq!(fee, 720_000);
    client.set_fee_enabled(false).unwrap();
    assert_eq!(client.get_fee_quote(BUSINESS), Ok(0));
}

#[test]
fn fee_admin_errors() {
    let mut client = AttestationContract::new();
    assert_eq!(
        client.configure_fees(TOKEN, COLLECTOR, 1, true),
        Err(AttestationError::Fee(FeeError::NotInitialized))
    );
    client.initialize(ADMIN).unwrap();
    assert_eq!(client.set_fee_enabled(true), Err(AttestationError::FeesNotConfigured));
    assert_eq!(client.configure_fees(TOKEN, COLLECTOR, -1, true), Err(AttestationError::NegativeBaseFee));
    assert_eq!(client.set_tier_discount(0, 10_001), Err(AttestationError::Fee(FeeError::DiscountTooHigh)));
    assert_eq!(
        client.set_volume_brackets(vec![5, 5], vec![1, 2]),
        Err(AttestationError::Fee(FeeError::ThresholdsNotAscending))
    );
    assert_eq!(
        client.set_volume_brackets(vec![5], vec![1, 2]),
        Err(AttestationError::Fee(FeeError::BracketLengthMismatch))
    );
    assert_eq!(client.get_admin(), Ok(ADMIN));
}

#[test]
fn invariant_attestation_single_initialization() {
    let mut client = AttestationContract::new();
    client.initialize(ADMIN).unwrap();
    assert_eq!(client.get_admin(), Ok(ADMIN));
    assert_eq!(client.initialize(9), Err(AttestationError::AlreadyInitialized));
    assert_eq!(client.get_admin(), Ok(ADMIN));
}
