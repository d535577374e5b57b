use veritasor::revenue_curve::{CurveError, PricingPolicy, RevenueCurveContract, RevenueTier};

const ADMIN: u64 = 1;
const ATTESTATION_CONTRACT: u64 = 2;

fn setup() -> RevenueCurveContract {
    let mut client = RevenueCurveContract::new();
    client.initialize(ADMIN).unwrap();
    client.set_attestation_contract(ADMIN, ATTESTATION_CONTRACT).unwrap();
    client
}

fn create_default_policy() -> PricingPolicy {
    PricingPolicy {
        base_apr_bps: 1000,
        min_apr_bps: 300,
        max_apr_bps: 3000,
        risk_premium_bps_per_point: 10,
        enabled: true,
    }
}

fn tier(min_revenue: i128, discount_bps: u32) -> RevenueTier {
    RevenueTier { min_revenue, discount_bps }
}

#[test]
fn curve_initialize() {
    let mut client = RevenueCurveContract::new();
    client.initialize(ADMIN).unwrap();
    assert_eq!(client.get_admin(), Ok(ADMIN));
}

#[test]
fn test_double_initialize_fails() {
    let mut client = setup();
    assert_eq!(client.initialize(ADMIN), Err(CurveError::AlreadyInitialized));
}

#[test]
fn test_set_pricing_policy() {
    let mut client = setup();
    client.set_pricing_policy(ADMIN, create_default_policy()).unwrap();
    let stored = client.get_pricing_policy().unwrap();
    assert_eq!(stored.base_apr_bps, 1000);
    assert_eq!(stored.min_apr_bps, 300);
    assert_eq!(stored.max_apr_bps, 3000);
}

#[test]
fn test_invalid_policy_min_max() {
    let mut client = setup();
    let policy = PricingPolicy { base_apr_bps: 1000, min_apr_bps: 3000, max_apr_bps: 300, risk_premium_bps_per_point: 10, enabled: true };
    assert_eq!(client.set_pricing_policy(ADMIN, policy), Err(CurveError::MinAboveMax));
}

#[test]
fn test_invalid_policy_base_out_of_range() {
    let mut client = setup();
    let policy = PricingPolicy { base_apr_bps: 5000, min_apr_bps: 300, max_apr_bps: 3000, risk_premium_bps_per_point: 10, enabled: true };
    assert_eq!(client.set_pricing_policy(ADMIN, policy), Err(CurveError::BaseOutOfRange));
}

#[test]
fn test_set_revenue_tiers() {
    let mut client = setup();
    client
        .set_revenue_tiers(ADMIN, vec![tier(100_000, 50), tier(500_000, 100), tier(1_000_000, 200)])
        .unwrap();
    let stored = client.get_revenue_tiers().unwrap();
    assert_eq!(stored.len(), 3);
    assert_eq!(stored[0].min_revenue, 100_000);
    assert_eq!(stored[2].discount_bps, 200);
}

#[test]
fn test_unsorted_tiers_fail() {
    let mut client = setup();
    assert_eq!(
        client.set_revenue_tiers(ADMIN, vec![tier(500_000, 100), tier(100_000, 50)]),
        Err(CurveError::TiersNotSorted)
    );
}

#[test]
fn test_excessive_discount_fails() {
    let mut client = setup();
    assert_eq!(client.set_revenue_tiers(ADMIN, vec![tier(100_000, 15000)]), Err(CurveError::DiscountTooHigh));
}

#[test]
fn test_calculate_pricing_basic() {
    let mut client = setup();
    client.set_pricing_policy(ADMIN, create_default_policy()).unwrap();
    let output = client.calculate_pricing(500_000, 0, true, false).unwrap();
    assert_eq!(output.base_apr_bps, 1000);
    assert_eq!(output.risk_premium_bps, 0);
    assert_eq!(output.apr_bps, 1000);
}

#[test]
fn test_calculate_pricing_with_risk() {
    let mut client = setup();
    client.set_pricing_policy(ADMIN, create_default_policy()).unwrap();
    let output = client.calculate_pricing(500_000, 50, true, false).unwrap();
    assert_eq!(output.base_apr_bps, 1000);
    assert_eq!(output.risk_premium_bps, 500);
    assert_eq!(output.apr_bps, 1500);
}

#[test]
fn test_calculate_pricing_with_tier_discount() {
    let mut client = setup();
    client.set_pricing_policy(ADMIN, create_default_policy()).unwrap();
    client.set_revenue_tiers(ADMIN, vec![tier(100_000, 100), tier(1_000_000, 300)]).unwrap();
    let output = client.calculate_pricing(1_500_000, 0, true, false).unwrap();
    assert_eq!(output.tier_level, 2);
    assert_eq!(output.tier_discount_bps, 300);
    assert_eq!(output.apr_bps, 700);
}

#[test]
fn test_calculate_pricing_max_cap() {
    let mut client = setup();
    client.set_pricing_policy(ADMIN, create_default_policy()).unwrap();
    let output = client.calculate_pricing(100_000, 100, true, false).unwrap();
    assert_eq!(output.apr_bps, 2000);
    assert!(output.apr_bps <= 3000);
}

#[test]
fn test_calculate_pricing_min_cap() {
    let mut client = setup();
    client.set_pricing_policy(ADMIN, create_default_policy()).unwrap();
    client.set_revenue_tiers(ADMIN, vec![tier(100_000, 2000)]).unwrap();
    let output = client.calculate_pricing(5_000_000, 0, true, false).unwrap();
    assert_eq!(output.apr_bps, 300);
}

#[test]
fn test_calculate_pricing_no_attestation() {
    let mut client = setup();
    client.set_pricing_policy(ADMIN, create_default_policy()).unwrap();
    assert_eq!(client.calculate_pricing(500_000, 0, false, false), Err(CurveError::AttestationNotFound));
}

#[test]
fn test_calculate_pricing_revoked_attestation() {
    let mut client = setup();
    client.set_pricing_policy(ADMIN, create_default_policy()).unwrap();
    assert_eq!(client.calculate_pricing(500_000, 0, true, true), Err(CurveError::AttestationRevoked));
}

#[test]
fn test_get_pricing_quote() {
    let mut client = setup();
    client.set_pricing_policy(ADMIN, create_default_policy()).unwrap();
    client.set_revenue_tiers(ADMIN, vec![tier(1_000_000, 200)]).unwrap();
    let output = client.get_pricing_quote(2_000_000, 25).unwrap();
    assert_eq!(output.base_apr_bps, 1000);
    assert_eq!(output.risk_premium_bps, 250);
    assert_eq!(output.tier_discount_bps, 200);
    assert_eq!(output.apr_bps, 1050);
}

#[test]
fn test_invalid_anomaly_score() {
    let mut client = setup();
    client.set_pricing_policy(ADMIN, create_default_policy()).unwrap();
    assert_eq!(client.get_pricing_quote(500_000, 101), Err(CurveError::InvalidAnomalyScore));
}

#[test]
fn test_pricing_with_disabled_policy() {
    let mut client = setup();
    let mut policy = create_default_policy();
    policy.enabled = false;
    client.set_pricing_policy(ADMIN, policy).unwrap();
    assert_eq!(client.get_pricing_quote(500_000, 10), Err(CurveError::PolicyDisabled));
}

#[test]
fn test_multiple_pricing_scenarios() {
    let mut client = setup();
    client.set_pricing_policy(ADMIN, create_default_policy()).unwrap();
    client
        .set_revenue_tiers(ADMIN, vec![tier(250_000, 50), tier(500_000, 100), tier(1_000_000, 200)])
        .unwrap();
    let output1 = client.calculate_pricing(100_000, 10, true, false).unwrap();
    assert_eq!(output1.tier_level, 0);
    assert_eq!(output1.apr_bps, 1100);
    let output2 = client.calculate_pricing(600_000, 30, true, false).unwrap();
    assert_eq!(output2.tier_level, 2);
    assert_eq!(output2.apr_bps, 1200);
    let output3 = client.calculate_pricing(2_000_000, 80, true, false).unwrap();
    assert_eq!(output3.tier_level, 3);
    assert_eq!(output3.apr_bps, 1600);
}

#[test]
fn test_edge_case_zero_revenue() {
    let mut client = setup();
    client.set_pricing_policy(ADMIN, create_default_policy()).unwrap();
    let output = client.calculate_pricing(0, 0, true, false).unwrap();
    assert_eq!(output.tier_level, 0);
    assert_eq!(output.apr_bps, 1000);
}

#[test]
fn test_edge_case_extreme_revenue() {
    let mut client = setup();
    client.set_pricing_policy(ADMIN, create_default_policy()).unwrap();
    client.set_revenue_tiers(ADMIN, vec![tier(1_000_000_000_000i128, 500)]).unwrap();
    let output = client.get_pricing_quote(10_000_000_000_000i128, 0).unwrap();
    assert_eq!(output.tier_level, 1);
    assert_eq!(output.apr_bps, 500);
}

#[test]
fn pricing_errors_in_order() {
    let mut fresh = RevenueCurveContract::new();
    assert_eq!(fresh.set_pricing_policy(ADMIN, create_default_policy()), Err(CurveError::NotInitialized));
    fresh.initialize(ADMIN).unwrap();
    assert_eq!(fresh.set_pricing_policy(9, create_default_policy()), Err(CurveError::NotAdmin));
    assert_eq!(fresh.calculate_pricing(1, 0, true, false), Err(CurveError::PolicyNotConfigured));
    fresh.set_pricing_policy(ADMIN, create_default_policy()).unwrap();
    assert_eq!(fresh.calculate_pricing(1, 0, true, false), Err(CurveError::AttestationContractNotSet));
    let mut steep = create_default_policy();
    steep.risk_premium_bps_per_point = u32::MAX;
    fresh.set_pricing_policy(ADMIN, steep).unwrap();
    assert_eq!(fresh.get_pricing_quote(1, 2), Err(CurveError::Overflow));
}

#[test]
fn largest_reached_discount_wins() {
    let mut client = setup();
    client.set_pricing_policy(ADMIN, create_default_policy()).unwrap();
    client.set_revenue_tiers(ADMIN, vec![tier(10, 400), tier(20, 100)]).unwrap();
    let output = client.get_pricing_quote(25, 0).unwrap();
    assert_eq!(output.tier_level, 1);
    assert_eq!(output.tier_discount_bps, 400);
    assert_eq!(output.apr_bps, 600);
}
