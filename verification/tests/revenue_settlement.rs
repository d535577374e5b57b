use veritasor::revenue_settlement::{
    compute_repayment, RevenueSettlementContract, SettlementError, STATUS_COMPLETED, STATUS_DEFAULTED,
};

const ADMIN: u64 = 1;
const LENDER: u64 = 2;
const BUSINESS: u64 = 3;
const ATTESTATION: u64 = 4;
const TOKEN: u64 = 5;

fn setup() -> (RevenueSettlementContract, u64) {
    let mut c = RevenueSettlementContract::new();
    c.initialize(ADMIN).unwrap();
    // 10 % share, threshold 1 000, cap 50 000.
    let id = c
        .create_agreement(LENDER, BUSINESS, 100_000, 1_000, 1_000, 50_000, ATTESTATION, TOKEN, 77)
        .unwrap();
    (c, id)
}

#[test]
fn repayment_formula_values() {
    assert_eq!(compute_repayment(100_000, 1_000, 1_000, 50_000), 10_000);
    assert_eq!(compute_repayment(999, 1_000, 1_000, 50_000), 0);
    assert_eq!(compute_repayment(1_000_000, 1_000, 1_000, 50_000), 50_000);
    assert_eq!(compute_repayment(12_345, 2_500, 0, i128::MAX), 3_086);
    assert_eq!(compute_repayment(i128::MAX, 10_000, 0, i128::MAX), (u128::MAX / 10_000) as i128);
}

#[test]
fn settle_transfers_share_once() {
    let (mut c, id) = setup();
    let period = String::from("2026-Q1");
    let t = c.settle(id, period.clone(), 100_000, true, false, 500).unwrap().unwrap();
    assert_eq!((t.token, t.from, t.to, t.amount), (TOKEN, BUSINESS, LENDER, 10_000));
    let rec = c.get_settlement(id, period.clone()).unwrap();
    assert_eq!(rec.repayment_amount, 10_000);
    assert_eq!(rec.amount_transferred, 10_000);
    assert_eq!(rec.settled_at, 500);
    assert_eq!(c.get_committed(id, period.clone()), 10_000);
    assert_eq!(c.settle(id, period, 100_000, true, false, 501), Err(SettlementError::AlreadySettled));
}

#[test]
fn settle_below_threshold_records_zero() {
    let (mut c, id) = setup();
    assert_eq!(c.settle(id, String::from("p"), 10, true, false, 1), Ok(None));
    assert_eq!(c.get_settlement(id, String::from("p")).unwrap().repayment_amount, 0);
}

#[test]
fn settle_errors() {
    let (mut c, id) = setup();
    let p = || String::from("p");
    assert_eq!(c.settle(99, p(), 1, true, false, 1), Err(SettlementError::AgreementNotFound));
    assert_eq!(c.settle(id, p(), -1, true, false, 1), Err(SettlementError::NegativeRevenue));
    assert_eq!(c.settle(id, p(), 1, false, false, 1), Err(SettlementError::AttestationNotFound));
    assert_eq!(c.settle(id, p(), 1, true, true, 1), Err(SettlementError::AttestationRevoked));
    c.mark_defaulted(ADMIN, id).unwrap();
    assert_eq!(c.get_agreement(id).unwrap().status, STATUS_DEFAULTED);
    assert_eq!(c.settle(id, p(), 1, true, false, 1), Err(SettlementError::AgreementNotActive));
}

#[test]
fn agreement_creation_checks() {
    let mut c = RevenueSettlementContract::new();
    let a = |c: &mut RevenueSettlementContract, principal, share, thr, cap, biz| {
        c.create_agreement(LENDER, biz, principal, share, thr, cap, ATTESTATION, TOKEN, 0)
    };
    assert_eq!(a(&mut c, 0, 1, 0, 1, BUSINESS), Err(SettlementError::PrincipalNotPositive));
    assert_eq!(a(&mut c, 1, 10_001, 0, 1, BUSINESS), Err(SettlementError::RevenueShareTooHigh));
    assert_eq!(a(&mut c, 1, 1, -1, 1, BUSINESS), Err(SettlementError::NegativeRevenueThreshold));
    assert_eq!(a(&mut c, 1, 1, 0, 0, BUSINESS), Err(SettlementError::MaxRepaymentNotPositive));
    assert_eq!(a(&mut c, 1, 1, 0, 1, LENDER), Err(SettlementError::SameParty));
    assert_eq!(a(&mut c, 1, 1, 0, 1, BUSINESS), Ok(0));
    assert_eq!(a(&mut c, 1, 1, 0, 1, BUSINESS), Ok(1));
    let ag = c.get_agreement(1).unwrap();
    assert_eq!((ag.id, ag.lender, ag.business, ag.status), (1, LENDER, BUSINESS, 0));
}

#[test]
fn only_admin_closes_agreements() {
    let (mut c, id) = setup();
    assert_eq!(c.mark_completed(LENDER, id), Err(SettlementError::Unauthorized));
    c.mark_completed(ADMIN, id).unwrap();
    assert_eq!(c.get_agreement(id).unwrap().status, STATUS_COMPLETED);
    assert_eq!(c.get_admin(), Ok(ADMIN));
    assert_eq!(c.initialize(LENDER), Err(SettlementError::AlreadyInitialized));
}

#[test]
fn closed_agreement_stays_closed() {
    let (mut c, id) = setup();
    c.mark_completed(ADMIN, id).unwrap();
    let p = String::from("2026-Q2");
    assert_eq!(c.settle(id, p.clone(), 100_000, true, false, 1), Err(SettlementError::AgreementNotActive));
    assert_eq!(c.mark_defaulted(ADMIN, id), Err(SettlementError::AgreementNotActive));
    assert_eq!(c.mark_completed(ADMIN, id), Err(SettlementError::AgreementNotActive));
    assert_eq!(c.get_agreement(id).unwrap().status, STATUS_COMPLETED);
    assert!(c.get_settlement(id, p).is_none());
}

#[test]
fn attestation_lookup_only_when_reached() {
    let (mut c, id) = setup();
    let p = String::from("2026-Q3");
    assert!(c.needs_attestation_check(id, p.clone(), 100));
    assert!(!c.needs_attestation_check(id, p.clone(), -1));
    assert!(!c.needs_attestation_check(id + 1, p.clone(), 100));
    c.settle(id, p.clone(), 100, true, false, 1).unwrap();
    assert!(!c.needs_attestation_check(id, p, 100));
    c.mark_completed(ADMIN, id).unwrap();
    assert!(!c.needs_attestation_check(id, String::from("2026-Q4"), 100));
}
