use veritasor::lender_access_list::{LenderAccessListContract, LenderError, LenderMetadata, LenderStatus};

const ADMIN: u64 = 1;

fn setup() -> LenderAccessListContract {
    let mut client = LenderAccessListContract::new();
    client.initialize(ADMIN).unwrap();
    client
}

fn meta(name: &str) -> LenderMetadata {
    LenderMetadata {
        name: String::from(name),
        url: String::from("https://example.com"),
        notes: String::from("notes"),
    }
}

#[test]
fn test_initialize_sets_admin_and_governance() {
    let client = setup();
    assert_eq!(client.get_admin(), Ok(ADMIN));
    assert!(client.has_governance(ADMIN));
    assert_eq!(client.get_all_lenders().len(), 0);
    assert!(!client.is_allowed(9, 1u32));
}

#[test]
fn test_initialize_twice_panics() {
    let mut client = setup();
    assert_eq!(client.initialize(ADMIN), Err(LenderError::AlreadyInitialized));
}

#[test]
fn test_admin_can_grant_and_revoke_governance() {
    let mut client = setup();
    let gov = 5u64;
    assert!(!client.has_governance(gov));
    client.grant_governance(ADMIN, gov).unwrap();
    assert!(client.has_governance(gov));
    client.revoke_governance(ADMIN, gov).unwrap();
    assert!(!client.has_governance(gov));
}

#[test]
fn test_non_admin_cannot_grant_governance() {
    let mut client = setup();
    assert_eq!(client.grant_governance(5, 6), Err(LenderError::NotAdmin));
}

#[test]
fn test_set_lender_and_queries() {
    let mut client = setup();
    let lender = 10u64;
    client.set_lender(ADMIN, lender, 1, meta("L1"), 50).unwrap();
    let record = client.get_lender(lender).unwrap();
    assert_eq!(record.address, lender);
    assert_eq!(record.tier, 1);
    assert_eq!(record.status, LenderStatus::Active);
    assert_eq!(record.added_at, 50);
    assert!(client.is_allowed(lender, 1u32));
    assert!(!client.is_allowed(lender, 2u32));
    assert_eq!(client.get_all_lenders().len(), 1);
    assert_eq!(client.get_active_lenders().len(), 1);
}

#[test]
fn test_tier_change_and_removal_scenarios() {
    let mut client = setup();
    let lender = 10u64;
    client.set_lender(ADMIN, lender, 1, meta("L1"), 50).unwrap();
    assert!(client.is_allowed(lender, 1u32));
    client.set_lender(ADMIN, lender, 3, meta("L1-updated"), 60).unwrap();
    assert!(client.is_allowed(lender, 2u32));
    assert_eq!(client.get_lender(lender).unwrap().added_at, 50);
    client.remove_lender(ADMIN, lender, 70).unwrap();
    assert!(!client.is_allowed(lender, 1u32));
    assert_eq!(client.get_active_lenders().len(), 0);
    client.set_lender(ADMIN, lender, 2, meta("L1-return"), 80).unwrap();
    assert!(client.is_allowed(lender, 2u32));
    assert_eq!(client.get_active_lenders().len(), 1);
    assert_eq!(client.get_all_lenders(), vec![lender]);
}

#[test]
fn test_non_governance_cannot_set_lender() {
    let mut client = setup();
    assert_eq!(client.set_lender(5, 10, 1, meta("L"), 1), Err(LenderError::NotGovernance));
}

#[test]
fn test_remove_missing_lender_panics() {
    let mut client = setup();
    assert_eq!(client.remove_lender(ADMIN, 10, 1), Err(LenderError::LenderNotFound));
}

#[test]
fn tier_zero_removes_access() {
    let mut client = setup();
    client.set_lender(ADMIN, 10, 0, meta("L"), 1).unwrap();
    assert_eq!(client.get_lender(10).unwrap().status, LenderStatus::Removed);
    assert!(client.is_allowed(10, 0));
    assert!(!client.is_allowed(10, 1));
}
