use veritasor::extended_metadata::{validate_currency_code, validate_metadata, MetadataError, MetadataStore};

#[test]
fn currency_code_rules() {
    assert_eq!(validate_currency_code(&String::from("USD")), Ok(()));
    assert_eq!(validate_currency_code(&String::from("EU")), Ok(()));
    assert_eq!(validate_currency_code(&String::from("")), Err(MetadataError::EmptyCurrencyCode));
    assert_eq!(validate_currency_code(&String::from("USDT")), Err(MetadataError::CurrencyCodeTooLong));
    // Length counts bytes: two characters of two bytes each are too long.
    assert_eq!(validate_currency_code(&String::from("€€")), Err(MetadataError::CurrencyCodeTooLong));
}

#[test]
fn metadata_storage() {
    let mut store = MetadataStore::new();
    let m = validate_metadata(&String::from("EUR"), true).unwrap();
    assert_eq!(m.currency_code, String::from("EUR"));
    assert!(m.is_net);
    assert!(!store.has_metadata(1, String::from("2026-01")));
    store.set_metadata(1, String::from("2026-01"), m);
    assert!(store.has_metadata(1, String::from("2026-01")));
    assert!(!store.has_metadata(1, String::from("2026-02")));
    let got = store.get_metadata(1, String::from("2026-01")).unwrap();
    assert_eq!(got.currency_code, String::from("EUR"));
    assert_eq!(validate_metadata(&String::from("LONG"), false), Err(MetadataError::CurrencyCodeTooLong));
}

use veritasor::attestation::AttestationContract;

/// An attestation contract with its metadata beside it.
struct Contract {
    attestations: AttestationContract,
    metadata: MetadataStore,
}

fn setup() -> Contract {
    let mut attestations = AttestationContract::new();
    attestations.initialize(100).unwrap();
    Contract { attestations, metadata: MetadataStore::new() }
}

fn submit(c: &mut Contract, business: u64, period: &str, root: [u8; 32], timestamp: u64) {
    c.attestations.submit_attestation(business, String::from(period), root, timestamp, 1).unwrap();
}

/// Submit an attestation together with its currency and basis.
fn submit_with_metadata(
    c: &mut Contract,
    business: u64,
    period: &str,
    root: [u8; 32],
    timestamp: u64,
    currency: &str,
    is_net: bool,
) -> Result<(), MetadataError> {
    let m = validate_metadata(&String::from(currency), is_net)?;
    submit(c, business, period, root, timestamp);
    c.metadata.set_metadata(business, String::from(period), m);
    Ok(())
}

#[test]
fn test_submit_without_metadata_backward_compat() {
    let mut c = setup();
    submit(&mut c, 1, "2026-02", [1u8; 32], 1_700_000_000);
    let att = c.attestations.get_attestation(1, String::from("2026-02")).unwrap();
    assert_eq!(att.0, [1u8; 32]);
    assert!(c.metadata.get_metadata(1, String::from("2026-02")).is_none());
}

#[test]
fn test_submit_with_metadata() {
    let mut c = setup();
    submit_with_metadata(&mut c, 1, "2026-02", [1u8; 32], 1_700_000_000, "USD", true).unwrap();
    let meta = c.metadata.get_metadata(1, String::from("2026-02")).unwrap();
    assert_eq!(meta.currency_code, "USD");
    assert!(meta.is_net);
}

#[test]
fn test_get_attestation_metadata_gross() {
    let mut c = setup();
    submit_with_metadata(&mut c, 1, "2026-Q1", [2u8; 32], 1_700_000_000, "EUR", false).unwrap();
    let meta = c.metadata.get_metadata(1, String::from("2026-Q1")).unwrap();
    assert_eq!(meta.currency_code, "EUR");
    assert!(!meta.is_net);
}

#[test]
fn test_currency_code_validation_three_chars() {
    let mut c = setup();
    submit_with_metadata(&mut c, 1, "2026-02", [1u8; 32], 1_700_000_000, "GBP", true).unwrap();
    let meta = c.metadata.get_metadata(1, String::from("2026-02")).unwrap();
    assert_eq!(meta.currency_code, "GBP");
}

#[test]
fn test_currency_code_empty_panics() {
    let mut c = setup();
    let r = submit_with_metadata(&mut c, 1, "2026-02", [1u8; 32], 1_700_000_000, "", true);
    assert_eq!(r, Err(MetadataError::EmptyCurrencyCode));
    assert!(c.attestations.get_attestation(1, String::from("2026-02")).is_none());
}

#[test]
fn test_currency_code_too_long_panics() {
    let mut c = setup();
    let r = submit_with_metadata(&mut c, 1, "2026-02", [1u8; 32], 1_700_000_000, "USDC", true);
    assert_eq!(r, Err(MetadataError::CurrencyCodeTooLong));
    assert!(c.attestations.get_attestation(1, String::from("2026-02")).is_none());
}

#[test]
fn test_currency_code_three_chars_allowed() {
    let mut c = setup();
    submit_with_metadata(&mut c, 1, "2026-02", [1u8; 32], 1_700_000_000, "USD", true).unwrap();
    let meta = c.metadata.get_metadata(1, String::from("2026-02")).unwrap();
    assert_eq!(meta.currency_code, "USD");
}

#[test]
fn test_metadata_missing_for_old_attestation() {
    let mut c = setup();
    submit(&mut c, 1, "2026-01", [1u8; 32], 1_700_000_000);
    assert!(c.attestations.get_attestation(1, String::from("2026-01")).is_some());
    assert!(c.metadata.get_metadata(1, String::from("2026-01")).is_none());
}

#[test]
fn test_multiple_attestations_different_metadata() {
    let mut c = setup();
    submit_with_metadata(&mut c, 1, "2026-01", [1u8; 32], 1, "USD", true).unwrap();
    submit_with_metadata(&mut c, 1, "2026-02", [1u8; 32], 2, "EUR", false).unwrap();
    let m1 = c.metadata.get_metadata(1, String::from("2026-01")).unwrap();
    let m2 = c.metadata.get_metadata(1, String::from("2026-02")).unwrap();
    assert_eq!(m1.currency_code, "USD");
    assert_eq!(m2.currency_code, "EUR");
    assert!(m1.is_net);
    assert!(!m2.is_net);
}

#[test]
fn test_verify_attestation_unchanged_with_metadata() {
    let mut c = setup();
    submit_with_metadata(&mut c, 1, "2026-02", [1u8; 32], 1_700_000_000, "USD", true).unwrap();
    assert!(c.attestations.verify_attestation(1, String::from("2026-02"), [1u8; 32]));
}
