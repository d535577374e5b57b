use veritasor::integration_registry::{
    IntegrationError, IntegrationRegistryContract, ProviderMetadata, ProviderStatus,
};

const ADMIN: u64 = 1;
const SEQ: u32 = 100;

fn s(x: &str) -> String {
    String::from(x)
}

fn setup() -> IntegrationRegistryContract {
    let mut client = IntegrationRegistryContract::new();
    client.initialize(ADMIN).unwrap();
    client
}

fn sample_metadata() -> ProviderMetadata {
    ProviderMetadata {
        name: s("Stripe"),
        description: s("Payment processing platform"),
        api_version: s("v1"),
        docs_url: s("https://stripe.com/docs"),
        category: s("payment"),
    }
}

#[test]
fn registry_initialize() {
    let client = setup();
    assert_eq!(client.get_admin(), Ok(ADMIN));
    assert!(client.has_governance(ADMIN));
}

#[test]
fn test_test_initialize_twice_panics() {
    let mut client = setup();
    assert_eq!(client.initialize(2), Err(IntegrationError::AlreadyInitialized));
}

#[test]
fn test_register_provider() {
    let mut client = setup();
    let metadata = sample_metadata();
    client.register_provider(ADMIN, s("stripe"), sample_metadata(), SEQ).unwrap();
    let provider = client.get_provider(s("stripe")).unwrap();
    assert_eq!(provider.id, s("stripe"));
    assert_eq!(provider.status, ProviderStatus::Registered);
    assert_eq!(provider.metadata.name, metadata.name);
    assert_eq!(provider.registered_at, SEQ);
    assert_eq!(provider.registered_by, ADMIN);
}

#[test]
fn test_register_duplicate_provider_panics() {
    let mut client = setup();
    client.register_provider(ADMIN, s("stripe"), sample_metadata(), SEQ).unwrap();
    assert_eq!(
        client.register_provider(ADMIN, s("stripe"), sample_metadata(), SEQ),
        Err(IntegrationError::AlreadyRegistered)
    );
}

#[test]
fn test_register_without_governance_panics() {
    let mut client = setup();
    assert_eq!(
        client.register_provider(7, s("stripe"), sample_metadata(), SEQ),
        Err(IntegrationError::NotGovernance)
    );
}

#[test]
fn test_enable_provider() {
    let mut client = setup();
    client.register_provider(ADMIN, s("stripe"), sample_metadata(), SEQ).unwrap();
    assert!(!client.is_enabled(s("stripe")));
    client.enable_provider(ADMIN, s("stripe"), SEQ + 1).unwrap();
    assert!(client.is_enabled(s("stripe")));
    assert!(client.is_valid_for_attestation(s("stripe")));
    assert_eq!(client.get_provider(s("stripe")).unwrap().updated_at, SEQ + 1);
}

#[test]
fn test_deprecate_provider() {
    let mut client = setup();
    client.register_provider(ADMIN, s("stripe"), sample_metadata(), SEQ).unwrap();
    client.enable_provider(ADMIN, s("stripe"), SEQ).unwrap();
    client.deprecate_provider(ADMIN, s("stripe"), SEQ).unwrap();
    assert!(client.is_deprecated(s("stripe")));
    assert!(!client.is_enabled(s("stripe")));
    assert!(client.is_valid_for_attestation(s("stripe")));
}

#[test]
fn test_disable_provider() {
    let mut client = setup();
    client.register_provider(ADMIN, s("stripe"), sample_metadata(), SEQ).unwrap();
    client.enable_provider(ADMIN, s("stripe"), SEQ).unwrap();
    client.disable_provider(ADMIN, s("stripe"), SEQ).unwrap();
    assert!(!client.is_enabled(s("stripe")));
    assert!(!client.is_valid_for_attestation(s("stripe")));
    assert_eq!(client.get_provider(s("stripe")).unwrap().status, ProviderStatus::Disabled);
}

#[test]
fn test_re_enable_deprecated_provider() {
    let mut client = setup();
    client.register_provider(ADMIN, s("stripe"), sample_metadata(), SEQ).unwrap();
    client.enable_provider(ADMIN, s("stripe"), SEQ).unwrap();
    client.deprecate_provider(ADMIN, s("stripe"), SEQ).unwrap();
    client.enable_provider(ADMIN, s("stripe"), SEQ).unwrap();
    assert!(client.is_enabled(s("stripe")));
}

#[test]
fn test_re_enable_disabled_provider() {
    let mut client = setup();
    client.register_provider(ADMIN, s("stripe"), sample_metadata(), SEQ).unwrap();
    client.enable_provider(ADMIN, s("stripe"), SEQ).unwrap();
    client.disable_provider(ADMIN, s("stripe"), SEQ).unwrap();
    client.enable_provider(ADMIN, s("stripe"), SEQ).unwrap();
    assert!(client.is_enabled(s("stripe")));
}

#[test]
fn test_deprecate_registered_provider_panics() {
    let mut client = setup();
    client.register_provider(ADMIN, s("stripe"), sample_metadata(), SEQ).unwrap();
    assert_eq!(client.deprecate_provider(ADMIN, s("stripe"), SEQ), Err(IntegrationError::NotEnabled));
}

#[test]
fn test_disable_already_disabled_panics() {
    let mut client = setup();
    client.register_provider(ADMIN, s("stripe"), sample_metadata(), SEQ).unwrap();
    client.enable_provider(ADMIN, s("stripe"), SEQ).unwrap();
    client.disable_provider(ADMIN, s("stripe"), SEQ).unwrap();
    assert_eq!(client.disable_provider(ADMIN, s("stripe"), SEQ), Err(IntegrationError::AlreadyDisabled));
}

#[test]
fn enable_enabled_provider_is_refused() {
    let mut client = setup();
    client.register_provider(ADMIN, s("stripe"), sample_metadata(), SEQ).unwrap();
    client.enable_provider(ADMIN, s("stripe"), SEQ).unwrap();
    assert_eq!(client.enable_provider(ADMIN, s("stripe"), SEQ), Err(IntegrationError::CannotEnable));
    assert_eq!(client.enable_provider(ADMIN, s("nope"), SEQ), Err(IntegrationError::ProviderNotFound));
    assert_eq!(client.enable_provider(9, s("stripe"), SEQ), Err(IntegrationError::NotGovernance));
}

#[test]
fn test_update_metadata() {
    let mut client = setup();
    client.register_provider(ADMIN, s("stripe"), sample_metadata(), SEQ).unwrap();
    let new_metadata = ProviderMetadata {
        name: s("Stripe v2"),
        description: s("Updated payment processing"),
        api_version: s("v2"),
        docs_url: s("https://stripe.com/docs/v2"),
        category: s("payment"),
    };
    client
        .update_metadata(
            ADMIN,
            s("stripe"),
            ProviderMetadata {
                name: s("Stripe v2"),
                description: s("Updated payment processing"),
                api_version: s("v2"),
                docs_url: s("https://stripe.com/docs/v2"),
                category: s("payment"),
            },
            SEQ + 5,
        )
        .unwrap();
    let provider = client.get_provider(s("stripe")).unwrap();
    assert_eq!(provider.metadata.name, new_metadata.name);
    assert_eq!(provider.metadata.api_version, new_metadata.api_version);
    assert_eq!(provider.updated_at, SEQ + 5);
}

#[test]
fn test_update_nonexistent_provider_panics() {
    let mut client = setup();
    assert_eq!(
        client.update_metadata(ADMIN, s("nonexistent"), sample_metadata(), SEQ),
        Err(IntegrationError::ProviderNotFound)
    );
}

#[test]
fn test_get_all_providers() {
    let mut client = setup();
    client.register_provider(ADMIN, s("stripe"), sample_metadata(), SEQ).unwrap();
    client.register_provider(ADMIN, s("shopify"), sample_metadata(), SEQ).unwrap();
    client.register_provider(ADMIN, s("quickbooks"), sample_metadata(), SEQ).unwrap();
    let all = client.get_all_providers();
    assert_eq!(all.len(), 3);
    assert_eq!(all, vec![s("stripe"), s("shopify"), s("quickbooks")]);
}

#[test]
fn test_get_enabled_providers() {
    let mut client = setup();
    client.register_provider(ADMIN, s("stripe"), sample_metadata(), SEQ).unwrap();
    client.register_provider(ADMIN, s("shopify"), sample_metadata(), SEQ).unwrap();
    client.register_provider(ADMIN, s("quickbooks"), sample_metadata(), SEQ).unwrap();
    client.enable_provider(ADMIN, s("stripe"), SEQ).unwrap();
    client.enable_provider(ADMIN, s("shopify"), SEQ).unwrap();
    let enabled = client.get_enabled_providers();
    assert_eq!(enabled.len(), 2);
    assert_eq!(enabled, vec![s("stripe"), s("shopify")]);
}

#[test]
fn test_get_deprecated_providers() {
    let mut client = setup();
    client.register_provider(ADMIN, s("stripe"), sample_metadata(), SEQ).unwrap();
    client.register_provider(ADMIN, s("shopify"), sample_metadata(), SEQ).unwrap();
    client.enable_provider(ADMIN, s("stripe"), SEQ).unwrap();
    client.enable_provider(ADMIN, s("shopify"), SEQ).unwrap();
    client.deprecate_provider(ADMIN, s("stripe"), SEQ).unwrap();
    let deprecated = client.get_deprecated_providers();
    assert_eq!(deprecated.len(), 1);
    assert_eq!(deprecated, vec![s("stripe")]);
}

#[test]
fn test_get_status() {
    let mut client = setup();
    assert!(client.get_status(s("stripe")).is_none());
    client.register_provider(ADMIN, s("stripe"), sample_metadata(), SEQ).unwrap();
    assert_eq!(client.get_status(s("stripe")), Some(ProviderStatus::Registered));
    client.enable_provider(ADMIN, s("stripe"), SEQ).unwrap();
    assert_eq!(client.get_status(s("stripe")), Some(ProviderStatus::Enabled));
    client.deprecate_provider(ADMIN, s("stripe"), SEQ).unwrap();
    assert_eq!(client.get_status(s("stripe")), Some(ProviderStatus::Deprecated));
    client.disable_provider(ADMIN, s("stripe"), SEQ).unwrap();
    assert_eq!(client.get_status(s("stripe")), Some(ProviderStatus::Disabled));
}

#[test]
fn test_is_valid_for_attestation() {
    let mut client = setup();
    assert!(!client.is_valid_for_attestation(s("stripe")));
    client.register_provider(ADMIN, s("stripe"), sample_metadata(), SEQ).unwrap();
    assert!(!client.is_valid_for_attestation(s("stripe")));
    client.enable_provider(ADMIN, s("stripe"), SEQ).unwrap();
    assert!(client.is_valid_for_attestation(s("stripe")));
    client.deprecate_provider(ADMIN, s("stripe"), SEQ).unwrap();
    assert!(client.is_valid_for_attestation(s("stripe")));
    client.disable_provider(ADMIN, s("stripe"), SEQ).unwrap();
    assert!(!client.is_valid_for_attestation(s("stripe")));
}

#[test]
fn test_grant_governance() {
    let mut client = setup();
    let new_gov = 5u64;
    assert!(!client.has_governance(new_gov));
    client.grant_governance(ADMIN, new_gov).unwrap();
    assert!(client.has_governance(new_gov));
    client.register_provider(new_gov, s("stripe"), sample_metadata(), SEQ).unwrap();
}

#[test]
fn test_revoke_governance() {
    let mut client = setup();
    let new_gov = 5u64;
    client.grant_governance(ADMIN, new_gov).unwrap();
    assert!(client.has_governance(new_gov));
    client.revoke_governance(ADMIN, new_gov).unwrap();
    assert!(!client.has_governance(new_gov));
}

#[test]
fn test_grant_governance_non_admin_panics() {
    let mut client = setup();
    assert_eq!(client.grant_governance(5, 6), Err(IntegrationError::NotAdmin));
}

#[test]
fn test_provider_not_found() {
    let client = setup();
    assert!(client.get_provider(s("nonexistent")).is_none());
    assert!(!client.is_enabled(s("nonexistent")));
    assert!(!client.is_deprecated(s("nonexistent")));
    assert!(!client.is_valid_for_attestation(s("nonexistent")));
}

#[test]
fn test_empty_provider_list() {
    let client = setup();
    assert_eq!(client.get_all_providers().len(), 0);
    assert_eq!(client.get_enabled_providers().len(), 0);
    assert_eq!(client.get_deprecated_providers().len(), 0);
}

#[test]
fn test_full_lifecycle() {
    let mut client = setup();
    client.register_provider(ADMIN, s("stripe"), sample_metadata(), SEQ).unwrap();
    assert_eq!(client.get_status(s("stripe")), Some(ProviderStatus::Registered));
    client.enable_provider(ADMIN, s("stripe"), SEQ).unwrap();
    assert_eq!(client.get_status(s("stripe")), Some(ProviderStatus::Enabled));
    client.deprecate_provider(ADMIN, s("stripe"), SEQ).unwrap();
    assert_eq!(client.get_status(s("stripe")), Some(ProviderStatus::Deprecated));
    client.enable_provider(ADMIN, s("stripe"), SEQ).unwrap();
    assert_eq!(client.get_status(s("stripe")), Some(ProviderStatus::Enabled));
    client.disable_provider(ADMIN, s("stripe"), SEQ).unwrap();
    assert_eq!(client.get_status(s("stripe")), Some(ProviderStatus::Disabled));
    client.enable_provider(ADMIN, s("stripe"), SEQ).unwrap();
    assert_eq!(client.get_status(s("stripe")), Some(ProviderStatus::Enabled));
}

#[test]
fn test_multiple_categories() {
    let mut client = setup();
    let meta = |name: &str, desc: &str, v: &str, url: &str, cat: &str| ProviderMetadata {
        name: s(name),
        description: s(desc),
        api_version: s(v),
        docs_url: s(url),
        category: s(cat),
    };
    client
        .register_provider(ADMIN, s("stripe"), meta("Stripe", "Payment processing", "v1", "https://stripe.com/docs", "payment"), SEQ)
        .unwrap();
    client
        .register_provider(ADMIN, s("shopify"), meta("Shopify", "E-commerce platform", "v1", "https://shopify.dev/docs", "ecommerce"), SEQ)
        .unwrap();
    client
        .register_provider(ADMIN, s("quickbooks"), meta("QuickBooks", "Accounting software", "v3", "https://developer.intuit.com", "accounting"), SEQ)
        .unwrap();
    assert_eq!(client.get_provider(s("stripe")).unwrap().metadata.category, s("payment"));
    assert_eq!(client.get_provider(s("shopify")).unwrap().metadata.category, s("ecommerce"));
    assert_eq!(client.get_provider(s("quickbooks")).unwrap().metadata.category, s("accounting"));
}

#[test]
fn invariant_registry_single_initialization() {
    let mut client = IntegrationRegistryContract::new();
    client.initialize(ADMIN).unwrap();
    assert_eq!(client.get_admin(), Ok(ADMIN));
    assert_eq!(client.initialize(9), Err(IntegrationError::AlreadyInitialized));
    assert_eq!(client.get_admin(), Ok(ADMIN));
}

#[test]
fn invariant_registry_unauthorized_cannot_register() {
    let mut client = setup();
    let non_gov = 9;
    assert_eq!(
        client.register_provider(non_gov, s("stripe"), sample_metadata(), SEQ),
        Err(IntegrationError::NotGovernance)
    );
    assert!(client.get_provider(s("stripe")).is_none());
}
