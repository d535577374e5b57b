use veritasor::governance_gating::{GovernanceConfig, GovernanceError, GovernanceGate};

const TOKEN: u64 = 1;

#[test]
fn no_governance_never_blocks() {
    let g = GovernanceGate::new();
    assert_eq!(g.get_governance_config(), None);
    assert_eq!(g.get_voting_power(5, 100), Ok(0));
    // Before governance is configured no address holds governance power.
    assert_eq!(g.has_governance_power(5, 100), Ok(false));
    assert_eq!(g.require_governance_threshold(5, 0), Ok(()));
    assert!(!g.is_governance_enabled());
}

#[test]
fn configuration() {
    let mut g = GovernanceGate::new();
    assert_eq!(g.set_governance_threshold(1), Err(GovernanceError::NotInitialized));
    assert_eq!(g.set_governance_enabled(true), Err(GovernanceError::NotInitialized));
    assert_eq!(g.initialize_governance(TOKEN, -1, true), Err(GovernanceError::NegativeThreshold));
    g.initialize_governance(TOKEN, 100, true).unwrap();
    assert_eq!(g.initialize_governance(TOKEN, 1, true), Err(GovernanceError::AlreadyInitialized));
    assert_eq!(g.get_governance_config(), Some(GovernanceConfig { token: TOKEN, threshold: 100, enabled: true }));
    g.set_governance_threshold(50).unwrap();
    g.set_governance_enabled(false).unwrap();
    assert_eq!(g.get_governance_config(), Some(GovernanceConfig { token: TOKEN, threshold: 50, enabled: false }));
    assert_eq!(g.require_governance_threshold(5, 0), Ok(()));
    // Disabled governance grants power to every address.
    assert_eq!(g.has_governance_power(5, 0), Ok(true));
}

#[test]
fn threshold_gates_operations() {
    let mut g = GovernanceGate::new();
    g.initialize_governance(TOKEN, 100, true).unwrap();
    assert_eq!(g.require_governance_threshold(5, 99), Err(GovernanceError::InsufficientPower));
    assert_eq!(g.require_governance_threshold(5, 100), Ok(()));
    assert_eq!(g.has_governance_power(5, 99), Ok(false));
    assert_eq!(g.has_governance_power(5, 100), Ok(true));
    assert_eq!(g.get_voting_power(5, i128::MAX), Ok(i128::MAX));
}

#[test]
fn delegation_moves_power() {
    let mut g = GovernanceGate::new();
    assert_eq!(g.delegate_voting_power(1, 2, 10), Err(GovernanceError::NotInitialized));
    g.initialize_governance(TOKEN, 100, true).unwrap();
    g.delegate_voting_power(1, 2, 60).unwrap();
    assert_eq!(g.get_delegate(1), Some(2));
    assert_eq!(g.get_voting_power(2, 50), Ok(110));
    assert_eq!(g.require_governance_threshold(2, 50), Ok(()));
    g.delegate_voting_power(1, 3, 60).unwrap();
    assert_eq!(g.get_voting_power(2, 0), Ok(0));
    assert_eq!(g.get_voting_power(3, 0), Ok(60));
    g.revoke_delegation(1, 60).unwrap();
    assert_eq!(g.get_delegate(1), None);
    assert_eq!(g.get_voting_power(3, 0), Ok(0));
    g.revoke_delegation(1, 60).unwrap();
    assert_eq!(g.get_voting_power(3, 0), Ok(0));
}

#[test]
fn redelegating_to_same_delegate_keeps_power() {
    let mut g = GovernanceGate::new();
    g.initialize_governance(TOKEN, 1, true).unwrap();
    g.delegate_voting_power(1, 2, 40).unwrap();
    g.delegate_voting_power(1, 2, 40).unwrap();
    assert_eq!(g.get_voting_power(2, 0), Ok(40));
}

#[test]
fn delegation_overflow_is_refused() {
    let mut g = GovernanceGate::new();
    g.initialize_governance(TOKEN, 1, true).unwrap();
    g.delegate_voting_power(1, 2, i128::MAX).unwrap();
    assert_eq!(g.delegate_voting_power(3, 2, 1), Err(GovernanceError::Overflow));
    assert_eq!(g.get_delegate(3), None);
    assert_eq!(g.get_voting_power(2, 1), Err(GovernanceError::Overflow));
}
