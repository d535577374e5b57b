use veritasor::multisig::{MultisigError, MultisigState, ProposalAction, ProposalStatus, DEFAULT_PROPOSAL_EXPIRY};

const OWNER1: u64 = 1;
const OWNER2: u64 = 2;
const OWNER3: u64 = 3;
const SEQ: u32 = 1000;

fn setup_with_multisig() -> MultisigState {
    let mut m = MultisigState::new();
    m.initialize_multisig(vec![OWNER1, OWNER2, OWNER3], 2).unwrap();
    m
}

#[test]
fn test_initialize_multisig() {
    let m = setup_with_multisig();
    assert_eq!(m.get_owners().len(), 3);
    assert_eq!(m.get_threshold(), 2);
    assert!(m.is_owner(OWNER1));
    assert!(m.is_owner(OWNER2));
    assert!(m.is_owner(OWNER3));
    assert!(m.is_multisig_initialized());
}

#[test]
fn test_non_owner_is_not_multisig_owner() {
    let m = setup_with_multisig();
    assert!(!m.is_owner(77));
}

#[test]
fn multisig_initialization_errors() {
    let mut m = MultisigState::new();
    assert_eq!(m.initialize_multisig(vec![], 1), Err(MultisigError::NoOwners));
    assert_eq!(m.initialize_multisig(vec![1], 0), Err(MultisigError::ZeroThreshold));
    assert_eq!(m.initialize_multisig(vec![1], 2), Err(MultisigError::ThresholdTooHigh));
    assert_eq!(m.initialize_multisig((1..=11).collect(), 1), Err(MultisigError::TooManyOwners));
    m.initialize_multisig(vec![1], 1).unwrap();
    assert_eq!(m.initialize_multisig(vec![1], 1), Err(MultisigError::AlreadyInitialized));
}

#[test]
fn test_create_proposal() {
    let mut m = setup_with_multisig();
    let id = m.create_proposal(OWNER1, ProposalAction::Pause, SEQ).unwrap();
    let p = m.get_proposal(id).unwrap();
    assert_eq!(p.status, ProposalStatus::Pending);
    assert_eq!(p.proposer, OWNER1);
    assert_eq!(p.created_at, SEQ);
}

#[test]
fn test_proposal_auto_approved_by_proposer() {
    let mut m = setup_with_multisig();
    let id = m.create_proposal(OWNER1, ProposalAction::Pause, SEQ).unwrap();
    assert_eq!(m.get_approval_count(id), 1);
    assert_eq!(m.get_approvals(id), vec![OWNER1]);
}

#[test]
fn test_non_owner_cannot_create_proposal() {
    let mut m = setup_with_multisig();
    assert_eq!(m.create_proposal(77, ProposalAction::Pause, SEQ), Err(MultisigError::CallerNotOwner));
}

#[test]
fn test_approve_proposal() {
    let mut m = setup_with_multisig();
    let id = m.create_proposal(OWNER1, ProposalAction::Pause, SEQ).unwrap();
    m.approve_proposal(OWNER2, id, SEQ).unwrap();
    assert_eq!(m.get_approval_count(id), 2);
    assert!(m.is_proposal_approved(id));
}

#[test]
fn test_cannot_approve_twice() {
    let mut m = setup_with_multisig();
    let id = m.create_proposal(OWNER1, ProposalAction::Pause, SEQ).unwrap();
    assert_eq!(m.approve_proposal(OWNER1, id, SEQ), Err(MultisigError::AlreadyApproved));
}

#[test]
fn test_non_owner_cannot_approve() {
    let mut m = setup_with_multisig();
    let id = m.create_proposal(OWNER1, ProposalAction::Pause, SEQ).unwrap();
    assert_eq!(m.approve_proposal(77, id, SEQ), Err(MultisigError::CallerNotOwner));
}

#[test]
fn test_proposer_can_reject() {
    let mut m = setup_with_multisig();
    let id = m.create_proposal(OWNER1, ProposalAction::Pause, SEQ).unwrap();
    m.reject_proposal(OWNER1, id).unwrap();
    assert_eq!(m.get_proposal(id).unwrap().status, ProposalStatus::Rejected);
}

#[test]
fn test_owner_can_reject() {
    let mut m = setup_with_multisig();
    let id = m.create_proposal(OWNER1, ProposalAction::Pause, SEQ).unwrap();
    m.reject_proposal(OWNER2, id).unwrap();
    assert_eq!(m.get_proposal(id).unwrap().status, ProposalStatus::Rejected);
}

#[test]
fn outsider_cannot_reject() {
    let mut m = setup_with_multisig();
    let id = m.create_proposal(OWNER1, ProposalAction::Pause, SEQ).unwrap();
    assert_eq!(m.reject_proposal(77, id), Err(MultisigError::NotProposerOrOwner));
}

#[test]
fn test_cannot_execute_without_threshold() {
    let mut m = setup_with_multisig();
    let id = m.create_proposal(OWNER1, ProposalAction::Pause, SEQ).unwrap();
    assert_eq!(m.mark_executed(id, SEQ), Err(MultisigError::NotApproved));
}

#[test]
fn executed_proposal_cannot_run_again() {
    let mut m = setup_with_multisig();
    let id = m.create_proposal(OWNER1, ProposalAction::Pause, SEQ).unwrap();
    m.approve_proposal(OWNER2, id, SEQ).unwrap();
    m.mark_executed(id, SEQ).unwrap();
    assert_eq!(m.get_proposal(id).unwrap().status, ProposalStatus::Executed);
    assert_eq!(m.mark_executed(id, SEQ), Err(MultisigError::NotPending));
}

#[test]
fn proposals_expire() {
    let mut m = setup_with_multisig();
    let id = m.create_proposal(OWNER1, ProposalAction::Pause, SEQ).unwrap();
    let last = SEQ + DEFAULT_PROPOSAL_EXPIRY;
    assert!(!m.is_proposal_expired(id, last));
    assert!(m.is_proposal_expired(id, last + 1));
    assert_eq!(m.approve_proposal(OWNER2, id, last + 1), Err(MultisigError::Expired));
    m.approve_proposal(OWNER2, id, last).unwrap();
    assert_eq!(m.mark_executed(id, last + 1), Err(MultisigError::Expired));
}

#[test]
fn test_proposal_ids_increment() {
    let mut m = setup_with_multisig();
    let id1 = m.create_proposal(OWNER1, ProposalAction::Pause, SEQ).unwrap();
    let id2 = m.create_proposal(OWNER1, ProposalAction::Unpause, SEQ).unwrap();
    let id3 = m.create_proposal(OWNER1, ProposalAction::Pause, SEQ).unwrap();
    assert_eq!(id1, 0);
    assert_eq!(id2, 1);
    assert_eq!(id3, 2);
}

#[test]
fn test_multiple_proposals_independent() {
    let mut m = setup_with_multisig();
    let pause_id = m.create_proposal(OWNER1, ProposalAction::Pause, SEQ).unwrap();
    let unpause_id = m.create_proposal(OWNER1, ProposalAction::Unpause, SEQ).unwrap();
    m.approve_proposal(OWNER2, pause_id, SEQ).unwrap();
    m.mark_executed(pause_id, SEQ).unwrap();
    assert_eq!(m.get_proposal(unpause_id).unwrap().status, ProposalStatus::Pending);
}

#[test]
fn test_cannot_approve_rejected_proposal() {
    let mut m = setup_with_multisig();
    let id = m.create_proposal(OWNER1, ProposalAction::Pause, SEQ).unwrap();
    m.reject_proposal(OWNER1, id).unwrap();
    assert_eq!(m.approve_proposal(OWNER2, id, SEQ), Err(MultisigError::NotPending));
}

#[test]
fn test_cannot_execute_rejected_proposal() {
    let mut m = setup_with_multisig();
    let id = m.create_proposal(OWNER1, ProposalAction::Pause, SEQ).unwrap();
    m.approve_proposal(OWNER2, id, SEQ).unwrap();
    m.reject_proposal(OWNER1, id).unwrap();
    assert_eq!(m.mark_executed(id, SEQ), Err(MultisigError::NotPending));
}

#[test]
fn test_threshold_of_one() {
    let mut m = MultisigState::new();
    m.initialize_multisig(vec![OWNER1], 1).unwrap();
    let id = m.create_proposal(OWNER1, ProposalAction::Pause, SEQ).unwrap();
    assert!(m.is_proposal_approved(id));
    m.mark_executed(id, SEQ).unwrap();
}

#[test]
fn test_full_threshold_approval() {
    let mut m = setup_with_multisig();
    let id = m.create_proposal(OWNER1, ProposalAction::Pause, SEQ).unwrap();
    m.approve_proposal(OWNER2, id, SEQ).unwrap();
    m.approve_proposal(OWNER3, id, SEQ).unwrap();
    assert_eq!(m.get_approval_count(id), 3);
    assert!(m.is_proposal_approved(id));
}

#[test]
fn owner_management() {
    let mut m = setup_with_multisig();
    assert_eq!(m.add_owner(OWNER2), Err(MultisigError::AlreadyOwner));
    m.add_owner(4).unwrap();
    assert!(m.is_owner(4));
    assert_eq!(m.get_owners().len(), 4);
    m.remove_owner(OWNER3).unwrap();
    assert!(!m.is_owner(OWNER3));
    assert_eq!(m.get_owners(), vec![OWNER1, OWNER2, 4]);
    assert_eq!(m.remove_owner(OWNER3), Err(MultisigError::NotAnOwner));
    m.set_threshold(3).unwrap();
    assert_eq!(m.remove_owner(4), Err(MultisigError::WouldViolateThreshold));
    assert_eq!(m.set_threshold(4), Err(MultisigError::ThresholdTooHigh));
    assert_eq!(m.set_threshold(0), Err(MultisigError::ZeroThreshold));
    assert_eq!(m.require_owner(OWNER1), Ok(()));
    assert_eq!(m.require_owner(9), Err(MultisigError::CallerNotOwner));
}

#[test]
fn owner_list_capped_at_ten() {
    let mut m = MultisigState::new();
    m.initialize_multisig((1..=10).collect(), 1).unwrap();
    assert_eq!(m.add_owner(11), Err(MultisigError::TooManyOwners));
    assert_eq!(m.set_owners(vec![]), Err(MultisigError::NoOwners));
    assert_eq!(m.set_owners((1..=11).collect()), Err(MultisigError::TooManyOwners));
    m.set_owners(vec![5, 6]).unwrap();
    assert_eq!(m.get_owners(), vec![5, 6]);
}

use veritasor::access_control::{AccessControl, ROLE_ADMIN};

/// Execute an approved proposal on behalf of `executor` and apply its
/// action to the role table and the owner set.
fn execute(m: &mut MultisigState, ac: &mut AccessControl, executor: u64, id: u64) -> Result<(), MultisigError> {
    m.require_owner(executor)?;
    let action = m.get_proposal(id).ok_or(MultisigError::ProposalNotFound)?.action;
    m.mark_executed(id, SEQ)?;
    match action {
        ProposalAction::Pause => ac.set_paused(true),
        ProposalAction::Unpause => ac.set_paused(false),
        ProposalAction::AddOwner(a) => m.add_owner(a)?,
        ProposalAction::RemoveOwner(a) => m.remove_owner(a)?,
        ProposalAction::ChangeThreshold(t) => m.set_threshold(t)?,
        ProposalAction::GrantRole(a, r) => ac.grant_role(a, r),
        ProposalAction::RevokeRole(a, r) => ac.revoke_role(a, r),
        ProposalAction::UpdateFeeConfig(..) => {}
    }
    Ok(())
}

#[test]
fn test_execute_pause_proposal() {
    let mut m = setup_with_multisig();
    let mut ac = AccessControl::new();
    let id = m.create_proposal(OWNER1, ProposalAction::Pause, SEQ).unwrap();
    m.approve_proposal(OWNER2, id, SEQ).unwrap();
    assert!(!ac.is_paused());
    execute(&mut m, &mut ac, OWNER1, id).unwrap();
    assert!(ac.is_paused());
    assert_eq!(m.get_proposal(id).unwrap().status, ProposalStatus::Executed);
}

#[test]
fn test_execute_unpause_proposal() {
    let mut m = setup_with_multisig();
    let mut ac = AccessControl::new();
    ac.set_paused(true);
    assert!(ac.is_paused());
    let id = m.create_proposal(OWNER1, ProposalAction::Unpause, SEQ).unwrap();
    m.approve_proposal(OWNER2, id, SEQ).unwrap();
    execute(&mut m, &mut ac, OWNER1, id).unwrap();
    assert!(!ac.is_paused());
}

#[test]
fn test_execute_grant_role_proposal() {
    let mut m = setup_with_multisig();
    let mut ac = AccessControl::new();
    let target = 50;
    let id = m.create_proposal(OWNER1, ProposalAction::GrantRole(target, ROLE_ADMIN), SEQ).unwrap();
    m.approve_proposal(OWNER2, id, SEQ).unwrap();
    execute(&mut m, &mut ac, OWNER1, id).unwrap();
    assert!(ac.has_role(target, ROLE_ADMIN));
}

#[test]
fn test_execute_change_threshold_proposal() {
    let mut m = setup_with_multisig();
    let mut ac = AccessControl::new();
    assert_eq!(m.get_threshold(), 2);
    let id = m.create_proposal(OWNER1, ProposalAction::ChangeThreshold(1), SEQ).unwrap();
    m.approve_proposal(OWNER2, id, SEQ).unwrap();
    assert!(m.is_proposal_approved(id));
    execute(&mut m, &mut ac, OWNER1, id).unwrap();
    assert_eq!(m.get_threshold(), 1);
}

#[test]
fn test_execute_add_owner_proposal() {
    let mut m = setup_with_multisig();
    let mut ac = AccessControl::new();
    let new_owner = 50;
    let id = m.create_proposal(OWNER1, ProposalAction::AddOwner(new_owner), SEQ).unwrap();
    m.approve_proposal(OWNER2, id, SEQ).unwrap();
    execute(&mut m, &mut ac, OWNER1, id).unwrap();
    assert!(m.is_owner(new_owner));
    assert_eq!(m.get_owners().len(), 4);
}

#[test]
fn test_execute_remove_owner_proposal() {
    let mut m = setup_with_multisig();
    let mut ac = AccessControl::new();
    let id = m.create_proposal(OWNER1, ProposalAction::RemoveOwner(OWNER3), SEQ).unwrap();
    m.approve_proposal(OWNER2, id, SEQ).unwrap();
    execute(&mut m, &mut ac, OWNER1, id).unwrap();
    assert!(!m.is_owner(OWNER3));
    assert_eq!(m.get_owners().len(), 2);
}

#[test]
fn test_non_owner_cannot_execute() {
    let mut m = setup_with_multisig();
    let mut ac = AccessControl::new();
    let id = m.create_proposal(OWNER1, ProposalAction::Pause, SEQ).unwrap();
    m.approve_proposal(OWNER2, id, SEQ).unwrap();
    assert_eq!(execute(&mut m, &mut ac, 77, id), Err(MultisigError::CallerNotOwner));
    assert!(!ac.is_paused());
}
