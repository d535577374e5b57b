use veritasor::key_rotation::{
    KeyRotationKey, KeyRotationState, RotationConfig, RotationError, RotationStatus,
    DEFAULT_CONFIRMATION_WINDOW, DEFAULT_COOLDOWN_LEDGERS, DEFAULT_TIMELOCK_LEDGERS, MAX_ROTATION_HISTORY,
};

const OLD: u64 = 1;
const NEW: u64 = 2;

fn configured() -> KeyRotationState {
    let mut s = KeyRotationState::new();
    s.set_rotation_config(RotationConfig { timelock_ledgers: 10, confirmation_window_ledgers: 20, cooldown_ledgers: 5 })
        .unwrap();
    s
}

#[test]
fn defaults_apply_without_config() {
    let s = KeyRotationState::new();
    let c = s.get_rotation_config();
    assert_eq!(c.timelock_ledgers, DEFAULT_TIMELOCK_LEDGERS);
    assert_eq!(c.confirmation_window_ledgers, DEFAULT_CONFIRMATION_WINDOW);
    assert_eq!(c.cooldown_ledgers, DEFAULT_COOLDOWN_LEDGERS);
    assert!(!s.is_set(KeyRotationKey::RotationConfig));
}

#[test]
fn config_must_be_positive() {
    let mut s = KeyRotationState::new();
    assert_eq!(
        s.set_rotation_config(RotationConfig { timelock_ledgers: 0, confirmation_window_ledgers: 1, cooldown_ledgers: 0 }),
        Err(RotationError::ZeroTimelock)
    );
    assert_eq!(
        s.set_rotation_config(RotationConfig { timelock_ledgers: 1, confirmation_window_ledgers: 0, cooldown_ledgers: 0 }),
        Err(RotationError::ZeroWindow)
    );
}

#[test]
fn propose_then_confirm_after_timelock() {
    let mut s = configured();
    let req = s.propose_rotation(OLD, NEW, 100).unwrap();
    assert_eq!(req.timelock_until, 110);
    assert_eq!(req.expires_at, 130);
    assert_eq!(req.status, RotationStatus::Pending);
    assert!(s.has_pending_rotation(100));
    assert_eq!(s.confirm_rotation(NEW, 109), Err(RotationError::TimelockActive));
    assert_eq!(s.confirm_rotation(OLD, 110), Err(RotationError::NotProposedAdmin));
    let done = s.confirm_rotation(NEW, 110).unwrap();
    assert_eq!(done.status, RotationStatus::Completed);
    assert_eq!(s.get_rotation_count(), 1);
    assert_eq!(s.get_last_rotation_ledger(), 110);
    let h = s.get_rotation_history();
    assert_eq!(h.len(), 1);
    assert_eq!((h[0].old_admin, h[0].new_admin, h[0].completed_at, h[0].is_emergency), (OLD, NEW, 110, false));
    assert!(s.get_pending_rotation().is_none());
}

#[test]
fn confirmation_window_expires() {
    let mut s = configured();
    s.propose_rotation(OLD, NEW, 100).unwrap();
    assert_eq!(s.confirm_rotation(NEW, 131), Err(RotationError::WindowExpired));
    assert!(!s.has_pending_rotation(131));
    // An expired proposal no longer blocks a new one.
    s.propose_rotation(OLD, 3, 131).unwrap();
}

#[test]
fn proposal_errors() {
    let mut s = configured();
    assert_eq!(s.propose_rotation(OLD, OLD, 1), Err(RotationError::SameAdmin));
    s.propose_rotation(OLD, NEW, 1).unwrap();
    assert_eq!(s.propose_rotation(OLD, 3, 2), Err(RotationError::AlreadyPending));
}

#[test]
fn cancel_rotation_flow() {
    let mut s = configured();
    assert_eq!(s.cancel_rotation(OLD), Err(RotationError::NoPending));
    s.propose_rotation(OLD, NEW, 100).unwrap();
    assert_eq!(s.cancel_rotation(NEW), Err(RotationError::NotCurrentAdmin));
    let c = s.cancel_rotation(OLD).unwrap();
    assert_eq!(c.status, RotationStatus::Cancelled);
    assert_eq!(s.confirm_rotation(NEW, 115), Err(RotationError::NoPending));
    assert_eq!(s.get_rotation_count(), 0);
}

#[test]
fn cooldown_between_rotations() {
    let mut s = configured();
    s.propose_rotation(OLD, NEW, 100).unwrap();
    s.confirm_rotation(NEW, 110).unwrap();
    assert_eq!(s.propose_rotation(NEW, 3, 114), Err(RotationError::CooldownActive));
    s.propose_rotation(NEW, 3, 115).unwrap();
}

#[test]
fn emergency_rotation_is_immediate() {
    let mut s = configured();
    s.propose_rotation(OLD, NEW, 100).unwrap();
    let r = s.emergency_rotate(OLD, 9, 101).unwrap();
    assert!(r.is_emergency);
    assert_eq!(r.status, RotationStatus::Completed);
    assert!(s.get_pending_rotation().is_none());
    assert_eq!(s.get_rotation_count(), 1);
    assert!(s.get_rotation_history()[0].is_emergency);
    assert_eq!(s.emergency_rotate(9, 9, 102), Err(RotationError::SameAdmin));
    assert!(s.is_set(KeyRotationKey::RotationHistory));
}

#[test]
fn history_keeps_latest_fifty() {
    let mut s = KeyRotationState::new();
    for i in 0..(MAX_ROTATION_HISTORY as u64 + 5) {
        s.emergency_rotate(i, i + 1, i as u32).unwrap();
    }
    let h = s.get_rotation_history();
    assert_eq!(h.len(), MAX_ROTATION_HISTORY as usize);
    assert_eq!(h[0].old_admin, 5);
    assert_eq!(h[h.len() - 1].old_admin, MAX_ROTATION_HISTORY as u64 + 4);
    assert_eq!(s.get_rotation_count(), MAX_ROTATION_HISTORY + 5);
}

use veritasor::access_control::{AccessControl, ROLE_ADMIN, ROLE_OPERATOR};

/// A contract whose admin changes hands through planned rotations.
struct Contract {
    admin: u64,
    roles: AccessControl,
    rotation: KeyRotationState,
    seq: u32,
}

fn setup() -> Contract {
    let mut roles = AccessControl::new();
    roles.grant_role(OLD, ROLE_ADMIN);
    Contract { admin: OLD, roles, rotation: KeyRotationState::new(), seq: 0 }
}

fn setup_with_short_rotation_config() -> Contract {
    let mut c = setup();
    c.rotation
        .set_rotation_config(RotationConfig { timelock_ledgers: 10, confirmation_window_ledgers: 20, cooldown_ledgers: 5 })
        .unwrap();
    c
}

fn propose(c: &mut Contract, new_admin: u64) -> Result<(), RotationError> {
    c.rotation.propose_rotation(c.admin, new_admin, c.seq)?;
    Ok(())
}

/// Confirm as `new_admin`; the admin role moves with the admin.
fn confirm(c: &mut Contract, new_admin: u64) -> Result<(), RotationError> {
    let req = c.rotation.confirm_rotation(new_admin, c.seq)?;
    c.roles.revoke_role(req.old_admin, ROLE_ADMIN);
    c.roles.grant_role(req.new_admin, ROLE_ADMIN);
    c.admin = req.new_admin;
    Ok(())
}

fn cancel(c: &mut Contract) -> Result<(), RotationError> {
    c.rotation.cancel_rotation(c.admin)?;
    Ok(())
}

#[test]
fn test_configure_key_rotation() {
    let mut c = setup();
    c.rotation
        .set_rotation_config(RotationConfig { timelock_ledgers: 100, confirmation_window_ledgers: 200, cooldown_ledgers: 50 })
        .unwrap();
    let config = c.rotation.get_rotation_config();
    assert_eq!(config.timelock_ledgers, 100);
    assert_eq!(config.confirmation_window_ledgers, 200);
    assert_eq!(config.cooldown_ledgers, 50);
}

#[test]
fn test_default_rotation_config() {
    let c = setup();
    let config = c.rotation.get_rotation_config();
    assert_eq!(config.timelock_ledgers, 17_280);
    assert_eq!(config.confirmation_window_ledgers, 34_560);
    assert_eq!(config.cooldown_ledgers, 8_640);
}

#[test]
fn test_propose_key_rotation() {
    let mut c = setup_with_short_rotation_config();
    propose(&mut c, NEW).unwrap();
    assert!(c.rotation.has_pending_rotation(c.seq));
    let pending = c.rotation.get_pending_rotation().unwrap();
    assert_eq!(pending.old_admin, OLD);
    assert_eq!(pending.new_admin, NEW);
}

#[test]
fn test_confirm_key_rotation() {
    let mut c = setup_with_short_rotation_config();
    propose(&mut c, NEW).unwrap();
    c.seq += 11;
    confirm(&mut c, NEW).unwrap();
    assert_eq!(c.admin, NEW);
    assert!(c.roles.has_role(NEW, ROLE_ADMIN));
    assert!(!c.roles.has_role(OLD, ROLE_ADMIN));
    assert!(!c.rotation.has_pending_rotation(c.seq));
}

#[test]
fn test_key_rotation_history_after_confirm() {
    let mut c = setup_with_short_rotation_config();
    assert_eq!(c.rotation.get_rotation_count(), 0);
    propose(&mut c, NEW).unwrap();
    c.seq += 11;
    confirm(&mut c, NEW).unwrap();
    assert_eq!(c.rotation.get_rotation_count(), 1);
    let history = c.rotation.get_rotation_history();
    assert_eq!(history.len(), 1);
    assert!(!history[0].is_emergency);
}

#[test]
fn test_cancel_key_rotation() {
    let mut c = setup_with_short_rotation_config();
    propose(&mut c, NEW).unwrap();
    assert!(c.rotation.has_pending_rotation(c.seq));
    cancel(&mut c).unwrap();
    assert!(!c.rotation.has_pending_rotation(c.seq));
}

#[test]
fn test_confirm_before_timelock_fails() {
    let mut c = setup_with_short_rotation_config();
    propose(&mut c, NEW).unwrap();
    assert_eq!(confirm(&mut c, NEW), Err(RotationError::TimelockActive));
    assert_eq!(c.admin, OLD);
}

#[test]
fn test_full_planned_rotation_scenario() {
    let mut c = setup_with_short_rotation_config();
    assert_eq!(c.admin, OLD);
    assert!(c.roles.has_role(OLD, ROLE_ADMIN));
    assert_eq!(c.rotation.get_rotation_count(), 0);
    propose(&mut c, NEW).unwrap();
    assert!(c.rotation.has_pending_rotation(c.seq));
    c.seq += 11;
    confirm(&mut c, NEW).unwrap();
    assert_eq!(c.admin, NEW);
    assert!(c.roles.has_role(NEW, ROLE_ADMIN));
    assert!(!c.roles.has_role(OLD, ROLE_ADMIN));
    assert!(!c.rotation.has_pending_rotation(c.seq));
    assert_eq!(c.rotation.get_rotation_count(), 1);
}

#[test]
fn test_rotation_preserves_other_roles() {
    let mut c = setup_with_short_rotation_config();
    let operator = 3;
    c.roles.require_admin(c.admin).unwrap();
    c.roles.grant_role(operator, ROLE_OPERATOR);
    assert!(c.roles.has_role(operator, ROLE_OPERATOR));
    propose(&mut c, NEW).unwrap();
    c.seq += 11;
    confirm(&mut c, NEW).unwrap();
    assert!(c.roles.has_role(operator, ROLE_OPERATOR));
}

#[test]
fn test_new_admin_can_operate_after_rotation() {
    let mut c = setup_with_short_rotation_config();
    propose(&mut c, NEW).unwrap();
    c.seq += 11;
    confirm(&mut c, NEW).unwrap();
    let new_operator = 3;
    c.roles.require_admin(NEW).unwrap();
    c.roles.grant_role(new_operator, ROLE_OPERATOR);
    assert!(c.roles.has_role(new_operator, ROLE_OPERATOR));
}

#[test]
fn test_sequential_rotations_with_cooldown() {
    let mut c = setup_with_short_rotation_config();
    let (admin_b, admin_c) = (2, 3);
    propose(&mut c, admin_b).unwrap();
    c.seq += 11;
    confirm(&mut c, admin_b).unwrap();
    assert_eq!(c.admin, admin_b);
    assert!(!c.roles.has_role(OLD, ROLE_ADMIN));
    c.seq += 6;
    propose(&mut c, admin_c).unwrap();
    c.seq += 11;
    confirm(&mut c, admin_c).unwrap();
    assert_eq!(c.admin, admin_c);
    assert!(!c.roles.has_role(admin_b, ROLE_ADMIN));
    assert_eq!(c.rotation.get_rotation_count(), 2);
}

#[test]
fn test_cancel_then_repropose() {
    let mut c = setup_with_short_rotation_config();
    let (wrong_admin, right_admin) = (2, 3);
    propose(&mut c, wrong_admin).unwrap();
    cancel(&mut c).unwrap();
    assert!(!c.rotation.has_pending_rotation(c.seq));
    propose(&mut c, right_admin).unwrap();
    c.seq += 11;
    confirm(&mut c, right_admin).unwrap();
    assert_eq!(c.admin, right_admin);
}
