use veritasor::attestor_staking::{AttestorStakingContract, SlashOutcome, StakingError};

const ADMIN: u64 = 1;
const TOKEN: u64 = 2;
const TREASURY: u64 = 3;
const DISPUTE_CONTRACT: u64 = 4;
const ATTESTOR: u64 = 5;
const SELF: u64 = 99;

fn setup() -> AttestorStakingContract {
    let mut client = AttestorStakingContract::new();
    client.initialize(ADMIN, TOKEN, TREASURY, 1000, DISPUTE_CONTRACT).unwrap();
    client
}

#[test]
fn test_test_initialize() {
    let client = setup();
    assert_eq!(client.get_admin(), Ok(ADMIN));
    assert_eq!(client.get_min_stake(), Ok(1000));
}

#[test]
fn test_stake_success() {
    let mut client = setup();
    let t = client.stake(ATTESTOR, 5000, SELF).unwrap();
    assert_eq!((t.token, t.from, t.to, t.amount), (TOKEN, ATTESTOR, SELF, 5000));
    let stake = client.get_stake(ATTESTOR).unwrap();
    assert_eq!(stake.amount, 5000);
    assert_eq!(stake.locked, 0);
}

#[test]
fn test_stake_below_minimum() {
    let mut client = setup();
    assert_eq!(client.stake(ATTESTOR, 500, SELF), Err(StakingError::BelowMinimumStake));
}

#[test]
fn test_unstake_success() {
    let mut client = setup();
    client.stake(ATTESTOR, 5000, SELF).unwrap();
    let t = client.unstake(ATTESTOR, 2000, SELF).unwrap();
    assert_eq!((t.from, t.to, t.amount), (SELF, ATTESTOR, 2000));
    let stake = client.get_stake(ATTESTOR).unwrap();
    assert_eq!(stake.amount, 3000);
}

#[test]
fn test_slash_success() {
    let mut client = setup();
    client.stake(ATTESTOR, 5000, SELF).unwrap();
    let (outcome, transfer) = client.slash(ATTESTOR, 2000, 1, SELF).unwrap();
    assert_eq!(outcome, SlashOutcome::Slashed);
    let stake = client.get_stake(ATTESTOR).unwrap();
    assert_eq!(stake.amount, 3000);
    let t = transfer.unwrap();
    assert_eq!((t.token, t.from, t.to, t.amount), (TOKEN, SELF, TREASURY, 2000));
}

#[test]
fn test_slash_partial_when_insufficient_stake() {
    let mut client = setup();
    client.stake(ATTESTOR, 2000, SELF).unwrap();
    let (outcome, transfer) = client.slash(ATTESTOR, 5000, 1, SELF).unwrap();
    assert_eq!(outcome, SlashOutcome::Slashed);
    assert_eq!(client.get_stake(ATTESTOR).unwrap().amount, 0);
    assert_eq!(transfer.unwrap().amount, 2000);
}

#[test]
fn test_slash_double_slashing_prevented() {
    let mut client = setup();
    client.stake(ATTESTOR, 5000, SELF).unwrap();
    client.slash(ATTESTOR, 2000, 1, SELF).unwrap();
    assert_eq!(client.slash(ATTESTOR, 1000, 1, SELF), Err(StakingError::DisputeAlreadyProcessed));
}

#[test]
fn test_slash_multiple_disputes() {
    let mut client = setup();
    client.stake(ATTESTOR, 5000, SELF).unwrap();
    let (_, t1) = client.slash(ATTESTOR, 1000, 1, SELF).unwrap();
    let (_, t2) = client.slash(ATTESTOR, 1500, 2, SELF).unwrap();
    assert_eq!(client.get_stake(ATTESTOR).unwrap().amount, 2500);
    assert_eq!(t1.unwrap().amount + t2.unwrap().amount, 2500);
}

#[test]
fn test_slash_no_stake() {
    let mut client = setup();
    let result = client.slash(ATTESTOR, 1000, 1, SELF);
    assert!(result.is_err());
    assert_eq!(result, Err(StakingError::NoStakeFound));
}

#[test]
fn test_slash_zero_stake_returns_no_slash() {
    let mut client = setup();
    client.stake(ATTESTOR, 1000, SELF).unwrap();
    client.slash(ATTESTOR, 1000, 1, SELF).unwrap();
    let (outcome, transfer) = client.slash(ATTESTOR, 500, 2, SELF).unwrap();
    assert_eq!(outcome, SlashOutcome::NoSlash);
    assert!(transfer.is_none());
}

#[test]
fn test_dispute_resolution_triggers_slashing() {
    let mut client = setup();
    client.stake(ATTESTOR, 5000, SELF).unwrap();
    let slash_amount = 1500;
    let (outcome, transfer) = client.slash(ATTESTOR, slash_amount, 42, SELF).unwrap();
    assert_eq!(outcome, SlashOutcome::Slashed);
    assert_eq!(client.get_stake(ATTESTOR).unwrap().amount, 3500);
    assert_eq!(transfer.unwrap().amount, slash_amount);
}

#[test]
fn staking_input_errors() {
    let mut fresh = AttestorStakingContract::new();
    assert_eq!(fresh.stake(ATTESTOR, 5000, SELF), Err(StakingError::NotInitialized));
    assert_eq!(
        fresh.initialize(ADMIN, TOKEN, TREASURY, 0, DISPUTE_CONTRACT),
        Err(StakingError::MinStakeNotPositive)
    );
    let mut client = setup();
    assert_eq!(
        client.initialize(ADMIN, TOKEN, TREASURY, 1, DISPUTE_CONTRACT),
        Err(StakingError::AlreadyInitialized)
    );
    assert_eq!(client.stake(ATTESTOR, 0, SELF), Err(StakingError::AmountNotPositive));
    assert_eq!(client.slash(ATTESTOR, 0, 1, SELF), Err(StakingError::AmountNotPositive));
}
