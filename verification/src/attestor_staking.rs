//! Attestor staking with dispute-driven slashing.
//!
//! Attestors lock tokens as stake; a total stake must reach the configured
//! minimum. The dispute contract may slash a stake once per dispute; the
//! slashed amount never exceeds what is staked and goes to the treasury.
use vstd::prelude::*;
use crate::store::Store;
use crate::types::{Address, TokenTransfer};

verus! {

/// Slashing outcome for a resolved dispute.
#[derive(Clone, Copy, Debug, PartialEq, Eq, Structural)]
pub enum SlashOutcome {
    /// Dispute upheld: attestor slashed.
    Slashed,
    /// Nothing to slash.
    NoSlash,
}

/// Stake record of an attestor.
#[derive(Clone, Copy, Debug, PartialEq, Eq, Structural)]
pub struct Stake {
    pub attestor: Address,
    pub amount: i128,
    pub locked: i128,
}

/// Configuration fixed at initialization.
#[derive(Clone, Copy, Debug, PartialEq, Eq, Structural)]
pub struct StakingConfig {
    pub admin: Address,
    pub token: Address,
    pub treasury: Address,
    pub min_stake: i128,
    pub dispute_contract: Address,
}

/// Why a staking call was refused.
#[derive(Clone, Copy, Debug, PartialEq, Eq, Structural)]
pub enum StakingError {
    AlreadyInitialized,
    NotInitialized,
    MinStakeNotPositive,
    AmountNotPositive,
    BelowMinimumStake,
    StakeOverflow,
    NoStakeFound,
    InsufficientUnlockedStake,
    DisputeAlreadyProcessed,
}

/// Storage of the staking contract.
pub struct AttestorStakingContract {
    config: Option<StakingConfig>,
    stakes: Store<u64, Stake>,
    slashed: Store<u64, bool>,
}

impl AttestorStakingContract {
    pub closed spec fn spec_config(&self) -> Option<StakingConfig> {
        self.config
    }

    pub closed spec fn spec_stakes(&self) -> Map<Address, Stake> {
        self.stakes@
    }

    pub closed spec fn spec_slashed(&self) -> Map<u64, bool> {
        self.slashed@
    }

    /// Invariant: stakes are recorded under their attestor, are never
    /// negative and hold no locked part.
    pub open spec fn wf(&self) -> bool {
        forall|a: Address| #[trigger]
            self.spec_stakes().contains_key(a) ==> {
                let s = self.spec_stakes()[a];
                &&& s.attestor == a
                &&& s.amount >= 0
                &&& s.locked == 0
            }
    }

    /// A contract with empty storage.
    pub fn new() -> (r: Self)
        ensures
            r.wf(),
            r.spec_config() is None,
            r.spec_stakes().is_empty(),
            r.spec_slashed().is_empty(),
    {
        AttestorStakingContract { config: None, stakes: Store::new(), slashed: Store::new() }
    }

    /// One-time setup.
    pub fn initialize(
        &mut self,
        admin: Address,
        token: Address,
        treasury: Address,
        min_stake: i128,
        dispute_contract: Address,
    ) -> (r: Result<(), StakingError>)
        requires
            old(self).wf(),
        ensures
            final(self).wf(),
            match r {
                Err(e) => *final(self) == *old(self) && if old(self).spec_config() is Some {
                    e == StakingError::AlreadyInitialized
                } else {
                    e == StakingError::MinStakeNotPositive && min_stake <= 0
                },
                Ok(()) => {
                    &&& old(self).spec_config() is None
                    &&& min_stake > 0
                    &&& final(self).spec_config() == Some(
                        StakingConfig { admin, token, treasury, min_stake, dispute_contract },
                    )
                    &&& final(self).spec_stakes() == old(self).spec_stakes()
                    &&& final(self).spec_slashed() == old(self).spec_slashed()
                },
            },
    {
        if self.config.is_some() {
            return Err(StakingError::AlreadyInitialized);
        }
        if min_stake <= 0 {
            return Err(StakingError::MinStakeNotPositive);
        }
        let ghost old_stakes = self.spec_stakes();
        self.config = Some(StakingConfig { admin, token, treasury, min_stake, dispute_contract });
        assert(self.spec_stakes() == old_stakes);
        Ok(())
    }

    /// Staked amount of an attestor (0 when none).
    pub open spec fn staked(&self, a: Address) -> int {
        if self.spec_stakes().contains_key(a) {
            self.spec_stakes()[a].amount as int
        } else {
            0
        }
    }

    /// Add `amount` to the attestor's stake; returns the transfer from the
    /// attestor to the staking contract (`contract`).
    pub fn stake(&mut self, attestor: Address, amount: i128, contract: Address) -> (r: Result<
        TokenTransfer,
        StakingError,
    >)
        requires
            old(self).wf(),
        ensures
            final(self).wf(),
            match r {
                Err(e) => *final(self) == *old(self) && if amount <= 0 {
                    e == StakingError::AmountNotPositive
                } else if old(self).spec_config() is None {
                    e == StakingError::NotInitialized
                } else if old(self).staked(attestor) + amount > i128::MAX {
                    e == StakingError::StakeOverflow
                } else {
                    e == StakingError::BelowMinimumStake && old(self).staked(attestor) + amount
                        < old(self).spec_config().unwrap().min_stake
                },
                Ok(t) => {
                    let cfg = old(self).spec_config().unwrap();
                    &&& amount > 0
                    &&& old(self).spec_config() is Some
                    &&& old(self).staked(attestor) + amount >= cfg.min_stake
                    &&& final(self).spec_stakes() == old(self).spec_stakes().insert(
                        attestor,
                        Stake {
                            attestor,
                            amount: (old(self).staked(attestor) + amount) as i128,
                            locked: 0,
                        },
                    )
                    &&& t == TokenTransfer { token: cfg.token, from: attestor, to: contract, amount }
                    &&& final(self).spec_config() == old(self).spec_config()
                    &&& final(self).spec_slashed() == old(self).spec_slashed()
                },
            },
    {
        if amount <= 0 {
            return Err(StakingError::AmountNotPositive);
        }
        let cfg = match self.config {
            Some(c) => c,
            None => {
                return Err(StakingError::NotInitialized);
            },
        };
        let current: Stake = match self.stakes.get(&attestor) {
            Some(s) => *s,
            None => Stake { attestor, amount: 0, locked: 0 },
        };
        if self.stakes.has(&attestor) {
            assert(self.spec_stakes().contains_key(attestor));
        }
        let total = match current.amount.checked_add(amount) {
            Some(t) => t,
            None => {
                return Err(StakingError::StakeOverflow);
            },
        };
        if total < cfg.min_stake {
            return Err(StakingError::BelowMinimumStake);
        }
        self.stakes.set(attestor, Stake { amount: total, ..current });
        Ok(TokenTransfer { token: cfg.token, from: attestor, to: contract, amount })
    }

    /// Withdraw `amount` of the attestor's unlocked stake; returns the
    /// transfer from the staking contract back to the attestor.
    pub fn unstake(&mut self, attestor: Address, amount: i128, contract: Address) -> (r: Result<
        TokenTransfer,
        StakingError,
    >)
        requires
            old(self).wf(),
        ensures
            final(self).wf(),
            match r {
                Err(e) => *final(self) == *old(self) && if amount <= 0 {
                    e == StakingError::AmountNotPositive
                } else if !old(self).spec_stakes().contains_key(attestor) {
                    e == StakingError::NoStakeFound
                } else if old(self).staked(attestor) < amount {
                    e == StakingError::InsufficientUnlockedStake
                } else {
                    e == StakingError::NotInitialized && old(self).spec_config() is None
                },
                Ok(t) => {
                    &&& amount > 0
                    &&& old(self).spec_stakes().contains_key(attestor)
                    &&& old(self).staked(attestor) >= amount
                    &&& old(self).spec_config() is Some
                    &&& final(self).spec_stakes() == old(self).spec_stakes().insert(
                        attestor,
                        Stake {
                            amount: (old(self).staked(attestor) - amount) as i128,
                            ..old(self).spec_stakes()[attestor]
                        },
                    )
                    &&& t == TokenTransfer {
                        token: old(self).spec_config().unwrap().token,
                        from: contract,
                        to: attestor,
                        amount,
                    }
                    &&& final(self).spec_config() == old(self).spec_config()
                    &&& final(self).spec_slashed() == old(self).spec_slashed()
                },
            },
    {
        if amount <= 0 {
            return Err(StakingError::AmountNotPositive);
        }
        let current: Stake = match self.stakes.get(&attestor) {
            Some(s) => *s,
            None => {
                return Err(StakingError::NoStakeFound);
            },
        };
        assert(self.spec_stakes().contains_key(attestor));
        let available = current.amount - current.locked;
        if available < amount {
            return Err(StakingError::InsufficientUnlockedStake);
        }
        let cfg = match self.config {
            Some(c) => c,
            None => {
                return Err(StakingError::NotInitialized);
            },
        };
        self.stakes.set(attestor, Stake { amount: current.amount - amount, ..current });
        Ok(TokenTransfer { token: cfg.token, from: contract, to: attestor, amount })
    }

    /// The error `slash` answers for these arguments, if any.
    pub open spec fn slash_error(&self, attestor: Address, amount: i128, dispute_id: u64) -> Option<
        StakingError,
    > {
        if self.spec_config() is None {
            Some(StakingError::NotInitialized)
        } else if amount <= 0 {
            Some(StakingError::AmountNotPositive)
        } else if self.spec_slashed().contains_key(dispute_id) {
            Some(StakingError::DisputeAlreadyProcessed)
        } else if !self.spec_stakes().contains_key(attestor) {
            Some(StakingError::NoStakeFound)
        } else {
            None
        }
    }

    /// Slash up to `amount` of the attestor's stake for dispute
    /// `dispute_id`. Only the dispute contract may call this. Returns the
    /// outcome and, when something was slashed, the transfer to the
    /// treasury.
    pub fn slash(&mut self, attestor: Address, amount: i128, dispute_id: u64, contract: Address) -> (r:
        Result<(SlashOutcome, Option<TokenTransfer>), StakingError>)
        requires
            old(self).wf(),
        ensures
            final(self).wf(),
            match r {
                Err(e) => *final(self) == *old(self) && old(self).slash_error(
                    attestor,
                    amount,
                    dispute_id,
                ) == Some(e),
                Ok((outcome, transfer)) => {
                    let staked = old(self).staked(attestor);
                    let cut = if amount < staked {
                        amount as int
                    } else {
                        staked
                    };
                    &&& old(self).slash_error(attestor, amount, dispute_id) is None
                    &&& if cut == 0 {
                        &&& outcome == SlashOutcome::NoSlash
                        &&& transfer is None
                        &&& *final(self) == *old(self)
                    } else {
                        &&& outcome == SlashOutcome::Slashed
                        &&& old(self).slashed_to(&*final(self), attestor, cut, dispute_id)
                        &&& transfer == Some(
                            TokenTransfer {
                                token: old(self).spec_config().unwrap().token,
                                from: contract,
                                to: old(self).spec_config().unwrap().treasury,
                                amount: cut as i128,
                            },
                        )
                    }
                },
            },
    {
        let cfg = match self.config {
            Some(c) => c,
            None => {
                return Err(StakingError::NotInitialized);
            },
        };
        if amount <= 0 {
            return Err(StakingError::AmountNotPositive);
        }
        if self.slashed.has(&dispute_id) {
            return Err(StakingError::DisputeAlreadyProcessed);
        }
        let current: Stake = match self.stakes.get(&attestor) {
            Some(s) => *s,
            None => {
                return Err(StakingError::NoStakeFound);
            },
        };
        assert(self.spec_stakes().contains_key(attestor));
        let cut = if amount < current.amount {
            amount
        } else {
            current.amount
        };
        if cut == 0 {
            return Ok((SlashOutcome::NoSlash, None));
        }
        self.stakes.set(attestor, Stake { amount: current.amount - cut, ..current });
        self.slashed.set(dispute_id, true);
        Ok(
            (
                SlashOutcome::Slashed,
                Some(
                    TokenTransfer { token: cfg.token, from: contract, to: cfg.treasury, amount: cut },
                ),
            ),
        )
    }

    /// `after` is `self` with `cut` taken from the attestor's stake for
    /// dispute `dispute_id`.
    pub open spec fn slashed_to(&self, after: &Self, attestor: Address, cut: int, dispute_id: u64) -> bool {
        &&& self.spec_stakes().contains_key(attestor)
        &&& after.spec_stakes() == self.spec_stakes().insert(
            attestor,
            Stake { amount: (self.staked(attestor) - cut) as i128, ..self.spec_stakes()[attestor] },
        )
        &&& after.spec_slashed() == self.spec_slashed().insert(dispute_id, true)
        &&& after.spec_config() == self.spec_config()
    }

    /// Stake record of an attestor, if any.
    pub fn get_stake(&self, attestor: Address) -> (r: Option<Stake>)
        ensures
            r == if self.spec_stakes().contains_key(attestor) {
                Some(self.spec_stakes()[attestor])
            } else {
                None
            },
    {
        match self.stakes.get(&attestor) {
            Some(s) => Some(*s),
            None => None,
        }
    }

    /// The admin address.
    pub fn get_admin(&self) -> (r: Result<Address, StakingError>)
        ensures
            match self.spec_config() {
                Some(c) => r == Ok::<Address, StakingError>(c.admin),
                None => r == Err::<Address, _>(StakingError::NotInitialized),
            },
    {
        match self.config {
            Some(c) => Ok(c.admin),
            None => Err(StakingError::NotInitialized),
        }
    }

    /// The minimum total stake.
    pub fn get_min_stake(&self) -> (r: Result<i128, StakingError>)
        ensures
            match self.spec_config() {
                Some(c) => r == Ok::<i128, StakingError>(c.min_stake),
                None => r == Err::<i128, _>(StakingError::NotInitialized),
            },
    {
        match self.config {
            Some(c) => Ok(c.min_stake),
            None => Err(StakingError::NotInitialized),
        }
    }

    /// The configuration fixed at initialization (admin, token, treasury,
    /// minimum stake, dispute contract), if any.
    pub fn get_config(&self) -> (r: Option<StakingConfig>)
        ensures
            r == self.spec_config(),
    {
        self.config
    }
}

/// A slash takes a positive amount that never exceeds the stake, so the
/// stake stays non-negative; the dispute is then marked processed and a
/// second slash for it is refused.
pub proof fn law_slash_bounded_and_once(
    before: &AttestorStakingContract,
    after: &AttestorStakingContract,
    attestor: Address,
    cut: int,
    dispute_id: u64,
    any_attestor: Address,
    any_amount: i128,
)
    requires
        before.wf(),
        before.slashed_to(after, attestor, cut, dispute_id),
        0 < cut <= before.staked(attestor),
    ensures
        0 <= after.staked(attestor) == before.staked(attestor) - cut,
        after.slash_error(any_attestor, any_amount, dispute_id) is Some,
{
}

} // verus!
