//! Token-weighted governance gating: an address may perform a gated
//! operation when its voting power (token balance plus power delegated to
//! it) reaches a threshold. Delegation moves the delegator's balance, as
//! it stands when delegating, to the delegate.
//!
//! Token balances live in the token contract; the host reads the balance
//! in question and hands it in.
use vstd::prelude::*;
use crate::store::Store;
use crate::types::Address;

verus! {

/// Storage slots of the governance state.
#[derive(Clone, Copy, Debug, PartialEq, Eq, Structural)]
pub enum GovernanceKey {
    GovernanceToken,
    GovernanceThreshold,
    Delegation(Address),
    DelegatedPower(Address),
    GovernanceEnabled,
}

#[derive(Clone, Copy, Debug, PartialEq, Eq, Structural)]
pub struct GovernanceConfig {
    pub token: Address,
    /// Voting power needed.
    pub threshold: i128,
    pub enabled: bool,
}

/// Why a governance call was refused.
#[derive(Clone, Copy, Debug, PartialEq, Eq, Structural)]
pub enum GovernanceError {
    AlreadyInitialized,
    NotInitialized,
    NegativeThreshold,
    InsufficientPower,
    Overflow,
}

/// Governance storage.
pub struct GovernanceGate {
    token: Option<Address>,
    threshold: i128,
    enabled: bool,
    delegations: Store<u64, u64>,
    delegated_power: Store<u64, i128>,
}

/// `x` fits in `i128`.
pub open spec fn fits_i128(x: int) -> bool {
    i128::MIN <= x <= i128::MAX
}

impl GovernanceGate {
    /// The configuration, once initialized.
    pub closed spec fn spec_config(&self) -> Option<GovernanceConfig> {
        match self.token {
            Some(t) => Some(GovernanceConfig { token: t, threshold: self.threshold, enabled: self.enabled }),
            None => None,
        }
    }

    /// The delegate of `a`, if any.
    pub closed spec fn delegate_of(&self, a: Address) -> Option<Address> {
        if self.delegations@.contains_key(a) {
            Some(self.delegations@[a])
        } else {
            None
        }
    }

    /// Power delegated to `a` (0 by default).
    pub closed spec fn delegated(&self, a: Address) -> i128 {
        if self.delegated_power@.contains_key(a) {
            self.delegated_power@[a]
        } else {
            0
        }
    }

    /// Voting power of an address holding `balance`: 0 without
    /// governance, else balance plus delegated power.
    pub open spec fn power(&self, a: Address, balance: i128) -> int {
        if self.spec_config() is None {
            0
        } else {
            balance + self.delegated(a)
        }
    }

    /// Delegations and delegated power are as in `o`.
    pub open spec fn same_delegations(&self, o: &Self) -> bool {
        &&& forall|a: Address| #[trigger] self.delegate_of(a) == o.delegate_of(a)
        &&& forall|a: Address| #[trigger] self.delegated(a) == o.delegated(a)
    }

    /// No governance configured, no delegations.
    pub fn new() -> (r: Self)
        ensures
            r.spec_config() is None,
            forall|a: Address| r.delegate_of(a) is None,
            forall|a: Address| r.delegated(a) == 0,
    {
        GovernanceGate {
            token: None,
            threshold: 0,
            enabled: false,
            delegations: Store::new(),
            delegated_power: Store::new(),
        }
    }

    /// Configure governance once; the threshold must not be negative.
    pub fn initialize_governance(&mut self, token: Address, threshold: i128, enabled: bool) -> (r:
        Result<(), GovernanceError>)
        ensures
            old(self).spec_config() is Some ==> r == Err::<(), _>(
                GovernanceError::AlreadyInitialized,
            ),
            old(self).spec_config() is None && threshold < 0 ==> r == Err::<(), _>(
                GovernanceError::NegativeThreshold,
            ),
            r is Err ==> *final(self) == *old(self),
            old(self).spec_config() is None && threshold >= 0 ==> r is Ok && final(self).spec_config()
                == Some(GovernanceConfig { token, threshold, enabled }) && final(self).same_delegations(&*old(self)),
    {
        if self.token.is_some() {
            return Err(GovernanceError::AlreadyInitialized);
        }
        if threshold < 0 {
            return Err(GovernanceError::NegativeThreshold);
        }
        self.token = Some(token);
        self.threshold = threshold;
        self.enabled = enabled;
        Ok(())
    }

    pub fn get_governance_config(&self) -> (r: Option<GovernanceConfig>)
        ensures
            r == self.spec_config(),
    {
        match self.token {
            Some(t) => Some(GovernanceConfig { token: t, threshold: self.threshold, enabled: self.enabled }),
            None => None,
        }
    }

    /// Change the threshold (not negative) of configured governance.
    pub fn set_governance_threshold(&mut self, threshold: i128) -> (r: Result<(), GovernanceError>)
        ensures
            old(self).spec_config() is None ==> r == Err::<(), _>(GovernanceError::NotInitialized),
            old(self).spec_config() is Some && threshold < 0 ==> r == Err::<(), _>(
                GovernanceError::NegativeThreshold,
            ),
            r is Err ==> *final(self) == *old(self),
            old(self).spec_config() is Some && threshold >= 0 ==> r is Ok && final(self).spec_config()
                == Some(GovernanceConfig { threshold, ..old(self).spec_config().unwrap() }) && final(self).same_delegations(&*old(self)),
    {
        if self.token.is_none() {
            return Err(GovernanceError::NotInitialized);
        }
        if threshold < 0 {
            return Err(GovernanceError::NegativeThreshold);
        }
        self.threshold = threshold;
        Ok(())
    }

    /// Switch configured governance on or off.
    pub fn set_governance_enabled(&mut self, enabled: bool) -> (r: Result<(), GovernanceError>)
        ensures
            old(self).spec_config() is None ==> r == Err::<(), _>(GovernanceError::NotInitialized)
                && *final(self) == *old(self),
            old(self).spec_config() is Some ==> r is Ok && final(self).spec_config() == Some(
                GovernanceConfig { enabled, ..old(self).spec_config().unwrap() },
            ) && final(self).same_delegations(&*old(self)),
    {
        if self.token.is_none() {
            return Err(GovernanceError::NotInitialized);
        }
        self.enabled = enabled;
        Ok(())
    }

    pub fn is_governance_enabled(&self) -> (r: bool)
        ensures
            r == (self.spec_config() matches Some(c) && c.enabled),
    {
        self.token.is_some() && self.enabled
    }

    pub fn get_delegate(&self, delegator: Address) -> (r: Option<Address>)
        ensures
            r == self.delegate_of(delegator),
    {
        match self.delegations.get(&delegator) {
            Some(d) => Some(*d),
            None => None,
        }
    }

    fn get_delegated(&self, a: Address) -> (r: i128)
        ensures
            r == self.delegated(a),
    {
        match self.delegated_power.get(&a) {
            Some(p) => *p,
            None => 0,
        }
    }

    /// Voting power of `address`, whose token balance is `balance`.
    pub fn get_voting_power(&self, address: Address, balance: i128) -> (r: Result<i128, GovernanceError>)
        ensures
            fits_i128(self.power(address, balance)) ==> r == Ok::<i128, GovernanceError>(
                self.power(address, balance) as i128,
            ),
            !fits_i128(self.power(address, balance)) ==> r == Err::<i128, _>(
                GovernanceError::Overflow,
            ),
    {
        if self.token.is_none() {
            return Ok(0);
        }
        match balance.checked_add(self.get_delegated(address)) {
            Some(p) => Ok(p),
            None => Err(GovernanceError::Overflow),
        }
    }

    /// Delegated power of `a` once `delegator`'s balance has been taken
    /// from its previous delegate (if any).
    pub open spec fn power_released(&self, delegator: Address, balance: i128, a: Address) -> int {
        match self.delegate_of(delegator) {
            Some(o) => if a == o {
                self.delegated(a) - balance
            } else {
                self.delegated(a) as int
            },
            None => self.delegated(a) as int,
        }
    }

    /// Delegated power of `a` after `delegator` delegates its `balance` to
    /// `delegate`.
    pub open spec fn power_after_delegation(
        &self,
        delegator: Address,
        delegate: Address,
        balance: i128,
        a: Address,
    ) -> int {
        if a == delegate {
            self.power_released(delegator, balance, delegate) + balance
        } else {
            self.power_released(delegator, balance, a)
        }
    }

    /// `self` is `old` after `delegator` delegated `balance` to
    /// `delegate`.
    pub open spec fn delegated_from(&self, old: &Self, delegator: Address, delegate: Address, balance: i128) -> bool {
        &&& self.spec_config() == old.spec_config()
        &&& forall|a: Address| #[trigger]
            self.delegate_of(a) == if a == delegator {
                Some(delegate)
            } else {
                old.delegate_of(a)
            }
        &&& forall|a: Address| #[trigger]
            self.delegated(a) == old.power_after_delegation(delegator, delegate, balance, a)
    }

    /// `self` is `old` after `delegator`, holding `balance`, withdrew its
    /// delegation.
    pub open spec fn revoked_from(&self, old: &Self, delegator: Address, balance: i128) -> bool {
        &&& self.spec_config() == old.spec_config()
        &&& forall|a: Address| #[trigger]
            self.delegate_of(a) == if a == delegator {
                None
            } else {
                old.delegate_of(a)
            }
        &&& forall|a: Address| #[trigger]
            self.delegated(a) == if a == old.delegate_of(delegator).unwrap() {
                old.delegated(a) - balance
            } else {
                old.delegated(a) as int
            }
    }

    /// The error a delegation meets, if any.
    pub open spec fn delegate_error(&self, delegator: Address, delegate: Address, balance: i128) -> Option<
        GovernanceError,
    > {
        if self.spec_config() is None {
            Some(GovernanceError::NotInitialized)
        } else if self.delegate_of(delegator) is Some && !fits_i128(
            self.power_released(delegator, balance, self.delegate_of(delegator).unwrap()),
        ) {
            Some(GovernanceError::Overflow)
        } else if !fits_i128(self.power_after_delegation(delegator, delegate, balance, delegate)) {
            Some(GovernanceError::Overflow)
        } else {
            None
        }
    }

    /// Delegate `delegator`'s voting power, its token balance `balance`,
    /// to `delegate`, replacing any earlier delegation.
    pub fn delegate_voting_power(&mut self, delegator: Address, delegate: Address, balance: i128) -> (r:
        Result<(), GovernanceError>)
        ensures
            match old(self).delegate_error(delegator, delegate, balance) {
                Some(e) => r == Err::<(), _>(e) && *final(self) == *old(self),
                None => r is Ok && final(self).delegated_from(&*old(self), delegator, delegate, balance),
            },
    {
        if self.token.is_none() {
            return Err(GovernanceError::NotInitialized);
        }
        let previous = self.get_delegate(delegator);
        let released: Option<(Address, i128)> = match previous {
            Some(o) => match self.get_delegated(o).checked_sub(balance) {
                Some(v) => Some((o, v)),
                None => {
                    return Err(GovernanceError::Overflow);
                },
            },
            None => None,
        };
        let current = match released {
            Some((o, v)) => if o == delegate {
                v
            } else {
                self.get_delegated(delegate)
            },
            None => self.get_delegated(delegate),
        };
        let updated = match current.checked_add(balance) {
            Some(v) => v,
            None => {
                return Err(GovernanceError::Overflow);
            },
        };
        match released {
            Some((o, v)) => {
                self.delegated_power.set(o, v);
            },
            None => {},
        }
        self.delegations.set(delegator, delegate);
        self.delegated_power.set(delegate, updated);
        Ok(())
    }

    /// The error revoking a delegation meets, if any.
    pub open spec fn revoke_error(&self, delegator: Address, balance: i128) -> Option<GovernanceError> {
        match self.delegate_of(delegator) {
            None => None,
            Some(d) => if self.spec_config() is None {
                Some(GovernanceError::NotInitialized)
            } else if !fits_i128(self.delegated(d) - balance) {
                Some(GovernanceError::Overflow)
            } else {
                None
            },
        }
    }

    /// Withdraw `delegator`'s delegation, taking its current balance
    /// `balance` back from the delegate. Nothing happens without a
    /// delegation.
    pub fn revoke_delegation(&mut self, delegator: Address, balance: i128) -> (r: Result<
        (),
        GovernanceError,
    >)
        ensures
            match old(self).revoke_error(delegator, balance) {
                Some(e) => r == Err::<(), _>(e) && *final(self) == *old(self),
                None => r is Ok && match old(self).delegate_of(delegator) {
                    None => *final(self) == *old(self),
                    Some(d) => final(self).revoked_from(&*old(self), delegator, balance),
                },
            },
    {
        let d = match self.get_delegate(delegator) {
            Some(d) => d,
            None => {
                return Ok(());
            },
        };
        if self.token.is_none() {
            return Err(GovernanceError::NotInitialized);
        }
        let updated = match self.get_delegated(d).checked_sub(balance) {
            Some(v) => v,
            None => {
                return Err(GovernanceError::Overflow);
            },
        };
        self.delegated_power.set(d, updated);
        self.delegations.remove(&delegator);
        Ok(())
    }

    /// Whether `address`, with token balance `balance`, holds governance
    /// power: never before governance is configured, always while it is
    /// configured but switched off, else when its voting power meets the
    /// threshold.
    pub fn has_governance_power(&self, address: Address, balance: i128) -> (r: Result<
        bool,
        GovernanceError,
    >)
        ensures
            match self.spec_config() {
                None => r == Ok::<bool, GovernanceError>(false),
                Some(c) => if !c.enabled {
                    r == Ok::<bool, GovernanceError>(true)
                } else if !fits_i128(self.power(address, balance)) {
                    r == Err::<bool, _>(GovernanceError::Overflow)
                } else {
                    r == Ok::<bool, GovernanceError>(self.power(address, balance) >= c.threshold)
                },
            },
    {
        if self.token.is_none() {
            return Ok(false);
        }
        if !self.enabled {
            return Ok(true);
        }
        let p = self.get_voting_power(address, balance)?;
        Ok(p >= self.threshold)
    }

    /// Refuse `address` when enabled governance is configured and its
    /// voting power (token balance `balance` plus delegations) is below
    /// the threshold.
    pub fn require_governance_threshold(&self, address: Address, balance: i128) -> (r: Result<
        (),
        GovernanceError,
    >)
        ensures
            match self.spec_config() {
                None => r is Ok,
                Some(c) => if !c.enabled {
                    r is Ok
                } else if !fits_i128(self.power(address, balance)) {
                    r == Err::<(), _>(GovernanceError::Overflow)
                } else if self.power(address, balance) < c.threshold {
                    r == Err::<(), _>(GovernanceError::InsufficientPower)
                } else {
                    r is Ok
                },
            },
    {
        if self.token.is_none() || !self.enabled {
            return Ok(());
        }
        let p = self.get_voting_power(address, balance)?;
        if p < self.threshold {
            return Err(GovernanceError::InsufficientPower);
        }
        Ok(())
    }
}

/// Delegating and then revoking with an unchanged balance restores every
/// delegated power and leaves no delegation.
pub proof fn law_delegate_then_revoke_restores(
    g0: &GovernanceGate,
    g1: &GovernanceGate,
    g2: &GovernanceGate,
    delegator: Address,
    delegate: Address,
    balance: i128,
)
    requires
        g0.delegate_of(delegator) is None,
        g1.delegated_from(g0, delegator, delegate, balance),
        g2.revoked_from(g1, delegator, balance),
    ensures
        forall|a: Address| #[trigger] g2.delegated(a) == g0.delegated(a),
        g2.delegate_of(delegator) is None,
{
    assert(g1.delegate_of(delegator) == Some(delegate));
    assert forall|a: Address| #[trigger] g2.delegated(a) == g0.delegated(a) by {
        assert(g1.delegated(a) == g0.power_after_delegation(delegator, delegate, balance, a));
    }
}

/// Re-delegating moves the delegator's balance from the old delegate to
/// the new one and leaves every other delegated power unchanged.
pub proof fn law_redelegation_moves_power(
    g0: &GovernanceGate,
    g1: &GovernanceGate,
    delegator: Address,
    delegate: Address,
    balance: i128,
    other: Address,
)
    requires
        g0.delegate_of(delegator) is Some,
        g0.delegate_of(delegator).unwrap() != delegate,
        g1.delegated_from(g0, delegator, delegate, balance),
        other != delegate,
        other != g0.delegate_of(delegator).unwrap(),
    ensures
        g1.delegated(g0.delegate_of(delegator).unwrap()) == g0.delegated(
            g0.delegate_of(delegator).unwrap(),
        ) - balance,
        g1.delegated(delegate) == g0.delegated(delegate) + balance,
        g1.delegated(other) == g0.delegated(other),
{
    assert(g1.delegated(g0.delegate_of(delegator).unwrap()) == g0.power_after_delegation(
        delegator,
        delegate,
        balance,
        g0.delegate_of(delegator).unwrap(),
    ));
    assert(g1.delegated(delegate) == g0.power_after_delegation(delegator, delegate, balance, delegate));
    assert(g1.delegated(other) == g0.power_after_delegation(delegator, delegate, balance, other));
}

} // verus!
