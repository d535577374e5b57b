//! Flat attestation fee: a fixed amount of a token, paid to a treasury,
//! when enabled.
use vstd::prelude::*;
use crate::types::{Address, TokenTransfer};

verus! {

/// Flat fee configuration.
#[derive(Clone, Copy, Debug, PartialEq, Eq, Structural)]
pub struct FlatFeeConfig {
    /// Token used for payment.
    pub token: Address,
    /// Account that receives the fees.
    pub treasury: Address,
    /// Fee in the token's smallest unit.
    pub amount: i128,
    /// Master switch.
    pub enabled: bool,
}

/// Storage slot of the flat fee configuration.
#[derive(Clone, Copy, Debug, PartialEq, Eq, Structural)]
pub enum FlatFeeDataKey {
    FlatFeeConfig,
}

/// What collecting the flat fee from `payer` charges under `config`: the
/// amount and the transfer, or nothing when fees are off or zero.
pub open spec fn flat_fee_charge(config: Option<FlatFeeConfig>, payer: Address) -> (i128, Option<TokenTransfer>) {
    match config {
        Some(c) => if c.enabled && c.amount > 0 {
            (c.amount, Some(TokenTransfer { token: c.token, from: payer, to: c.treasury, amount: c.amount }))
        } else {
            (0, None)
        },
        None => (0, None),
    }
}

/// Flat fee storage.
pub struct FlatFees {
    config: Option<FlatFeeConfig>,
}

impl FlatFees {
    pub closed spec fn spec_config(&self) -> Option<FlatFeeConfig> {
        self.config
    }

    /// Whether a storage slot holds a value.
    pub open spec fn slot_set(&self, key: FlatFeeDataKey) -> bool {
        match key {
            FlatFeeDataKey::FlatFeeConfig => self.spec_config() is Some,
        }
    }

    pub fn new() -> (r: Self)
        ensures
            r.spec_config() is None,
    {
        FlatFees { config: None }
    }

    /// Whether a storage slot holds a value.
    pub fn is_set(&self, key: FlatFeeDataKey) -> (r: bool)
        ensures
            r == self.slot_set(key),
    {
        match key {
            FlatFeeDataKey::FlatFeeConfig => self.config.is_some(),
        }
    }

    pub fn get_flat_fee_config(&self) -> (r: Option<FlatFeeConfig>)
        ensures
            r == self.spec_config(),
    {
        self.config
    }

    pub fn set_flat_fee_config(&mut self, config: FlatFeeConfig)
        ensures
            final(self).spec_config() == Some(config),
    {
        self.config = Some(config);
    }

    /// Charge the flat fee to `payer`: returns the amount collected (0
    /// when fees are off or zero) and the transfer the host must perform.
    pub fn collect_flat_fee(&self, payer: Address) -> (r: (i128, Option<TokenTransfer>))
        ensures
            r == flat_fee_charge(self.spec_config(), payer),
    {
        match self.config {
            Some(c) => if c.enabled && c.amount > 0 {
                (c.amount, Some(TokenTransfer { token: c.token, from: payer, to: c.treasury, amount: c.amount }))
            } else {
                (0, None)
            },
            None => (0, None),
        }
    }
}

/// The flat fee charged is never negative, and it is charged only when
/// enabled.
pub proof fn law_flat_fee_nonnegative(config: Option<FlatFeeConfig>, payer: Address)
    ensures
        flat_fee_charge(config, payer).0 >= 0,
        flat_fee_charge(config, payer).0 > 0 ==> config is Some && config.unwrap().enabled,
        flat_fee_charge(config, payer).1 is Some <==> flat_fee_charge(config, payer).0 > 0,
{
}

} // verus!
