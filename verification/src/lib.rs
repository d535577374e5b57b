//! Verified core of the Veritasor revenue-attestation protocol contracts.
//!
//! Each contract is modelled as a state value (its storage) with methods
//! that take the caller-supplied arguments together with the ledger
//! readings the contract uses (timestamp, sequence number) and return
//! either the new state and a result, or an error that leaves the state
//! untouched.
use vstd::prelude::*;

pub mod store;
pub mod types;
pub mod revenue_settlement;
pub mod aggregated_attestations;
pub mod audit_log;
pub mod attestation_registry;
pub mod access_control;
pub mod attestor_staking;
pub mod dynamic_fees;
pub mod attestation;
pub mod integration_registry;
pub mod protocol_dao;
pub mod key_rotation;
pub mod multisig;
pub mod revenue_curve;
pub mod lender_access_list;
pub mod governance_gating;
pub mod dispute;
pub mod rate_limit;
pub mod registry;
pub mod extended_metadata;
pub mod replay_protection;
pub mod fees;

verus! {

} // verus!
