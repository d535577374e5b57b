//! Optional per-attestation metadata: currency code and revenue basis
//! (net or gross), kept apart from the attestation itself so that older
//! attestations stay valid.
//!
//! A currency code is non-empty and at most three bytes long.
use vstd::prelude::*;
use crate::store::Store;
use crate::types::Address;

verus! {

/// Revenue basis.
#[derive(Clone, Copy, Debug, PartialEq, Eq, Structural)]
pub enum RevenueBasis {
    /// Before deductions.
    Gross,
    /// After deductions.
    Net,
}

/// Currency and basis of an attestation's revenue figures.
#[derive(Debug, PartialEq, Eq)]
pub struct AttestationMetadata {
    /// ISO 4217-style code such as "USD".
    pub currency_code: String,
    /// Net (true) or gross (false) revenue.
    pub is_net: bool,
}

impl AttestationMetadata {
    pub fn duplicate(&self) -> (r: Self)
        ensures
            r == *self,
    {
        AttestationMetadata { currency_code: self.currency_code.clone(), is_net: self.is_net }
    }
}

/// Longest currency code, in bytes.
pub const CURRENCY_CODE_MAX_LEN: u32 = 3;

/// Why metadata was refused.
#[derive(Clone, Copy, Debug, PartialEq, Eq, Structural)]
pub enum MetadataError {
    EmptyCurrencyCode,
    CurrencyCodeTooLong,
}

/// Length of a string in bytes (UTF-8).
pub open spec fn byte_len(s: &String) -> nat {
    vstd::utf8::encode_utf8(s@).len()
}

/// The error a currency code meets, if any.
pub open spec fn currency_error(code: &String) -> Option<MetadataError> {
    if byte_len(code) == 0 {
        Some(MetadataError::EmptyCurrencyCode)
    } else if byte_len(code) > CURRENCY_CODE_MAX_LEN {
        Some(MetadataError::CurrencyCodeTooLong)
    } else {
        None
    }
}

/// Check a currency code: non-empty, at most three bytes.
pub fn validate_currency_code(code: &String) -> (r: Result<(), MetadataError>)
    ensures
        match currency_error(code) {
            Some(e) => r == Err::<(), _>(e),
            None => r is Ok,
        },
{
    let len = code.as_str().as_bytes().len();
    if len == 0 {
        return Err(MetadataError::EmptyCurrencyCode);
    }
    if len > CURRENCY_CODE_MAX_LEN as usize {
        return Err(MetadataError::CurrencyCodeTooLong);
    }
    Ok(())
}

/// Validate a currency code and build the metadata.
pub fn validate_metadata(currency_code: &String, is_net: bool) -> (r: Result<AttestationMetadata, MetadataError>)
    ensures
        match currency_error(currency_code) {
            Some(e) => r == Err::<AttestationMetadata, _>(e),
            None => r == Ok::<AttestationMetadata, MetadataError>(
                AttestationMetadata { currency_code: *currency_code, is_net },
            ),
        },
{
    validate_currency_code(currency_code)?;
    Ok(AttestationMetadata { currency_code: currency_code.clone(), is_net })
}

/// Metadata storage, keyed by (business, period).
pub struct MetadataStore {
    entries: Store<(u64, String), AttestationMetadata>,
}

impl MetadataStore {
    pub closed spec fn metadata(&self, business: Address, period: Seq<char>) -> Option<AttestationMetadata> {
        if self.entries@.contains_key((business, period)) {
            Some(self.entries@[(business, period)])
        } else {
            None
        }
    }

    pub fn new() -> (r: Self)
        ensures
            forall|b: Address, p: Seq<char>| r.metadata(b, p) is None,
    {
        MetadataStore { entries: Store::new() }
    }

    /// Store metadata for (business, period), replacing earlier metadata.
    pub fn set_metadata(&mut self, business: Address, period: String, metadata: AttestationMetadata)
        ensures
            forall|b: Address, p: Seq<char>| #[trigger]
                final(self).metadata(b, p) == if b == business && p == period@ {
                    Some(metadata)
                } else {
                    old(self).metadata(b, p)
                },
    {
        self.entries.set((business, period), metadata);
    }

    /// Metadata of (business, period), if any.
    pub fn get_metadata(&self, business: Address, period: String) -> (r: Option<AttestationMetadata>)
        ensures
            r == self.metadata(business, period@),
    {
        match self.entries.get(&(business, period)) {
            Some(m) => Some(m.duplicate()),
            None => None,
        }
    }

    /// Whether (business, period) has metadata.
    pub fn has_metadata(&self, business: Address, period: String) -> (r: bool)
        ensures
            r == self.metadata(business, period@) is Some,
    {
        self.entries.has(&(business, period))
    }
}

} // verus!
