//! Dynamic fee schedule for attestations.
//!
//! Two independent discounts multiply together:
//!
//! ```text
//! effective = base_fee × (10 000 − tier_bps) × (10 000 − volume_bps) ÷ 100 000 000
//! ```
//!
//! The tier discount comes from the business's admin-assigned tier, the
//! volume discount from the highest volume bracket whose threshold the
//! business's cumulative attestation count has reached. When no fee
//! configuration exists or fees are disabled, attestations are free.
use vstd::prelude::*;
use crate::aggregated_attestations::trunc_div;
use crate::store::Store;
use crate::types::{Address, TokenTransfer};

verus! {

/// 100 % expressed in basis points.
pub const MAX_BPS: u32 = 10000;

/// On-chain fee configuration.
#[derive(Clone, Copy, Debug, PartialEq, Eq, Structural)]
pub struct FeeConfig {
    /// Token used for fee payment.
    pub token: Address,
    /// Account that receives collected fees.
    pub collector: Address,
    /// Base fee in the token's smallest unit.
    pub base_fee: i128,
    /// Master switch; when false all attestations are free.
    pub enabled: bool,
}

/// Why a fee-schedule operation was refused.
#[derive(Clone, Copy, Debug, PartialEq, Eq, Structural)]
pub enum FeeError {
    NotInitialized,
    DiscountTooHigh,
    BracketLengthMismatch,
    ThresholdsNotAscending,
    FeeOverflow,
    CountOverflow,
}

/// `base × (10 000 − tier) × (10 000 − volume)` stays within `i128` at
/// every step of its left-to-right evaluation.
pub open spec fn fee_fits(base_fee: i128, tier_discount_bps: u32, volume_discount_bps: u32) -> bool {
    let tf = 10000 - tier_discount_bps;
    let vf = 10000 - volume_discount_bps;
    &&& i128::MIN <= base_fee * tf <= i128::MAX
    &&& i128::MIN <= base_fee * tf * vf <= i128::MAX
}

/// The discounted fee, rounded toward zero.
pub open spec fn spec_compute_fee(
    base_fee: i128,
    tier_discount_bps: u32,
    volume_discount_bps: u32,
) -> int {
    trunc_div(base_fee * (10000 - tier_discount_bps) * (10000 - volume_discount_bps), 100000000)
}

/// Pure fee arithmetic:
/// `base_fee × (10 000 − tier_bps) × (10 000 − vol_bps) / 100 000 000`.
pub fn compute_fee(base_fee: i128, tier_discount_bps: u32, volume_discount_bps: u32) -> (r: i128)
    requires
        fee_fits(base_fee, tier_discount_bps, volume_discount_bps),
    ensures
        r == spec_compute_fee(base_fee, tier_discount_bps, volume_discount_bps),
{
    let tier_factor: i128 = 10000i128 - tier_discount_bps as i128;
    let vol_factor: i128 = 10000i128 - volume_discount_bps as i128;
    let product = base_fee * tier_factor * vol_factor;
    match product.checked_div(100000000i128) {
        Some(q) => q,
        None => 0,
    }
}

/// The fee, or `None` where the arithmetic would overflow.
pub fn checked_compute_fee(base_fee: i128, tier_discount_bps: u32, volume_discount_bps: u32) -> (r:
    Option<i128>)
    ensures
        r == if fee_fits(base_fee, tier_discount_bps, volume_discount_bps) {
            Some(spec_compute_fee(base_fee, tier_discount_bps, volume_discount_bps) as i128)
        } else {
            None::<i128>
        },
{
    let tier_factor: i128 = 10000i128 - tier_discount_bps as i128;
    let vol_factor: i128 = 10000i128 - volume_discount_bps as i128;
    match base_fee.checked_mul(tier_factor) {
        None => None,
        Some(p) => match p.checked_mul(vol_factor) {
            None => None,
            Some(_) => Some(compute_fee(base_fee, tier_discount_bps, volume_discount_bps)),
        },
    }
}

/// Volume discount for `count`: the discount of the last bracket whose
/// threshold is at most `count`, or 0.
pub open spec fn spec_volume_discount(thresholds: Seq<u64>, discounts: Seq<u32>, count: u64) -> u32
    decreases thresholds.len(),
{
    if thresholds.len() == 0 {
        0
    } else if count >= thresholds.last() {
        discounts[thresholds.len() - 1]
    } else {
        spec_volume_discount(thresholds.drop_last(), discounts, count)
    }
}

/// Brackets as stored: equal lengths, thresholds strictly ascending,
/// discounts at most 10 000 bps.
pub open spec fn brackets_valid(thresholds: Seq<u64>, discounts: Seq<u32>) -> bool {
    &&& thresholds.len() == discounts.len()
    &&& forall|i: int, j: int| 0 <= i < j < thresholds.len() ==> thresholds[i] < thresholds[j]
    &&& forall|i: int| 0 <= i < discounts.len() ==> discounts[i] <= MAX_BPS
}

/// Threshold `i` does not exceed its predecessor.
pub open spec fn not_ascending_at(thresholds: Seq<u64>, i: int) -> bool {
    1 <= i < thresholds.len() && thresholds[i] <= thresholds[i - 1]
}

/// Discount `i` exceeds 100 %.
pub open spec fn discount_too_high_at(discounts: Seq<u32>, i: int) -> bool {
    0 <= i < discounts.len() && discounts[i] > MAX_BPS
}

/// The error `set_volume_brackets` answers for these brackets, if any.
pub open spec fn bracket_error(thresholds: Seq<u64>, discounts: Seq<u32>) -> Option<FeeError> {
    if thresholds.len() != discounts.len() {
        Some(FeeError::BracketLengthMismatch)
    } else if exists|i: int| #[trigger] not_ascending_at(thresholds, i) {
        Some(FeeError::ThresholdsNotAscending)
    } else if exists|i: int| #[trigger] discount_too_high_at(discounts, i) {
        Some(FeeError::DiscountTooHigh)
    } else {
        None
    }
}

proof fn lemma_adjacent_ascending(s: Seq<u64>)
    requires
        forall|k: int| 1 <= k < s.len() ==> #[trigger] s[k] > s[k - 1],
    ensures
        forall|i: int, j: int| 0 <= i < j < s.len() ==> s[i] < s[j],
    decreases s.len(),
{
    if s.len() > 0 {
        let t = s.drop_last();
        assert forall|k: int| 1 <= k < t.len() implies #[trigger] t[k] > t[k - 1] by {
            assert(t[k] == s[k] && t[k - 1] == s[k - 1]);
        }
        lemma_adjacent_ascending(t);
        assert forall|i: int, j: int| 0 <= i < j < s.len() implies s[i] < s[j] by {
            if j < s.len() - 1 {
                assert(t[i] == s[i] && t[j] == s[j]);
            } else if i < j - 1 {
                assert(t[i] == s[i] && t[j - 1] == s[j - 1]);
            }
        }
    }
}

/// Check volume brackets: equal lengths, strictly ascending thresholds,
/// discounts at most 10 000 bps.
pub fn validate_brackets(thresholds: &Vec<u64>, discounts: &Vec<u32>) -> (r: Result<(), FeeError>)
    ensures
        match r {
            Err(e) => bracket_error(thresholds@, discounts@) == Some(e),
            Ok(()) => bracket_error(thresholds@, discounts@) is None && brackets_valid(
                thresholds@,
                discounts@,
            ),
        },
{
    if thresholds.len() != discounts.len() {
        return Err(FeeError::BracketLengthMismatch);
    }
    let mut i: usize = 1;
    while i < thresholds.len()
        invariant
            thresholds@.len() == discounts@.len(),
            1 <= i,
            i <= thresholds@.len() || thresholds@.len() == 0,
            forall|k: int| 1 <= k < i && k < thresholds@.len() ==> #[trigger] thresholds@[k]
                > thresholds@[k - 1],
        decreases thresholds@.len() - i,
    {
        if thresholds[i] <= thresholds[i - 1] {
            assert(not_ascending_at(thresholds@, i as int));
            return Err(FeeError::ThresholdsNotAscending);
        }
        i = i + 1;
    }
    assert forall|k: int| !#[trigger] not_ascending_at(thresholds@, k) by {
        if 1 <= k < thresholds@.len() {
            assert(thresholds@[k] > thresholds@[k - 1]);
        }
    }
    let mut j: usize = 0;
    while j < discounts.len()
        invariant
            thresholds@.len() == discounts@.len(),
            forall|k: int| !#[trigger] not_ascending_at(thresholds@, k),
            j <= discounts@.len(),
            forall|k: int| 0 <= k < j ==> discounts@[k] <= MAX_BPS,
        decreases discounts@.len() - j,
    {
        if discounts[j] > MAX_BPS {
            assert(discount_too_high_at(discounts@, j as int));
            return Err(FeeError::DiscountTooHigh);
        }
        j = j + 1;
    }
    proof {
        lemma_adjacent_ascending(thresholds@);
    }
    assert forall|k: int| !#[trigger] discount_too_high_at(discounts@, k) by {
        if 0 <= k < discounts@.len() {
            assert(discounts@[k] <= MAX_BPS);
        }
    }
    Ok(())
}

/// Fee-schedule storage.
pub struct FeeSchedule {
    admin: Option<Address>,
    fee_config: Option<FeeConfig>,
    tier_discounts: Store<u32, u32>,
    business_tiers: Store<u64, u32>,
    business_counts: Store<u64, u64>,
    volume_thresholds: Vec<u64>,
    volume_discounts: Vec<u32>,
}

impl FeeSchedule {
    pub closed spec fn spec_admin(&self) -> Option<Address> {
        self.admin
    }

    pub closed spec fn spec_fee_config(&self) -> Option<FeeConfig> {
        self.fee_config
    }

    /// Tier discount in bps (0 for unconfigured tiers).
    pub closed spec fn tier_discount(&self, tier: u32) -> u32 {
        if self.tier_discounts@.contains_key(tier) {
            self.tier_discounts@[tier]
        } else {
            0
        }
    }

    /// Tier of a business (0 by default).
    pub closed spec fn business_tier(&self, b: Address) -> u32 {
        if self.business_tiers@.contains_key(b) {
            self.business_tiers@[b]
        } else {
            0
        }
    }

    /// Cumulative attestation count of a business.
    pub closed spec fn business_count(&self, b: Address) -> u64 {
        if self.business_counts@.contains_key(b) {
            self.business_counts@[b]
        } else {
            0
        }
    }

    pub closed spec fn spec_thresholds(&self) -> Seq<u64> {
        self.volume_thresholds@
    }

    pub closed spec fn spec_discounts(&self) -> Seq<u32> {
        self.volume_discounts@
    }

    /// Invariant: stored brackets are valid.
    pub open spec fn wf(&self) -> bool {
        brackets_valid(self.spec_thresholds(), self.spec_discounts())
    }

    /// Tiers and brackets are as in `other`.
    pub open spec fn same_discounts(&self, other: &Self) -> bool {
        &&& forall|t: u32| #[trigger] self.tier_discount(t) == other.tier_discount(t)
        &&& forall|b: Address| #[trigger] self.business_tier(b) == other.business_tier(b)
        &&& self.spec_thresholds() == other.spec_thresholds()
        &&& self.spec_discounts() == other.spec_discounts()
    }

    /// Every business count is as in `other`.
    pub open spec fn same_counts(&self, other: &Self) -> bool {
        forall|b: Address| #[trigger] self.business_count(b) == other.business_count(b)
    }

    /// Everything but the counts is as in `other`.
    pub open spec fn same_settings(&self, other: &Self) -> bool {
        &&& self.spec_admin() == other.spec_admin()
        &&& self.spec_fee_config() == other.spec_fee_config()
        &&& self.same_discounts(other)
    }

    /// Volume discount that applies to a business now.
    pub open spec fn volume_discount_of(&self, b: Address) -> u32 {
        spec_volume_discount(self.spec_thresholds(), self.spec_discounts(), self.business_count(b))
    }

    /// The fee a business pays for its next attestation, when computable:
    /// `Some(0)` if fees are off, `None` if the arithmetic overflows.
    pub open spec fn fee_for(&self, b: Address) -> Option<i128> {
        match self.spec_fee_config() {
            Some(c) => if c.enabled {
                let t = self.tier_discount(self.business_tier(b));
                let v = self.volume_discount_of(b);
                if fee_fits(c.base_fee, t, v) {
                    Some(spec_compute_fee(c.base_fee, t, v) as i128)
                } else {
                    None
                }
            } else {
                Some(0)
            },
            None => Some(0),
        }
    }

    /// The transfer that charges `fee` to `b`: none unless the fee is
    /// positive.
    pub open spec fn fee_transfer(&self, b: Address, fee: i128) -> Option<TokenTransfer> {
        if fee > 0 {
            Some(
                TokenTransfer {
                    token: self.spec_fee_config().unwrap().token,
                    from: b,
                    to: self.spec_fee_config().unwrap().collector,
                    amount: fee,
                },
            )
        } else {
            None
        }
    }

    /// `self` is `old` with the count of `b` raised by one.
    pub open spec fn counted_once(&self, old: &Self, b: Address) -> bool {
        &&& self.same_settings(old)
        &&& forall|x: Address| #[trigger]
            self.business_count(x) == if x == b {
                (old.business_count(b) + 1) as u64
            } else {
                old.business_count(x)
            }
    }

    /// Empty fee storage: no admin, no configuration, no brackets.
    pub fn new() -> (r: Self)
        ensures
            r.wf(),
            r.spec_admin() is None,
            r.spec_fee_config() is None,
            forall|t: u32| r.tier_discount(t) == 0,
            forall|b: Address| r.business_tier(b) == 0,
            forall|b: Address| r.business_count(b) == 0,
            r.spec_thresholds() == Seq::<u64>::empty(),
            r.spec_discounts() == Seq::<u32>::empty(),
    {
        FeeSchedule {
            admin: None,
            fee_config: None,
            tier_discounts: Store::new(),
            business_tiers: Store::new(),
            business_counts: Store::new(),
            volume_thresholds: Vec::new(),
            volume_discounts: Vec::new(),
        }
    }

    /// The admin address.
    pub fn get_admin(&self) -> (r: Result<Address, FeeError>)
        ensures
            match self.spec_admin() {
                Some(a) => r == Ok::<Address, FeeError>(a),
                None => r == Err::<Address, _>(FeeError::NotInitialized),
            },
    {
        match self.admin {
            Some(a) => Ok(a),
            None => Err(FeeError::NotInitialized),
        }
    }

    /// The admin, whose authorization the host must then require.
    pub fn require_admin(&self) -> (r: Result<Address, FeeError>)
        ensures
            match self.spec_admin() {
                Some(a) => r == Ok::<Address, FeeError>(a),
                None => r == Err::<Address, _>(FeeError::NotInitialized),
            },
    {
        self.get_admin()
    }

    pub fn set_admin(&mut self, admin: Address)
        requires
            old(self).wf(),
        ensures
            final(self).wf(),
            final(self).spec_admin() == Some(admin),
            final(self).spec_fee_config() == old(self).spec_fee_config(),
            forall|t: u32| #[trigger] final(self).tier_discount(t) == old(self).tier_discount(t),
            forall|b: Address| #[trigger] final(self).business_tier(b) == old(self).business_tier(b),
            forall|b: Address| #[trigger] final(self).business_count(b) == old(self).business_count(b),
            final(self).spec_thresholds() == old(self).spec_thresholds(),
            final(self).spec_discounts() == old(self).spec_discounts(),
    {
        self.admin = Some(admin);
    }

    pub fn is_initialized(&self) -> (r: bool)
        ensures
            r == self.spec_admin() is Some,
    {
        self.admin.is_some()
    }

    pub fn get_fee_config(&self) -> (r: Option<FeeConfig>)
        ensures
            r == self.spec_fee_config(),
    {
        self.fee_config
    }

    pub fn set_fee_config(&mut self, config: FeeConfig)
        requires
            old(self).wf(),
        ensures
            final(self).wf(),
            final(self).spec_fee_config() == Some(config),
            final(self).spec_admin() == old(self).spec_admin(),
            forall|t: u32| #[trigger] final(self).tier_discount(t) == old(self).tier_discount(t),
            forall|b: Address| #[trigger] final(self).business_tier(b) == old(self).business_tier(b),
            forall|b: Address| #[trigger] final(self).business_count(b) == old(self).business_count(b),
            final(self).spec_thresholds() == old(self).spec_thresholds(),
            final(self).spec_discounts() == old(self).spec_discounts(),
    {
        self.fee_config = Some(config);
    }

    /// Discount of a tier; 0 for unconfigured tiers.
    pub fn get_tier_discount(&self, tier: u32) -> (r: u32)
        ensures
            r == self.tier_discount(tier),
    {
        match self.tier_discounts.get(&tier) {
            Some(d) => *d,
            None => 0,
        }
    }

    /// Set the discount of a tier (at most 10 000 bps).
    pub fn set_tier_discount(&mut self, tier: u32, discount_bps: u32) -> (r: Result<(), FeeError>)
        requires
            old(self).wf(),
        ensures
            final(self).wf(),
            discount_bps > MAX_BPS ==> r == Err::<(), _>(FeeError::DiscountTooHigh) && *final(self)
                == *old(self),
            discount_bps <= MAX_BPS ==> {
                &&& r is Ok
                &&& forall|t: u32| #[trigger]
                    final(self).tier_discount(t) == if t == tier {
                        discount_bps
                    } else {
                        old(self).tier_discount(t)
                    }
                &&& final(self).spec_admin() == old(self).spec_admin()
                &&& final(self).spec_fee_config() == old(self).spec_fee_config()
                &&& forall|b: Address| #[trigger]
                    final(self).business_tier(b) == old(self).business_tier(b)
                &&& forall|b: Address| #[trigger]
                    final(self).business_count(b) == old(self).business_count(b)
                &&& final(self).spec_thresholds() == old(self).spec_thresholds()
                &&& final(self).spec_discounts() == old(self).spec_discounts()
            },
    {
        if discount_bps > MAX_BPS {
            return Err(FeeError::DiscountTooHigh);
        }
        self.tier_discounts.set(tier, discount_bps);
        Ok(())
    }

    /// Tier of a business; 0 (Standard) by default.
    pub fn get_business_tier(&self, business: Address) -> (r: u32)
        ensures
            r == self.business_tier(business),
    {
        match self.business_tiers.get(&business) {
            Some(t) => *t,
            None => 0,
        }
    }

    pub fn set_business_tier(&mut self, business: Address, tier: u32)
        requires
            old(self).wf(),
        ensures
            final(self).wf(),
            forall|b: Address| #[trigger]
                final(self).business_tier(b) == if b == business {
                    tier
                } else {
                    old(self).business_tier(b)
                },
            final(self).spec_admin() == old(self).spec_admin(),
            final(self).spec_fee_config() == old(self).spec_fee_config(),
            forall|t: u32| #[trigger] final(self).tier_discount(t) == old(self).tier_discount(t),
            forall|b: Address| #[trigger] final(self).business_count(b) == old(self).business_count(b),
            final(self).spec_thresholds() == old(self).spec_thresholds(),
            final(self).spec_discounts() == old(self).spec_discounts(),
    {
        self.business_tiers.set(business, tier);
    }

    /// Cumulative attestation count of a business.
    pub fn get_business_count(&self, business: Address) -> (r: u64)
        ensures
            r == self.business_count(business),
    {
        match self.business_counts.get(&business) {
            Some(c) => *c,
            None => 0,
        }
    }

    /// Increment a business's count and return the new count.
    pub fn increment_business_count(&mut self, business: Address) -> (r: Result<u64, FeeError>)
        requires
            old(self).wf(),
        ensures
            final(self).wf(),
            old(self).business_count(business) == u64::MAX ==> r == Err::<u64, _>(
                FeeError::CountOverflow,
            ) && *final(self) == *old(self),
            old(self).business_count(business) < u64::MAX ==> {
                &&& r == Ok::<u64, FeeError>((old(self).business_count(business) + 1) as u64)
                &&& final(self).counted_once(&*old(self), business)
            },
    {
        let count = self.get_business_count(business);
        if count == u64::MAX {
            return Err(FeeError::CountOverflow);
        }
        self.business_counts.set(business, count + 1);
        Ok(count + 1)
    }

    pub fn get_volume_thresholds(&self) -> (r: Vec<u64>)
        ensures
            r@ == self.spec_thresholds(),
    {
        crate::types::copy_vec(&self.volume_thresholds)
    }

    pub fn get_volume_discounts_vec(&self) -> (r: Vec<u32>)
        ensures
            r@ == self.spec_discounts(),
    {
        crate::types::copy_vec(&self.volume_discounts)
    }

    /// Replace the volume brackets after validating them.
    pub fn set_volume_brackets(&mut self, thresholds: Vec<u64>, discounts: Vec<u32>) -> (r: Result<
        (),
        FeeError,
    >)
        requires
            old(self).wf(),
        ensures
            final(self).wf(),
            match r {
                Err(e) => bracket_error(thresholds@, discounts@) == Some(e) && *final(self)
                    == *old(self),
                Ok(()) => {
                    &&& bracket_error(thresholds@, discounts@) is None
                    &&& final(self).spec_thresholds() == thresholds@
                    &&& final(self).spec_discounts() == discounts@
                    &&& final(self).spec_admin() == old(self).spec_admin()
                    &&& final(self).spec_fee_config() == old(self).spec_fee_config()
                    &&& forall|t: u32| #[trigger]
                        final(self).tier_discount(t) == old(self).tier_discount(t)
                    &&& forall|b: Address| #[trigger]
                        final(self).business_tier(b) == old(self).business_tier(b)
                    &&& forall|b: Address| #[trigger]
                        final(self).business_count(b) == old(self).business_count(b)
                },
            },
    {
        validate_brackets(&thresholds, &discounts)?;
        self.volume_thresholds = thresholds;
        self.volume_discounts = discounts;
        Ok(())
    }

    /// Volume discount (bps) for a cumulative count: scanning brackets from
    /// the highest down, the first threshold at most `count` wins.
    pub fn volume_discount_for_count(&self, count: u64) -> (r: u32)
        requires
            self.wf(),
        ensures
            r == spec_volume_discount(self.spec_thresholds(), self.spec_discounts(), count),
    {
        let len = self.volume_thresholds.len();
        if len == 0 {
            return 0;
        }
        let mut i = len;
        assert(self.spec_thresholds().subrange(0, len as int) =~= self.spec_thresholds());
        while i > 0
            invariant
                i <= len,
                len == self.spec_thresholds().len(),
                len == self.spec_discounts().len(),
                spec_volume_discount(self.spec_thresholds(), self.spec_discounts(), count)
                    == spec_volume_discount(
                    self.spec_thresholds().subrange(0, i as int),
                    self.spec_discounts(),
                    count,
                ),
            decreases i,
        {
            let ghost pre = self.spec_thresholds().subrange(0, i as int);
            i = i - 1;
            assert(pre.drop_last() =~= self.spec_thresholds().subrange(0, i as int));
            assert(pre.last() == self.spec_thresholds()[i as int]);
            if count >= self.volume_thresholds[i] {
                return self.volume_discounts[i];
            }
        }
        0
    }

    /// The fee a business would pay for its next attestation; 0 when fees
    /// are disabled or not configured.
    pub fn calculate_fee(&self, business: Address) -> (r: Result<i128, FeeError>)
        requires
            self.wf(),
        ensures
            match self.fee_for(business) {
                Some(f) => r == Ok::<i128, FeeError>(f),
                None => r == Err::<i128, _>(FeeError::FeeOverflow),
            },
    {
        let config = match self.fee_config {
            Some(c) => {
                if !c.enabled {
                    return Ok(0);
                }
                c
            },
            None => {
                return Ok(0);
            },
        };
        let tier = self.get_business_tier(business);
        let tier_disc = self.get_tier_discount(tier);
        let count = self.get_business_count(business);
        let vol_disc = self.volume_discount_for_count(count);
        match checked_compute_fee(config.base_fee, tier_disc, vol_disc) {
            Some(f) => Ok(f),
            None => Err(FeeError::FeeOverflow),
        }
    }

    /// Charge the fee of a business's next attestation: returns the amount
    /// and, when it is positive, the transfer from the business to the
    /// collector.
    pub fn collect_fee(&self, business: Address) -> (r: Result<(i128, Option<TokenTransfer>), FeeError>)
        requires
            self.wf(),
        ensures
            match self.fee_for(business) {
                None => r == Err::<(i128, Option<TokenTransfer>), _>(FeeError::FeeOverflow),
                Some(f) => r == Ok::<(i128, Option<TokenTransfer>), FeeError>(
                    (f, self.fee_transfer(business, f)),
                ),
            },
    {
        let fee = self.calculate_fee(business)?;
        if fee > 0 {
            let config = match self.fee_config {
                Some(c) => c,
                None => {
                    return Ok((fee, None));
                },
            };
            Ok(
                (
                    fee,
                    Some(
                        TokenTransfer {
                            token: config.token,
                            from: business,
                            to: config.collector,
                            amount: fee,
                        },
                    ),
                ),
            )
        } else {
            Ok((fee, None))
        }
    }
}

/// With a non-negative base fee and both discounts within 0–10 000 bps,
/// the fee lies between 0 and the base fee; a full discount on either axis
/// makes it free, and no discount at all charges the base fee.
pub proof fn law_fee_bounds(base_fee: i128, tier_bps: u32, volume_bps: u32)
    requires
        base_fee >= 0,
        tier_bps <= MAX_BPS,
        volume_bps <= MAX_BPS,
        fee_fits(base_fee, tier_bps, volume_bps),
    ensures
        0 <= spec_compute_fee(base_fee, tier_bps, volume_bps) <= base_fee,
        tier_bps == MAX_BPS || volume_bps == MAX_BPS ==> spec_compute_fee(
            base_fee,
            tier_bps,
            volume_bps,
        ) == 0,
        tier_bps == 0 && volume_bps == 0 ==> spec_compute_fee(base_fee, tier_bps, volume_bps)
            == base_fee,
{
    let tf: int = 10000 - tier_bps;
    let vf: int = 10000 - volume_bps;
    let b: int = base_fee as int;
    assert(0 <= b * tf <= b * 10000) by (nonlinear_arith)
        requires
            0 <= tf <= 10000,
            b >= 0,
    ;
    assert(0 <= b * tf * vf <= b * 10000 * 10000) by (nonlinear_arith)
        requires
            0 <= tf <= 10000,
            0 <= vf <= 10000,
            b >= 0,
    ;
    assert(b * 10000 * 10000 == b * 100000000) by (nonlinear_arith);
    assert((b * 100000000) / 100000000 == b) by (nonlinear_arith);
    assert((b * tf * vf) / 100000000 <= (b * 100000000) / 100000000) by (nonlinear_arith)
        requires
            0 <= b * tf * vf <= b * 100000000,
    ;
    if tier_bps == MAX_BPS {
        assert(b * tf * vf == 0) by (nonlinear_arith)
            requires
                tf == 0,
        ;
    }
    if volume_bps == MAX_BPS {
        assert(b * tf * vf == 0) by (nonlinear_arith)
            requires
                vf == 0,
        ;
    }
    if tier_bps == 0 && volume_bps == 0 {
        assert(b * tf * vf == b * 100000000) by (nonlinear_arith)
            requires
                tf == 10000,
                vf == 10000,
        ;
    }
}

proof fn lemma_volume_discount_at(thresholds: Seq<u64>, discounts: Seq<u32>, count: u64, i: int)
    requires
        forall|a: int, b: int| 0 <= a < b < thresholds.len() ==> thresholds[a] < thresholds[b],
        0 <= i < thresholds.len(),
        thresholds[i] <= count,
        i + 1 == thresholds.len() || count < thresholds[i + 1],
    ensures
        spec_volume_discount(thresholds, discounts, count) == discounts[i],
    decreases thresholds.len(),
{
    if i + 1 < thresholds.len() {
        let t = thresholds.drop_last();
        assert(count < thresholds.last()) by {
            if i + 1 < thresholds.len() - 1 {
                assert(thresholds[i + 1] < thresholds[thresholds.len() - 1]);
            }
        }
        assert forall|a: int, b: int| 0 <= a < b < t.len() implies t[a] < t[b] by {
            assert(t[a] == thresholds[a] && t[b] == thresholds[b]);
        }
        assert(t[i] == thresholds[i]);
        if i + 1 < t.len() {
            assert(t[i + 1] == thresholds[i + 1]);
        }
        lemma_volume_discount_at(t, discounts, count, i);
    }
}

proof fn lemma_volume_discount_below(thresholds: Seq<u64>, discounts: Seq<u32>, count: u64)
    requires
        forall|a: int| 0 <= a < thresholds.len() ==> count < thresholds[a],
    ensures
        spec_volume_discount(thresholds, discounts, count) == 0,
    decreases thresholds.len(),
{
    if thresholds.len() > 0 {
        let t = thresholds.drop_last();
        assert(count < thresholds[thresholds.len() - 1]);
        assert forall|a: int| 0 <= a < t.len() implies count < t[a] by {
            assert(t[a] == thresholds[a]);
        }
        lemma_volume_discount_below(t, discounts, count);
    }
}

/// With valid brackets, the volume discount is that of the highest bracket
/// whose threshold the count has reached; below the first threshold there
/// is none.
pub proof fn law_volume_discount_picks_highest_reached(
    thresholds: Seq<u64>,
    discounts: Seq<u32>,
    count: u64,
    i: int,
)
    requires
        brackets_valid(thresholds, discounts),
        0 <= i < thresholds.len(),
        thresholds[i] <= count,
        i + 1 == thresholds.len() || count < thresholds[i + 1],
    ensures
        spec_volume_discount(thresholds, discounts, count) == discounts[i],
{
    lemma_volume_discount_at(thresholds, discounts, count, i);
}

/// Below the lowest threshold no volume discount applies.
pub proof fn law_no_volume_discount_below_first_bracket(
    thresholds: Seq<u64>,
    discounts: Seq<u32>,
    count: u64,
)
    requires
        brackets_valid(thresholds, discounts),
        thresholds.len() == 0 || count < thresholds[0],
    ensures
        spec_volume_discount(thresholds, discounts, count) == 0,
{
    assert forall|a: int| 0 <= a < thresholds.len() implies count < thresholds[a] by {
        if a > 0 {
            assert(thresholds[0] < thresholds[a]);
        }
    }
    lemma_volume_discount_below(thresholds, discounts, count);
}

/// Without an enabled fee configuration every attestation is free.
pub proof fn law_free_when_disabled(fees: &FeeSchedule, b: Address)
    requires
        fees.spec_fee_config() is None || !fees.spec_fee_config().unwrap().enabled,
    ensures
        fees.fee_for(b) == Some(0i128),
{
}

/// The fee an enabled schedule charges a business is its base fee reduced
/// by the business's tier discount and by the discount of the highest
/// volume bracket its attestation count has reached (`i`; `i == -1` when
/// the count is below the first threshold, which gives no volume
/// discount): `base × (10 000 − tier) × (10 000 − volume) / 100 000 000`,
/// rounded down.
pub proof fn law_fee_uses_highest_reached_bracket(fees: &FeeSchedule, b: Address, i: int)
    requires
        fees.wf(),
        fees.spec_fee_config() matches Some(c) && c.enabled && c.base_fee >= 0,
        fees.tier_discount(fees.business_tier(b)) <= MAX_BPS,
        -1 <= i < fees.spec_thresholds().len(),
        i >= 0 ==> fees.spec_thresholds()[i] <= fees.business_count(b),
        i + 1 < fees.spec_thresholds().len() ==> fees.business_count(b) < fees.spec_thresholds()[i
            + 1],
        fee_fits(
            fees.spec_fee_config().unwrap().base_fee,
            fees.tier_discount(fees.business_tier(b)),
            if i >= 0 {
                fees.spec_discounts()[i]
            } else {
                0
            },
        ),
    ensures
        ({
            let base = fees.spec_fee_config().unwrap().base_fee as int;
            let tier = fees.tier_discount(fees.business_tier(b)) as int;
            let vol: int = if i >= 0 {
                fees.spec_discounts()[i] as int
            } else {
                0
            };
            fees.fee_for(b) == Some(((base * (10000 - tier) * (10000 - vol)) / 100000000) as i128)
        }),
{
    let t = fees.spec_thresholds();
    let d = fees.spec_discounts();
    let count = fees.business_count(b);
    if i >= 0 {
        law_volume_discount_picks_highest_reached(t, d, count, i);
    } else {
        law_no_volume_discount_below_first_bracket(t, d, count);
    }
    let base = fees.spec_fee_config().unwrap().base_fee as int;
    let tier = fees.tier_discount(fees.business_tier(b)) as int;
    let vol = fees.volume_discount_of(b) as int;
    assert(0 <= vol <= 10000) by {
        if i >= 0 {
            assert(d[i] <= MAX_BPS);
        }
    }
    assert(base * (10000 - tier) * (10000 - vol) >= 0) by (nonlinear_arith)
        requires
            base >= 0,
            0 <= tier <= 10000,
            0 <= vol <= 10000,
    ;
}

} // verus!

