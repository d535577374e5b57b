//! The attestation contract: businesses commit Merkle roots of their
//! revenue data, either for one named period or for a range of periods
//! (`YYYYMM`, inclusive), paying the dynamic fee on each submission.
//!
//! The central promise of the range API is its non-overlap policy: among
//! a business's unrevoked ranges no two share a period, so every period
//! resolves to at most one attestation.
use vstd::prelude::*;
use crate::dynamic_fees::{FeeConfig, FeeError, FeeSchedule, bracket_error, MAX_BPS};
use crate::store::Store;
use crate::types::{Address, Hash32, TokenTransfer, copy_vec, hash_eq};

verus! {

/// One attestation over the periods `start_period ..= end_period`.
#[derive(Clone, Copy, Debug, PartialEq, Eq)]
pub struct AttestationRange {
    /// First period covered, `YYYYMM`.
    pub start_period: u32,
    /// Last period covered, `YYYYMM`.
    pub end_period: u32,
    pub merkle_root: Hash32,
    pub timestamp: u64,
    pub version: u32,
    pub fee_paid: i128,
    pub revoked: bool,
}

/// A single-period attestation: root, timestamp, version, fee paid.
pub type AttestationData = (Hash32, u64, u32, i128);

/// Why an attestation-contract call was refused.
#[derive(Clone, Copy, Debug, PartialEq, Eq, Structural)]
pub enum AttestationError {
    AlreadyInitialized,
    NegativeBaseFee,
    FeesNotConfigured,
    AlreadyExists,
    InvalidRange,
    OverlappingRange,
    NoRanges,
    RootNotFound,
    Fee(FeeError),
}

/// An unrevoked range that shares a period with `start ..= end`.
pub open spec fn overlaps(r: AttestationRange, start: u32, end: u32) -> bool {
    !r.revoked && start <= r.end_period && end >= r.start_period
}

/// An unrevoked range that covers `period`.
pub open spec fn covers(r: AttestationRange, period: u32) -> bool {
    !r.revoked && r.start_period <= period && period <= r.end_period
}

/// Well-formed range list: every range is non-empty and no two unrevoked
/// ranges share a period.
pub open spec fn ranges_valid(s: Seq<AttestationRange>) -> bool {
    &&& forall|i: int| 0 <= i < s.len() ==> #[trigger] s[i].start_period <= s[i].end_period
    &&& forall|i: int, j: int|
        0 <= i < s.len() && 0 <= j < s.len() && i != j && !s[i].revoked && !s[j].revoked ==> (
        #[trigger] s[i]).end_period < (#[trigger] s[j]).start_period || s[j].end_period
            < s[i].start_period
}

/// The first unrevoked range at or after index `i` that covers `period`.
pub open spec fn first_covering(s: Seq<AttestationRange>, period: u32, i: int) -> Option<
    AttestationRange,
>
    decreases s.len() - i,
{
    if i < 0 || i >= s.len() {
        None
    } else if covers(s[i], period) {
        Some(s[i])
    } else {
        first_covering(s, period, i + 1)
    }
}

/// `r` with its revoked flag set when its root is `root`.
pub open spec fn revoke_matching(r: AttestationRange, root: Hash32) -> AttestationRange {
    if r.merkle_root@ == root@ {
        AttestationRange { revoked: true, ..r }
    } else {
        r
    }
}

/// Whether some unrevoked range of `ranges` shares a period with
/// `start ..= end`.
pub fn find_overlap(ranges: &Vec<AttestationRange>, start: u32, end: u32) -> (r: bool)
    ensures
        r == exists|i: int| 0 <= i < ranges@.len() && #[trigger] overlaps(ranges@[i], start, end),
{
    let mut i: usize = 0;
    while i < ranges.len()
        invariant
            i <= ranges@.len(),
            forall|j: int| 0 <= j < i ==> !#[trigger] overlaps(ranges@[j], start, end),
        decreases ranges@.len() - i,
    {
        let rg = ranges[i];
        if !rg.revoked && start <= rg.end_period && end >= rg.start_period {
            assert(overlaps(ranges@[i as int], start, end));
            return true;
        }
        i = i + 1;
    }
    false
}

/// The first unrevoked range of `ranges` covering `period`.
pub fn find_covering(ranges: &Vec<AttestationRange>, period: u32) -> (r: Option<AttestationRange>)
    ensures
        r == first_covering(ranges@, period, 0),
{
    let mut i: usize = 0;
    while i < ranges.len()
        invariant
            i <= ranges@.len(),
            first_covering(ranges@, period, 0) == first_covering(ranges@, period, i as int),
        decreases ranges@.len() - i,
    {
        let rg = ranges[i];
        if !rg.revoked && rg.start_period <= period && period <= rg.end_period {
            return Some(rg);
        }
        i = i + 1;
    }
    None
}

/// `r` is non-empty and disjoint from every unrevoked range of `s`.
pub open spec fn final_ranges_ok(s: Seq<AttestationRange>, r: AttestationRange) -> bool {
    &&& r.start_period <= r.end_period
    &&& forall|i: int|
        0 <= i < s.len() && !s[i].revoked ==> (#[trigger] s[i]).end_period < r.start_period
            || r.end_period < s[i].start_period
}

proof fn lemma_push_valid(s: Seq<AttestationRange>, r: AttestationRange)
    requires
        ranges_valid(s),
        final_ranges_ok(s, r),
    ensures
        ranges_valid(s.push(r)),
{
    let t = s.push(r);
    assert forall|i: int| 0 <= i < t.len() implies #[trigger] t[i].start_period <= t[i].end_period by {
        if i < s.len() {
            assert(t[i] == s[i]);
        }
    }
    assert forall|i: int, j: int|
        0 <= i < t.len() && 0 <= j < t.len() && i != j && !t[i].revoked && !t[j].revoked implies (
    #[trigger] t[i]).end_period < (#[trigger] t[j]).start_period || t[j].end_period
        < t[i].start_period by {
        if i < s.len() && j < s.len() {
            assert(t[i] == s[i] && t[j] == s[j]);
        } else if i < s.len() {
            assert(t[i] == s[i]);
        } else {
            assert(t[j] == s[j]);
        }
    }
}

/// Contract storage.
pub struct AttestationContract {
    fees: FeeSchedule,
    attestations: Store<(u64, String), AttestationData>,
    ranges: Store<u64, Vec<AttestationRange>>,
}

impl AttestationContract {
    /// Fee schedule, admin and business counters.
    pub closed spec fn fees(&self) -> FeeSchedule {
        self.fees
    }

    /// Single-period attestations by (business, period).
    pub closed spec fn spec_attestations(&self) -> Map<(u64, Seq<char>), AttestationData> {
        self.attestations@
    }

    /// Businesses that have a range list.
    pub closed spec fn has_ranges(&self, b: Address) -> bool {
        self.ranges@.contains_key(b)
    }

    /// Range list of a business, in submission order.
    pub closed spec fn ranges_of(&self, b: Address) -> Seq<AttestationRange> {
        if self.ranges@.contains_key(b) {
            self.ranges@[b]@
        } else {
            Seq::empty()
        }
    }

    /// Invariant: fee brackets valid, every range list well formed.
    pub open spec fn wf(&self) -> bool {
        &&& self.fees().wf()
        &&& forall|b: Address| #[trigger] ranges_valid(self.ranges_of(b))
    }

    /// All range lists as in `other`.
    pub open spec fn same_ranges(&self, other: &Self) -> bool {
        &&& forall|b: Address| #[trigger] self.ranges_of(b) == other.ranges_of(b)
        &&& forall|b: Address| #[trigger] self.has_ranges(b) == other.has_ranges(b)
    }

    /// Only the fee schedule may differ from `other`.
    pub open spec fn same_records(&self, other: &Self) -> bool {
        &&& self.spec_attestations() == other.spec_attestations()
        &&& self.same_ranges(other)
    }

    /// The unrevoked range that answers for `period`, if any.
    pub open spec fn range_for(&self, b: Address, period: u32) -> Option<AttestationRange> {
        first_covering(self.ranges_of(b), period, 0)
    }

    /// The error a single-period submission meets, if any.
    pub open spec fn submit_error(&self, b: Address, period: Seq<char>) -> Option<AttestationError> {
        if self.spec_attestations().contains_key((b, period)) {
            Some(AttestationError::AlreadyExists)
        } else if self.fees().fee_for(b) is None {
            Some(AttestationError::Fee(FeeError::FeeOverflow))
        } else if self.fees().business_count(b) == u64::MAX {
            Some(AttestationError::Fee(FeeError::CountOverflow))
        } else {
            None
        }
    }

    /// The error a range submission meets, if any.
    pub open spec fn multi_submit_error(&self, b: Address, start: u32, end: u32) -> Option<
        AttestationError,
    > {
        if start > end {
            Some(AttestationError::InvalidRange)
        } else if exists|i: int|
            0 <= i < self.ranges_of(b).len() && #[trigger] overlaps(
                self.ranges_of(b)[i],
                start,
                end,
            ) {
            Some(AttestationError::OverlappingRange)
        } else if self.fees().fee_for(b) is None {
            Some(AttestationError::Fee(FeeError::FeeOverflow))
        } else if self.fees().business_count(b) == u64::MAX {
            Some(AttestationError::Fee(FeeError::CountOverflow))
        } else {
            None
        }
    }

    /// The error a revocation meets, if any.
    pub open spec fn revoke_error(&self, b: Address, root: Hash32) -> Option<AttestationError> {
        if !self.has_ranges(b) {
            Some(AttestationError::NoRanges)
        } else if forall|i: int|
            0 <= i < self.ranges_of(b).len() ==> (#[trigger] self.ranges_of(b)[i]).merkle_root@
                != root@ {
            Some(AttestationError::RootNotFound)
        } else {
            None
        }
    }

    proof fn lemma_wf_kept(old: &Self, new: &Self)
        requires
            old.wf(),
            new.fees().wf(),
            forall|b: Address| #[trigger] new.ranges_of(b) == old.ranges_of(b),
        ensures
            new.wf(),
    {
        assert forall|b: Address| #[trigger] ranges_valid(new.ranges_of(b)) by {
            assert(new.ranges_of(b) == old.ranges_of(b));
        }
    }

    /// Fresh storage: nothing configured, nothing attested.
    pub fn new() -> (r: Self)
        ensures
            r.wf(),
            r.fees().spec_admin() is None,
            r.fees().spec_fee_config() is None,
            forall|t: u32| r.fees().tier_discount(t) == 0,
            forall|b: Address| r.fees().business_tier(b) == 0,
            forall|b: Address| r.fees().business_count(b) == 0,
            r.fees().spec_thresholds().len() == 0,
            r.fees().spec_discounts().len() == 0,
            r.spec_attestations() == Map::<(u64, Seq<char>), AttestationData>::empty(),
            forall|b: Address| !r.has_ranges(b),
            forall|b: Address| r.ranges_of(b).len() == 0,
    {
        let r = AttestationContract {
            fees: FeeSchedule::new(),
            attestations: Store::new(),
            ranges: Store::new(),
        };
        assert forall|b: Address| #[trigger] ranges_valid(r.ranges_of(b)) by {
            assert(r.ranges_of(b) == Seq::<AttestationRange>::empty());
        }
        r
    }

    /// Set the admin once; refused when an admin exists.
    pub fn initialize(&mut self, admin: Address) -> (r: Result<(), AttestationError>)
        requires
            old(self).wf(),
        ensures
            final(self).wf(),
            old(self).fees().spec_admin() is Some ==> r == Err::<(), _>(
                AttestationError::AlreadyInitialized,
            ) && *final(self) == *old(self),
            old(self).fees().spec_admin() is None ==> {
                &&& r is Ok
                &&& final(self).fees().spec_admin() == Some(admin)
                &&& final(self).fees().spec_fee_config() == old(self).fees().spec_fee_config()
                &&& final(self).fees().same_discounts(&old(self).fees())
                &&& final(self).fees().same_counts(&old(self).fees())
                &&& final(self).same_records(&*old(self))
            },
    {
        if self.fees.is_initialized() {
            return Err(AttestationError::AlreadyInitialized);
        }
        self.fees.set_admin(admin);
        proof {
            Self::lemma_wf_kept(&*old(self), &*self);
        }
        Ok(())
    }

    /// Store the fee configuration. Admin only; the base fee must not be
    /// negative.
    pub fn configure_fees(
        &mut self,
        token: Address,
        collector: Address,
        base_fee: i128,
        enabled: bool,
    ) -> (r: Result<(), AttestationError>)
        requires
            old(self).wf(),
        ensures
            final(self).wf(),
            old(self).fees().spec_admin() is None ==> r == Err::<(), _>(
                AttestationError::Fee(FeeError::NotInitialized),
            ),
            old(self).fees().spec_admin() is Some && base_fee < 0 ==> r == Err::<(), _>(
                AttestationError::NegativeBaseFee,
            ),
            r is Err ==> *final(self) == *old(self),
            old(self).fees().spec_admin() is Some && base_fee >= 0 ==> {
                &&& r is Ok
                &&& final(self).fees().spec_fee_config() == Some(
                    FeeConfig { token, collector, base_fee, enabled },
                )
                &&& final(self).fees().spec_admin() == old(self).fees().spec_admin()
                &&& final(self).fees().same_discounts(&old(self).fees())
                &&& final(self).fees().same_counts(&old(self).fees())
                &&& final(self).same_records(&*old(self))
            },
    {
        match self.fees.require_admin() {
            Err(e) => {
                return Err(AttestationError::Fee(e));
            },
            Ok(_) => {},
        }
        if base_fee < 0 {
            return Err(AttestationError::NegativeBaseFee);
        }
        self.fees.set_fee_config(FeeConfig { token, collector, base_fee, enabled });
        proof {
            Self::lemma_wf_kept(&*old(self), &*self);
        }
        Ok(())
    }

    /// Set a tier's discount (at most 10 000 bps). Admin only.
    pub fn set_tier_discount(&mut self, tier: u32, discount_bps: u32) -> (r: Result<
        (),
        AttestationError,
    >)
        requires
            old(self).wf(),
        ensures
            final(self).wf(),
            old(self).fees().spec_admin() is None ==> r == Err::<(), _>(
                AttestationError::Fee(FeeError::NotInitialized),
            ),
            old(self).fees().spec_admin() is Some && discount_bps > MAX_BPS ==> r == Err::<(), _>(
                AttestationError::Fee(FeeError::DiscountTooHigh),
            ),
            r is Err ==> *final(self) == *old(self),
            old(self).fees().spec_admin() is Some && discount_bps <= MAX_BPS ==> {
                &&& r is Ok
                &&& forall|t: u32| #[trigger]
                    final(self).fees().tier_discount(t) == if t == tier {
                        discount_bps
                    } else {
                        old(self).fees().tier_discount(t)
                    }
                &&& final(self).fees().spec_admin() == old(self).fees().spec_admin()
                &&& final(self).fees().spec_fee_config() == old(self).fees().spec_fee_config()
                &&& forall|b: Address| #[trigger]
                    final(self).fees().business_tier(b) == old(self).fees().business_tier(b)
                &&& final(self).fees().spec_thresholds() == old(self).fees().spec_thresholds()
                &&& final(self).fees().spec_discounts() == old(self).fees().spec_discounts()
                &&& final(self).fees().same_counts(&old(self).fees())
                &&& final(self).same_records(&*old(self))
            },
    {
        match self.fees.require_admin() {
            Err(e) => {
                return Err(AttestationError::Fee(e));
            },
            Ok(_) => {},
        }
        match self.fees.set_tier_discount(tier, discount_bps) {
            Err(e) => {
                return Err(AttestationError::Fee(e));
            },
            Ok(()) => {},
        }
        proof {
            Self::lemma_wf_kept(&*old(self), &*self);
        }
        Ok(())
    }

    /// Assign a business to a tier. Admin only.
    pub fn set_business_tier(&mut self, business: Address, tier: u32) -> (r: Result<
        (),
        AttestationError,
    >)
        requires
            old(self).wf(),
        ensures
            final(self).wf(),
            old(self).fees().spec_admin() is None ==> r == Err::<(), _>(
                AttestationError::Fee(FeeError::NotInitialized),
            ) && *final(self) == *old(self),
            old(self).fees().spec_admin() is Some ==> {
                &&& r is Ok
                &&& forall|b: Address| #[trigger]
                    final(self).fees().business_tier(b) == if b == business {
                        tier
                    } else {
                        old(self).fees().business_tier(b)
                    }
                &&& final(self).fees().spec_admin() == old(self).fees().spec_admin()
                &&& final(self).fees().spec_fee_config() == old(self).fees().spec_fee_config()
                &&& forall|t: u32| #[trigger]
                    final(self).fees().tier_discount(t) == old(self).fees().tier_discount(t)
                &&& final(self).fees().spec_thresholds() == old(self).fees().spec_thresholds()
                &&& final(self).fees().spec_discounts() == old(self).fees().spec_discounts()
                &&& final(self).fees().same_counts(&old(self).fees())
                &&& final(self).same_records(&*old(self))
            },
    {
        match self.fees.require_admin() {
            Err(e) => {
                return Err(AttestationError::Fee(e));
            },
            Ok(_) => {},
        }
        self.fees.set_business_tier(business, tier);
        proof {
            Self::lemma_wf_kept(&*old(self), &*self);
        }
        Ok(())
    }

    /// Replace the volume brackets after validating them. Admin only.
    pub fn set_volume_brackets(&mut self, thresholds: Vec<u64>, discounts: Vec<u32>) -> (r:
        Result<(), AttestationError>)
        requires
            old(self).wf(),
        ensures
            final(self).wf(),
            old(self).fees().spec_admin() is None ==> r == Err::<(), _>(
                AttestationError::Fee(FeeError::NotInitialized),
            ),
            old(self).fees().spec_admin() is Some ==> match bracket_error(
                thresholds@,
                discounts@,
            ) {
                Some(e) => r == Err::<(), _>(AttestationError::Fee(e)),
                None => r is Ok,
            },
            r is Err ==> *final(self) == *old(self),
            r is Ok ==> {
                &&& final(self).fees().spec_thresholds() == thresholds@
                &&& final(self).fees().spec_discounts() == discounts@
                &&& final(self).fees().spec_admin() == old(self).fees().spec_admin()
                &&& final(self).fees().spec_fee_config() == old(self).fees().spec_fee_config()
                &&& forall|t: u32| #[trigger]
                    final(self).fees().tier_discount(t) == old(self).fees().tier_discount(t)
                &&& forall|b: Address| #[trigger]
                    final(self).fees().business_tier(b) == old(self).fees().business_tier(b)
                &&& final(self).fees().same_counts(&old(self).fees())
                &&& final(self).same_records(&*old(self))
            },
    {
        match self.fees.require_admin() {
            Err(e) => {
                return Err(AttestationError::Fee(e));
            },
            Ok(_) => {},
        }
        match self.fees.set_volume_brackets(thresholds, discounts) {
            Err(e) => {
                return Err(AttestationError::Fee(e));
            },
            Ok(()) => {},
        }
        proof {
            Self::lemma_wf_kept(&*old(self), &*self);
        }
        Ok(())
    }

    /// Switch fees on or off. Admin only; needs a stored configuration.
    pub fn set_fee_enabled(&mut self, enabled: bool) -> (r: Result<(), AttestationError>)
        requires
            old(self).wf(),
        ensures
            final(self).wf(),
            old(self).fees().spec_admin() is None ==> r == Err::<(), _>(
                AttestationError::Fee(FeeError::NotInitialized),
            ),
            old(self).fees().spec_admin() is Some && old(self).fees().spec_fee_config() is None
                ==> r == Err::<(), _>(AttestationError::FeesNotConfigured),
            r is Err ==> *final(self) == *old(self),
            old(self).fees().spec_admin() is Some && old(self).fees().spec_fee_config() is Some
                ==> {
                &&& r is Ok
                &&& final(self).fees().spec_fee_config() == Some(
                    FeeConfig { enabled, ..old(self).fees().spec_fee_config().unwrap() },
                )
                &&& final(self).fees().spec_admin() == old(self).fees().spec_admin()
                &&& final(self).fees().same_discounts(&old(self).fees())
                &&& final(self).fees().same_counts(&old(self).fees())
                &&& final(self).same_records(&*old(self))
            },
    {
        match self.fees.require_admin() {
            Err(e) => {
                return Err(AttestationError::Fee(e));
            },
            Ok(_) => {},
        }
        let mut config = match self.fees.get_fee_config() {
            Some(c) => c,
            None => {
                return Err(AttestationError::FeesNotConfigured);
            },
        };
        config.enabled = enabled;
        self.fees.set_fee_config(config);
        proof {
            Self::lemma_wf_kept(&*old(self), &*self);
        }
        Ok(())
    }

    /// The fee configuration, if any.
    pub fn get_fee_config(&self) -> (r: Option<FeeConfig>)
        ensures
            r == self.fees().spec_fee_config(),
    {
        self.fees.get_fee_config()
    }

    /// What `business` would pay for its next attestation.
    pub fn get_fee_quote(&self, business: Address) -> (r: Result<i128, AttestationError>)
        requires
            self.wf(),
        ensures
            match self.fees().fee_for(business) {
                Some(f) => r == Ok::<i128, AttestationError>(f),
                None => r == Err::<i128, _>(AttestationError::Fee(FeeError::FeeOverflow)),
            },
    {
        match self.fees.calculate_fee(business) {
            Ok(f) => Ok(f),
            Err(e) => Err(AttestationError::Fee(e)),
        }
    }

    pub fn get_business_tier(&self, business: Address) -> (r: u32)
        ensures
            r == self.fees().business_tier(business),
    {
        self.fees.get_business_tier(business)
    }

    pub fn get_business_count(&self, business: Address) -> (r: u64)
        ensures
            r == self.fees().business_count(business),
    {
        self.fees.get_business_count(business)
    }

    /// The admin; refused before initialization.
    pub fn get_admin(&self) -> (r: Result<Address, AttestationError>)
        ensures
            match self.fees().spec_admin() {
                Some(a) => r == Ok::<Address, AttestationError>(a),
                None => r == Err::<Address, _>(AttestationError::Fee(FeeError::NotInitialized)),
            },
    {
        match self.fees.get_admin() {
            Ok(a) => Ok(a),
            Err(e) => Err(AttestationError::Fee(e)),
        }
    }

    /// Record a single-period attestation and charge its fee. Refused when
    /// the (business, period) slot is taken. Returns the fee transfer the
    /// host must carry out, if any.
    pub fn submit_attestation(
        &mut self,
        business: Address,
        period: String,
        merkle_root: Hash32,
        timestamp: u64,
        version: u32,
    ) -> (r: Result<Option<TokenTransfer>, AttestationError>)
        requires
            old(self).wf(),
        ensures
            final(self).wf(),
            match old(self).submit_error(business, period@) {
                Some(e) => r == Err::<Option<TokenTransfer>, _>(e) && *final(self) == *old(self),
                None => {
                    let f = old(self).fees().fee_for(business).unwrap();
                    &&& r == Ok::<Option<TokenTransfer>, AttestationError>(
                        old(self).fees().fee_transfer(business, f),
                    )
                    &&& final(self).spec_attestations() == old(self).spec_attestations().insert(
                        (business, period@),
                        (merkle_root, timestamp, version, f),
                    )
                    &&& final(self).fees().counted_once(&old(self).fees(), business)
                    &&& final(self).same_ranges(&*old(self))
                },
            },
    {
        let key = (business, period);
        if self.attestations.has(&key) {
            return Err(AttestationError::AlreadyExists);
        }
        let (fee, transfer) = match self.fees.collect_fee(business) {
            Ok(x) => x,
            Err(e) => {
                return Err(AttestationError::Fee(e));
            },
        };
        match self.fees.increment_business_count(business) {
            Err(e) => {
                return Err(AttestationError::Fee(e));
            },
            Ok(_) => {},
        }
        self.attestations.set(key, (merkle_root, timestamp, version, fee));
        proof {
            Self::lemma_wf_kept(&*old(self), &*self);
        }
        Ok(transfer)
    }

    /// The single-period attestation of (business, period), if any.
    pub fn get_attestation(&self, business: Address, period: String) -> (r: Option<
        AttestationData,
    >)
        ensures
            r == if self.spec_attestations().contains_key((business, period@)) {
                Some(self.spec_attestations()[(business, period@)])
            } else {
                None::<AttestationData>
            },
    {
        let key = (business, period);
        match self.attestations.get(&key) {
            Some(d) => Some(*d),
            None => None,
        }
    }

    /// Whether (business, period) is attested with exactly `merkle_root`.
    pub fn verify_attestation(&self, business: Address, period: String, merkle_root: Hash32) -> (r:
        bool)
        ensures
            r == (self.spec_attestations().contains_key((business, period@))
                && self.spec_attestations()[(business, period@)].0@ == merkle_root@),
    {
        match self.get_attestation(business, period) {
            Some(d) => hash_eq(&d.0, &merkle_root),
            None => false,
        }
    }

    fn ranges_copy(&self, business: Address) -> (r: Vec<AttestationRange>)
        ensures
            r@ == self.ranges_of(business),
    {
        match self.ranges.get(&business) {
            Some(v) => copy_vec(v),
            None => Vec::new(),
        }
    }

    /// Record an attestation over `start_period ..= end_period` and charge
    /// its fee. Refused when the range is empty or shares a period with an
    /// unrevoked range of the same business. Returns the fee transfer the
    /// host must carry out, if any.
    pub fn submit_multi_period_attestation(
        &mut self,
        business: Address,
        start_period: u32,
        end_period: u32,
        merkle_root: Hash32,
        timestamp: u64,
        version: u32,
    ) -> (r: Result<Option<TokenTransfer>, AttestationError>)
        requires
            old(self).wf(),
        ensures
            final(self).wf(),
            match old(self).multi_submit_error(business, start_period, end_period) {
                Some(e) => r == Err::<Option<TokenTransfer>, _>(e) && *final(self) == *old(self),
                None => {
                    let f = old(self).fees().fee_for(business).unwrap();
                    &&& r == Ok::<Option<TokenTransfer>, AttestationError>(
                        old(self).fees().fee_transfer(business, f),
                    )
                    &&& final(self).ranges_of(business) == old(self).ranges_of(business).push(
                        AttestationRange {
                            start_period,
                            end_period,
                            merkle_root,
                            timestamp,
                            version,
                            fee_paid: f,
                            revoked: false,
                        },
                    )
                    &&& final(self).has_ranges(business)
                    &&& forall|b: Address|
                        b != business ==> #[trigger] final(self).ranges_of(b) == old(self).ranges_of(b) && final(self).has_ranges(b) == old(self).has_ranges(b)
                    &&& final(self).spec_attestations() == old(self).spec_attestations()
                    &&& final(self).fees().counted_once(&old(self).fees(), business)
                },
            },
    {
        if start_period > end_period {
            return Err(AttestationError::InvalidRange);
        }
        let mut ranges = self.ranges_copy(business);
        if find_overlap(&ranges, start_period, end_period) {
            return Err(AttestationError::OverlappingRange);
        }
        let (fee, transfer) = match self.fees.collect_fee(business) {
            Ok(x) => x,
            Err(e) => {
                return Err(AttestationError::Fee(e));
            },
        };
        match self.fees.increment_business_count(business) {
            Err(e) => {
                return Err(AttestationError::Fee(e));
            },
            Ok(_) => {},
        }
        let ghost before = ranges@;
        let new_range = AttestationRange {
            start_period,
            end_period,
            merkle_root,
            timestamp,
            version,
            fee_paid: fee,
            revoked: false,
        };
        ranges.push(new_range);
        self.ranges.set(business, ranges);
        proof {
            let s = before.push(new_range);
            assert(final_ranges_ok(before, new_range)) by {
                assert forall|i: int| 0 <= i < before.len() && !before[i].revoked implies (
                #[trigger] before[i]).end_period < start_period || end_period
                    < before[i].start_period by {
                    assert(!overlaps(before[i], start_period, end_period));
                }
            }
            lemma_push_valid(before, new_range);
            assert forall|b: Address| #[trigger] ranges_valid(self.ranges_of(b)) by {
                if b != business {
                    assert(self.ranges_of(b) == old(self).ranges_of(b));
                } else {
                    assert(self.ranges_of(b) == s);
                }
            }
        }
        Ok(transfer)
    }

    /// The unrevoked range covering `target_period`, if any.
    pub fn get_attestation_for_period(&self, business: Address, target_period: u32) -> (r: Option<
        AttestationRange,
    >)
        ensures
            r == self.range_for(business, target_period),
    {
        let ranges = self.ranges_copy(business);
        find_covering(&ranges, target_period)
    }

    /// Whether the range covering `target_period` carries `merkle_root`.
    pub fn verify_multi_period_attestation(
        &self,
        business: Address,
        target_period: u32,
        merkle_root: Hash32,
    ) -> (r: bool)
        ensures
            r == match self.range_for(business, target_period) {
                Some(x) => x.merkle_root@ == merkle_root@,
                None => false,
            },
    {
        match self.get_attestation_for_period(business, target_period) {
            Some(x) => hash_eq(&x.merkle_root, &merkle_root),
            None => false,
        }
    }

    /// Revoke every range of `business` whose root is `merkle_root`.
    pub fn revoke_multi_period_attestation(&mut self, business: Address, merkle_root: Hash32) -> (r:
        Result<(), AttestationError>)
        requires
            old(self).wf(),
        ensures
            final(self).wf(),
            match old(self).revoke_error(business, merkle_root) {
                Some(e) => r == Err::<(), _>(e) && *final(self) == *old(self),
                None => {
                    &&& r is Ok
                    &&& final(self).ranges_of(business) == old(self).ranges_of(business).map_values(
                        |x: AttestationRange| revoke_matching(x, merkle_root),
                    )
                    &&& forall|b: Address| #[trigger] final(self).has_ranges(b) == old(self).has_ranges(b)
                    &&& forall|b: Address|
                        b != business ==> #[trigger] final(self).ranges_of(b) == old(self).ranges_of(b)
                    &&& final(self).spec_attestations() == old(self).spec_attestations()
                    &&& final(self).fees() == old(self).fees()
                },
            },
    {
        let ranges = match self.ranges.get(&business) {
            Some(v) => copy_vec(v),
            None => {
                return Err(AttestationError::NoRanges);
            },
        };
        let ghost s = ranges@;
        let mut updated: Vec<AttestationRange> = Vec::new();
        let mut found = false;
        let mut i: usize = 0;
        while i < ranges.len()
            invariant
                i <= ranges@.len(),
                ranges@ == s,
                updated@ == s.subrange(0, i as int).map_values(
                    |x: AttestationRange| revoke_matching(x, merkle_root),
                ),
                found == exists|j: int| 0 <= j < i && (#[trigger] s[j]).merkle_root@ == merkle_root@,
            decreases ranges@.len() - i,
        {
            let mut rg = ranges[i];
            let hit = hash_eq(&rg.merkle_root, &merkle_root);
            if hit {
                rg.revoked = true;
                found = true;
            }
            updated.push(rg);
            proof {
                assert(s.subrange(0, i + 1).map_values(|x: AttestationRange| revoke_matching(x, merkle_root))
                    =~= s.subrange(0, i as int).map_values(|x: AttestationRange| revoke_matching(x, merkle_root)).push(
                    revoke_matching(s[i as int], merkle_root),
                ));
                if hit {
                    assert(s[i as int].merkle_root@ == merkle_root@);
                }
            }
            i = i + 1;
        }
        assert(s.subrange(0, s.len() as int) =~= s);
        if !found {
            return Err(AttestationError::RootNotFound);
        }
        self.ranges.set(business, updated);
        proof {
            let t = s.map_values(|x: AttestationRange| revoke_matching(x, merkle_root));
            assert forall|b: Address| #[trigger] ranges_valid(self.ranges_of(b)) by {
                if b != business {
                    assert(self.ranges_of(b) == old(self).ranges_of(b));
                } else {
                    assert(ranges_valid(old(self).ranges_of(b)));
                    assert(self.ranges_of(b) == t);
                    assert forall|i: int, j: int|
                        0 <= i < t.len() && 0 <= j < t.len() && i != j && !t[i].revoked
                            && !t[j].revoked implies (#[trigger] t[i]).end_period < (
                    #[trigger] t[j]).start_period || t[j].end_period < t[i].start_period by {
                        assert(s[i].start_period == t[i].start_period && s[j].start_period == t[j].start_period);
                    }
                    assert forall|i: int| 0 <= i < t.len() implies #[trigger] t[i].start_period <= t[i].end_period by {
                        assert(s[i].start_period <= s[i].end_period);
                    }
                }
            }
        }
        Ok(())
    }
}

proof fn lemma_first_covering_skips(s: Seq<AttestationRange>, period: u32, i: int, k: int)
    requires
        ranges_valid(s),
        0 <= i <= k < s.len(),
        covers(s[k], period),
    ensures
        first_covering(s, period, i) == Some(s[k]),
    decreases k - i,
{
    if i < k {
        assert(!covers(s[i], period)) by {
            if covers(s[i], period) {
                assert(s[i].end_period < s[k].start_period || s[k].end_period < s[i].start_period);
            }
        }
        lemma_first_covering_skips(s, period, i + 1, k);
    }
}

proof fn lemma_first_covering_found(s: Seq<AttestationRange>, period: u32, i: int)
    requires
        first_covering(s, period, i) is Some,
    ensures
        exists|k: int|
            0 <= k < s.len() && covers(s[k], period) && #[trigger] s[k] == first_covering(
                s,
                period,
                i,
            ).unwrap(),
    decreases s.len() - i,
{
    if 0 <= i < s.len() && !covers(s[i], period) {
        lemma_first_covering_found(s, period, i + 1);
    }
}

/// No two unrevoked ranges of a business share a period.
pub proof fn law_unrevoked_ranges_never_share_a_period(
    c: &AttestationContract,
    b: Address,
    i: int,
    j: int,
    period: u32,
)
    requires
        c.wf(),
        0 <= i < c.ranges_of(b).len(),
        0 <= j < c.ranges_of(b).len(),
        i != j,
    ensures
        !(covers(c.ranges_of(b)[i], period) && covers(c.ranges_of(b)[j], period)),
{
    let s = c.ranges_of(b);
    assert(ranges_valid(s));
    if covers(s[i], period) && covers(s[j], period) {
        assert(s[i].end_period < s[j].start_period || s[j].end_period < s[i].start_period);
    }
}

/// A period that an unrevoked range covers resolves to that range.
pub proof fn law_period_resolves_to_its_range(
    c: &AttestationContract,
    b: Address,
    k: int,
    period: u32,
)
    requires
        c.wf(),
        0 <= k < c.ranges_of(b).len(),
        covers(c.ranges_of(b)[k], period),
    ensures
        c.range_for(b, period) == Some(c.ranges_of(b)[k]),
{
    assert(ranges_valid(c.ranges_of(b)));
    lemma_first_covering_skips(c.ranges_of(b), period, 0, k);
}

/// After a range is added, each of its periods resolves to it, so it
/// verifies with its own root.
pub proof fn law_submitted_range_answers_its_periods(
    before: &AttestationContract,
    after: &AttestationContract,
    b: Address,
    range: AttestationRange,
    period: u32,
)
    requires
        after.wf(),
        after.ranges_of(b) == before.ranges_of(b).push(range),
        !range.revoked,
        range.start_period <= period <= range.end_period,
    ensures
        after.range_for(b, period) == Some(range),
{
    let k = before.ranges_of(b).len() as int;
    assert(after.ranges_of(b)[k] == range);
    law_period_resolves_to_its_range(after, b, k, period);
}

/// Once a root is revoked, no period verifies with it.
pub proof fn law_revoked_root_never_verifies(
    before: &AttestationContract,
    after: &AttestationContract,
    b: Address,
    root: Hash32,
    period: u32,
)
    requires
        after.ranges_of(b) == before.ranges_of(b).map_values(
            |x: AttestationRange| revoke_matching(x, root),
        ),
    ensures
        match after.range_for(b, period) {
            Some(x) => x.merkle_root@ != root@,
            None => true,
        },
{
    let s = after.ranges_of(b);
    if first_covering(s, period, 0) is Some {
        lemma_first_covering_found(s, period, 0);
        let k = choose|k: int|
            0 <= k < s.len() && covers(s[k], period) && #[trigger] s[k] == first_covering(
                s,
                period,
                0,
            ).unwrap();
        assert(s[k] == revoke_matching(before.ranges_of(b)[k], root));
    }
}

/// A (business, period) slot is written once: after a submission it holds
/// what was submitted and every further submission for it is refused.
pub proof fn law_single_period_written_once(
    before: &AttestationContract,
    after: &AttestationContract,
    b: Address,
    period: Seq<char>,
    data: AttestationData,
)
    requires
        after.spec_attestations() == before.spec_attestations().insert((b, period), data),
    ensures
        after.spec_attestations()[(b, period)] == data,
        after.submit_error(b, period) == Some(AttestationError::AlreadyExists),
{
}

} // verus!
