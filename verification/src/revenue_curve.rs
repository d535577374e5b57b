//! Revenue-curve pricing: turns attested revenue and an anomaly (risk)
//! score into an APR for lenders.
//!
//! ```text
//! apr = clamp(base + score × premium_per_point − tier_discount, min, max)
//! ```
//!
//! where the subtraction stops at zero and the tier discount is the largest
//! discount among the revenue tiers whose threshold the revenue reaches.
//! Whether the business's attestation exists and is revoked is asked of
//! the attestation contract by the host and handed in.
use vstd::prelude::*;
use crate::types::Address;

verus! {

/// Pricing policy; all rates in basis points.
#[derive(Clone, Copy, Debug, PartialEq, Eq, Structural)]
pub struct PricingPolicy {
    pub base_apr_bps: u32,
    pub min_apr_bps: u32,
    pub max_apr_bps: u32,
    /// Premium per anomaly-score point.
    pub risk_premium_bps_per_point: u32,
    pub enabled: bool,
}

/// A revenue tier: revenue from `min_revenue` up earns `discount_bps`.
#[derive(Clone, Copy, Debug, PartialEq, Eq, Structural)]
pub struct RevenueTier {
    pub min_revenue: i128,
    pub discount_bps: u32,
}

/// A computed price and its parts.
#[derive(Clone, Copy, Debug, PartialEq, Eq, Structural)]
pub struct PricingOutput {
    pub apr_bps: u32,
    pub base_apr_bps: u32,
    pub risk_premium_bps: u32,
    pub tier_discount_bps: u32,
    /// 1-based position of the tier applied; 0 if none.
    pub tier_level: u32,
}

/// Why a pricing call was refused.
#[derive(Clone, Copy, Debug, PartialEq, Eq, Structural)]
pub enum CurveError {
    AlreadyInitialized,
    NotInitialized,
    NotAdmin,
    MinAboveMax,
    BaseOutOfRange,
    TiersNotSorted,
    DiscountTooHigh,
    InvalidAnomalyScore,
    PolicyNotConfigured,
    PolicyDisabled,
    AttestationContractNotSet,
    AttestationNotFound,
    AttestationRevoked,
    Overflow,
}

/// Highest anomaly score.
pub const MAX_ANOMALY_SCORE: u32 = 100;

/// The tier discount for `revenue` and its 1-based level: scanning in
/// order, a reached tier replaces the current choice when its discount is
/// strictly larger.
pub open spec fn best_tier(tiers: Seq<RevenueTier>, revenue: i128) -> (u32, u32)
    decreases tiers.len(),
{
    if tiers.len() == 0 {
        (0, 0)
    } else {
        let prev = best_tier(tiers.drop_last(), revenue);
        let t = tiers.last();
        if revenue >= t.min_revenue && t.discount_bps > prev.0 {
            (t.discount_bps, tiers.len() as u32)
        } else {
            prev
        }
    }
}

/// The first problem of tiers `i..`: a threshold not above its
/// predecessor's, then a discount above 100 %.
pub open spec fn tiers_error(tiers: Seq<RevenueTier>, i: int) -> Option<CurveError>
    decreases tiers.len() - i,
{
    if i < 0 || i >= tiers.len() {
        None
    } else if i > 0 && tiers[i].min_revenue <= tiers[i - 1].min_revenue {
        Some(CurveError::TiersNotSorted)
    } else if tiers[i].discount_bps > 10000 {
        Some(CurveError::DiscountTooHigh)
    } else {
        tiers_error(tiers, i + 1)
    }
}

/// `a` reduced by `b`, stopping at zero.
pub open spec fn sub_floor(a: int, b: int) -> int {
    if a >= b {
        a - b
    } else {
        0
    }
}

/// `x` clamped from below by `lo`, then from above by `hi`.
pub open spec fn clamp_bps(x: int, lo: int, hi: int) -> int {
    let y = if x < lo {
        lo
    } else {
        x
    };
    if y > hi {
        hi
    } else {
        y
    }
}

/// The price for `revenue` and `anomaly_score` under policy `p` and
/// `tiers`.
pub open spec fn price(p: PricingPolicy, tiers: Seq<RevenueTier>, revenue: i128, anomaly_score: u32) -> PricingOutput {
    let premium = anomaly_score * p.risk_premium_bps_per_point;
    let (disc, level) = best_tier(tiers, revenue);
    PricingOutput {
        apr_bps: clamp_bps(
            sub_floor(p.base_apr_bps + premium, disc as int),
            p.min_apr_bps as int,
            p.max_apr_bps as int,
        ) as u32,
        base_apr_bps: p.base_apr_bps,
        risk_premium_bps: premium as u32,
        tier_discount_bps: disc,
        tier_level: level,
    }
}

/// The premium and the raw APR fit in `u32`.
pub open spec fn price_fits(p: PricingPolicy, anomaly_score: u32) -> bool {
    &&& anomaly_score * p.risk_premium_bps_per_point <= u32::MAX
    &&& p.base_apr_bps + anomaly_score * p.risk_premium_bps_per_point <= u32::MAX
}

/// The tier discount and level for `revenue`.
pub fn find_tier_discount(tiers: &Vec<RevenueTier>, revenue: i128) -> (r: (u32, u32))
    requires
        tiers@.len() < u32::MAX,
    ensures
        r == best_tier(tiers@, revenue),
{
    let mut best_discount: u32 = 0;
    let mut best_level: u32 = 0;
    let mut i: usize = 0;
    while i < tiers.len()
        invariant
            i <= tiers@.len(),
            tiers@.len() < u32::MAX,
            (best_discount, best_level) == best_tier(tiers@.subrange(0, i as int), revenue),
        decreases tiers@.len() - i,
    {
        let t = tiers[i];
        proof {
            let s = tiers@.subrange(0, i + 1);
            assert(s.drop_last() =~= tiers@.subrange(0, i as int));
            assert(s.last() == t);
        }
        if revenue >= t.min_revenue && t.discount_bps > best_discount {
            best_discount = t.discount_bps;
            best_level = (i + 1) as u32;
        }
        i = i + 1;
    }
    assert(tiers@.subrange(0, tiers@.len() as int) =~= tiers@);
    (best_discount, best_level)
}

/// Check tiers: thresholds strictly ascending, discounts at most 100 %.
pub fn validate_tiers(tiers: &Vec<RevenueTier>) -> (r: Result<(), CurveError>)
    ensures
        match tiers_error(tiers@, 0) {
            Some(e) => r == Err::<(), _>(e),
            None => r is Ok,
        },
{
    let mut i: usize = 0;
    while i < tiers.len()
        invariant
            i <= tiers@.len(),
            tiers_error(tiers@, 0) == tiers_error(tiers@, i as int),
        decreases tiers@.len() - i,
    {
        if i > 0 && tiers[i].min_revenue <= tiers[i - 1].min_revenue {
            return Err(CurveError::TiersNotSorted);
        }
        if tiers[i].discount_bps > 10000 {
            return Err(CurveError::DiscountTooHigh);
        }
        i = i + 1;
    }
    Ok(())
}

/// The price under `policy` and `tiers`, or `Overflow` where the premium
/// or the raw APR leaves `u32`.
pub fn compute_pricing(policy: PricingPolicy, tiers: &Vec<RevenueTier>, revenue: i128, anomaly_score: u32) -> (r:
    Result<PricingOutput, CurveError>)
    requires
        tiers@.len() < u32::MAX,
    ensures
        price_fits(policy, anomaly_score) ==> r == Ok::<PricingOutput, CurveError>(
            price(policy, tiers@, revenue, anomaly_score),
        ),
        !price_fits(policy, anomaly_score) ==> r == Err::<PricingOutput, _>(CurveError::Overflow),
{
    let premium = match anomaly_score.checked_mul(policy.risk_premium_bps_per_point) {
        Some(v) => v,
        None => {
            return Err(CurveError::Overflow);
        },
    };
    let raw = match policy.base_apr_bps.checked_add(premium) {
        Some(v) => v,
        None => {
            return Err(CurveError::Overflow);
        },
    };
    let (disc, level) = find_tier_discount(tiers, revenue);
    let mut apr = raw.saturating_sub(disc);
    if apr < policy.min_apr_bps {
        apr = policy.min_apr_bps;
    }
    if apr > policy.max_apr_bps {
        apr = policy.max_apr_bps;
    }
    Ok(
        PricingOutput {
            apr_bps: apr,
            base_apr_bps: policy.base_apr_bps,
            risk_premium_bps: premium,
            tier_discount_bps: disc,
            tier_level: level,
        },
    )
}

/// Pricing-contract storage.
pub struct RevenueCurveContract {
    admin: Option<Address>,
    attestation_contract: Option<Address>,
    policy: Option<PricingPolicy>,
    tiers: Option<Vec<RevenueTier>>,
}

impl RevenueCurveContract {
    pub closed spec fn spec_admin(&self) -> Option<Address> {
        self.admin
    }

    pub closed spec fn spec_attestation_contract(&self) -> Option<Address> {
        self.attestation_contract
    }

    pub closed spec fn spec_policy(&self) -> Option<PricingPolicy> {
        self.policy
    }

    pub closed spec fn spec_tiers(&self) -> Option<Seq<RevenueTier>> {
        match self.tiers {
            Some(v) => Some(v@),
            None => None,
        }
    }

    /// The tiers that apply (none when unset).
    pub open spec fn tiers_or_empty(&self) -> Seq<RevenueTier> {
        match self.spec_tiers() {
            Some(t) => t,
            None => Seq::empty(),
        }
    }

    /// Invariant: a stored policy is consistent and stored tiers are valid.
    pub open spec fn wf(&self) -> bool {
        &&& self.spec_policy() matches Some(p) ==> p.min_apr_bps <= p.base_apr_bps
            <= p.max_apr_bps
        &&& self.spec_tiers() matches Some(t) ==> t.len() < u32::MAX && tiers_error(t, 0) is None
    }

    /// The admin check.
    pub open spec fn admin_error(&self, caller: Address) -> Option<CurveError> {
        match self.spec_admin() {
            None => Some(CurveError::NotInitialized),
            Some(a) => if a != caller {
                Some(CurveError::NotAdmin)
            } else {
                None
            },
        }
    }

    /// The error a quote meets, if any.
    pub open spec fn quote_error(&self, anomaly_score: u32) -> Option<CurveError> {
        if anomaly_score > MAX_ANOMALY_SCORE {
            Some(CurveError::InvalidAnomalyScore)
        } else if self.spec_policy() is None {
            Some(CurveError::PolicyNotConfigured)
        } else if !self.spec_policy().unwrap().enabled {
            Some(CurveError::PolicyDisabled)
        } else if !price_fits(self.spec_policy().unwrap(), anomaly_score) {
            Some(CurveError::Overflow)
        } else {
            None
        }
    }

    /// The error a verified pricing meets, if any.
    pub open spec fn pricing_error(&self, anomaly_score: u32, attestation_exists: bool, attestation_revoked: bool) -> Option<
        CurveError,
    > {
        if anomaly_score > MAX_ANOMALY_SCORE {
            Some(CurveError::InvalidAnomalyScore)
        } else if self.spec_policy() is None {
            Some(CurveError::PolicyNotConfigured)
        } else if !self.spec_policy().unwrap().enabled {
            Some(CurveError::PolicyDisabled)
        } else if self.spec_attestation_contract() is None {
            Some(CurveError::AttestationContractNotSet)
        } else if !attestation_exists {
            Some(CurveError::AttestationNotFound)
        } else if attestation_revoked {
            Some(CurveError::AttestationRevoked)
        } else if !price_fits(self.spec_policy().unwrap(), anomaly_score) {
            Some(CurveError::Overflow)
        } else {
            None
        }
    }

    /// Empty storage.
    pub fn new() -> (r: Self)
        ensures
            r.wf(),
            r.spec_admin() is None,
            r.spec_attestation_contract() is None,
            r.spec_policy() is None,
            r.spec_tiers() is None,
    {
        RevenueCurveContract { admin: None, attestation_contract: None, policy: None, tiers: None }
    }

    /// Set the admin, once.
    pub fn initialize(&mut self, admin: Address) -> (r: Result<(), CurveError>)
        requires
            old(self).wf(),
        ensures
            final(self).wf(),
            old(self).spec_admin() is Some ==> r == Err::<(), _>(CurveError::AlreadyInitialized)
                && *final(self) == *old(self),
            old(self).spec_admin() is None ==> r is Ok && final(self).spec_admin() == Some(admin)
                && final(self).spec_attestation_contract() == old(self).spec_attestation_contract()
                && final(self).spec_policy() == old(self).spec_policy()
                && final(self).spec_tiers() == old(self).spec_tiers(),
    {
        if self.admin.is_some() {
            return Err(CurveError::AlreadyInitialized);
        }
        self.admin = Some(admin);
        Ok(())
    }

    fn check_admin(&self, caller: Address) -> (r: Result<(), CurveError>)
        ensures
            match self.admin_error(caller) {
                Some(e) => r == Err::<(), _>(e),
                None => r is Ok,
            },
    {
        match self.admin {
            None => Err(CurveError::NotInitialized),
            Some(a) => if a != caller {
                Err(CurveError::NotAdmin)
            } else {
                Ok(())
            },
        }
    }

    /// Set the attestation contract consulted by `calculate_pricing`.
    /// Admin only.
    pub fn set_attestation_contract(&mut self, admin: Address, attestation_contract: Address) -> (r:
        Result<(), CurveError>)
        requires
            old(self).wf(),
        ensures
            final(self).wf(),
            match old(self).admin_error(admin) {
                Some(e) => r == Err::<(), _>(e) && *final(self) == *old(self),
                None => r is Ok && final(self).spec_attestation_contract() == Some(attestation_contract)
                    && final(self).spec_admin() == old(self).spec_admin()
                    && final(self).spec_policy() == old(self).spec_policy()
                    && final(self).spec_tiers() == old(self).spec_tiers(),
            },
    {
        self.check_admin(admin)?;
        self.attestation_contract = Some(attestation_contract);
        Ok(())
    }

    /// Store the pricing policy; needs min ≤ base ≤ max. Admin only.
    pub fn set_pricing_policy(&mut self, admin: Address, policy: PricingPolicy) -> (r: Result<
        (),
        CurveError,
    >)
        requires
            old(self).wf(),
        ensures
            final(self).wf(),
            old(self).admin_error(admin) matches Some(e) ==> r == Err::<(), _>(e),
            old(self).admin_error(admin) is None && policy.min_apr_bps > policy.max_apr_bps ==> r
                == Err::<(), _>(CurveError::MinAboveMax),
            old(self).admin_error(admin) is None && policy.min_apr_bps <= policy.max_apr_bps && !(
            policy.min_apr_bps <= policy.base_apr_bps <= policy.max_apr_bps) ==> r == Err::<(), _>(
                CurveError::BaseOutOfRange,
            ),
            r is Err ==> *final(self) == *old(self),
            old(self).admin_error(admin) is None && policy.min_apr_bps <= policy.base_apr_bps
                <= policy.max_apr_bps ==> r is Ok && final(self).spec_policy() == Some(policy)
                && final(self).spec_admin() == old(self).spec_admin()
                && final(self).spec_attestation_contract() == old(self).spec_attestation_contract()
                && final(self).spec_tiers() == old(self).spec_tiers(),
    {
        self.check_admin(admin)?;
        if policy.min_apr_bps > policy.max_apr_bps {
            return Err(CurveError::MinAboveMax);
        }
        if !(policy.base_apr_bps >= policy.min_apr_bps && policy.base_apr_bps <= policy.max_apr_bps) {
            return Err(CurveError::BaseOutOfRange);
        }
        self.policy = Some(policy);
        Ok(())
    }

    /// Store revenue tiers: thresholds strictly ascending, discounts at
    /// most 10 000 bps. Admin only.
    pub fn set_revenue_tiers(&mut self, admin: Address, tiers: Vec<RevenueTier>) -> (r: Result<
        (),
        CurveError,
    >)
        requires
            old(self).wf(),
            tiers@.len() < u32::MAX,
        ensures
            final(self).wf(),
            old(self).admin_error(admin) matches Some(e) ==> r == Err::<(), _>(e),
            old(self).admin_error(admin) is None ==> match tiers_error(tiers@, 0) {
                Some(e) => r == Err::<(), _>(e),
                None => r is Ok,
            },
            r is Err ==> *final(self) == *old(self),
            r is Ok ==> final(self).spec_tiers() == Some(tiers@) && final(self).spec_admin() == old(self).spec_admin() && final(self).spec_policy() == old(self).spec_policy()
                && final(self).spec_attestation_contract() == old(self).spec_attestation_contract(),
    {
        self.check_admin(admin)?;
        validate_tiers(&tiers)?;
        self.tiers = Some(tiers);
        Ok(())
    }

    fn apply(&self, revenue: i128, anomaly_score: u32) -> (r: Result<PricingOutput, CurveError>)
        requires
            self.wf(),
            self.spec_policy() is Some,
        ensures
            price_fits(self.spec_policy().unwrap(), anomaly_score) ==> r == Ok::<
                PricingOutput,
                CurveError,
            >(price(self.spec_policy().unwrap(), self.tiers_or_empty(), revenue, anomaly_score)),
            !price_fits(self.spec_policy().unwrap(), anomaly_score) ==> r == Err::<PricingOutput, _>(
                CurveError::Overflow,
            ),
    {
        let policy = match self.policy {
            Some(p) => p,
            None => {
                return Err(CurveError::PolicyNotConfigured);
            },
        };
        match &self.tiers {
            Some(t) => compute_pricing(policy, t, revenue, anomaly_score),
            None => {
                let empty: Vec<RevenueTier> = Vec::new();
                compute_pricing(policy, &empty, revenue, anomaly_score)
            },
        }
    }

    /// Price a business whose attestation for the period the host has
    /// looked up: `attestation_exists` and `attestation_revoked` are the
    /// attestation contract's answers.
    pub fn calculate_pricing(
        &self,
        revenue: i128,
        anomaly_score: u32,
        attestation_exists: bool,
        attestation_revoked: bool,
    ) -> (r: Result<PricingOutput, CurveError>)
        requires
            self.wf(),
        ensures
            match self.pricing_error(anomaly_score, attestation_exists, attestation_revoked) {
                Some(e) => r == Err::<PricingOutput, _>(e),
                None => r == Ok::<PricingOutput, CurveError>(
                    price(self.spec_policy().unwrap(), self.tiers_or_empty(), revenue, anomaly_score),
                ),
            },
    {
        if anomaly_score > MAX_ANOMALY_SCORE {
            return Err(CurveError::InvalidAnomalyScore);
        }
        let policy = match self.policy {
            Some(p) => p,
            None => {
                return Err(CurveError::PolicyNotConfigured);
            },
        };
        if !policy.enabled {
            return Err(CurveError::PolicyDisabled);
        }
        if self.attestation_contract.is_none() {
            return Err(CurveError::AttestationContractNotSet);
        }
        if !attestation_exists {
            return Err(CurveError::AttestationNotFound);
        }
        if attestation_revoked {
            return Err(CurveError::AttestationRevoked);
        }
        self.apply(revenue, anomaly_score)
    }

    /// Price without consulting the attestation contract (an estimate).
    pub fn get_pricing_quote(&self, revenue: i128, anomaly_score: u32) -> (r: Result<
        PricingOutput,
        CurveError,
    >)
        requires
            self.wf(),
        ensures
            match self.quote_error(anomaly_score) {
                Some(e) => r == Err::<PricingOutput, _>(e),
                None => r == Ok::<PricingOutput, CurveError>(
                    price(self.spec_policy().unwrap(), self.tiers_or_empty(), revenue, anomaly_score),
                ),
            },
    {
        if anomaly_score > MAX_ANOMALY_SCORE {
            return Err(CurveError::InvalidAnomalyScore);
        }
        let policy = match self.policy {
            Some(p) => p,
            None => {
                return Err(CurveError::PolicyNotConfigured);
            },
        };
        if !policy.enabled {
            return Err(CurveError::PolicyDisabled);
        }
        self.apply(revenue, anomaly_score)
    }

    pub fn get_pricing_policy(&self) -> (r: Option<PricingPolicy>)
        ensures
            r == self.spec_policy(),
    {
        self.policy
    }

    pub fn get_revenue_tiers(&self) -> (r: Option<Vec<RevenueTier>>)
        ensures
            match r {
                Some(v) => self.spec_tiers() == Some(v@),
                None => self.spec_tiers() is None,
            },
    {
        match &self.tiers {
            Some(t) => Some(crate::types::copy_vec(t)),
            None => None,
        }
    }

    pub fn get_attestation_contract(&self) -> (r: Option<Address>)
        ensures
            r == self.spec_attestation_contract(),
    {
        self.attestation_contract
    }

    /// The admin; refused before initialization.
    pub fn get_admin(&self) -> (r: Result<Address, CurveError>)
        ensures
            match self.spec_admin() {
                Some(a) => r == Ok::<Address, CurveError>(a),
                None => r == Err::<Address, _>(CurveError::NotInitialized),
            },
    {
        match self.admin {
            Some(a) => Ok(a),
            None => Err(CurveError::NotInitialized),
        }
    }
}

proof fn lemma_best_tier_facts(tiers: Seq<RevenueTier>, revenue: i128)
    requires
        tiers.len() < u32::MAX,
    ensures
        forall|i: int|
            0 <= i < tiers.len() && tiers[i].min_revenue <= revenue ==> #[trigger] tiers[i].discount_bps
                <= best_tier(tiers, revenue).0,
        best_tier(tiers, revenue).1 <= tiers.len(),
        best_tier(tiers, revenue).1 == 0 ==> best_tier(tiers, revenue).0 == 0,
        best_tier(tiers, revenue).1 > 0 ==> {
            let k = best_tier(tiers, revenue).1 - 1;
            &&& tiers[k].min_revenue <= revenue
            &&& tiers[k].discount_bps == best_tier(tiers, revenue).0
        },
    decreases tiers.len(),
{
    if tiers.len() > 0 {
        let t = tiers.drop_last();
        lemma_best_tier_facts(t, revenue);
        assert forall|i: int|
            0 <= i < tiers.len() && tiers[i].min_revenue <= revenue implies #[trigger] tiers[i].discount_bps
                <= best_tier(tiers, revenue).0 by {
            if i < t.len() {
                assert(t[i] == tiers[i]);
            }
        }
        let last = tiers.last();
        if revenue >= last.min_revenue && last.discount_bps > best_tier(t, revenue).0 {
            assert(best_tier(tiers, revenue).1 == tiers.len());
            assert(tiers[tiers.len() - 1] == last);
        } else if best_tier(tiers, revenue).1 > 0 {
            let k = best_tier(t, revenue).1 - 1;
            assert(t[k] == tiers[k]);
        }
    }
}

proof fn lemma_best_tier_monotone(tiers: Seq<RevenueTier>, r1: i128, r2: i128)
    requires
        r1 <= r2,
    ensures
        best_tier(tiers, r1).0 <= best_tier(tiers, r2).0,
    decreases tiers.len(),
{
    if tiers.len() > 0 {
        lemma_best_tier_monotone(tiers.drop_last(), r1, r2);
    }
}

/// The tier discount is the largest discount among the tiers the revenue
/// reaches, and the level names such a tier (0, with no discount, when no
/// tier with a positive discount is reached).
pub proof fn law_tier_discount_is_largest_reached(tiers: Seq<RevenueTier>, revenue: i128)
    requires
        tiers.len() < u32::MAX,
    ensures
        forall|i: int|
            0 <= i < tiers.len() && tiers[i].min_revenue <= revenue ==> #[trigger] tiers[i].discount_bps
                <= best_tier(tiers, revenue).0,
        best_tier(tiers, revenue).1 == 0 ==> best_tier(tiers, revenue).0 == 0,
        best_tier(tiers, revenue).1 > 0 ==> {
            let k = best_tier(tiers, revenue).1 - 1;
            &&& 0 <= k < tiers.len()
            &&& tiers[k].min_revenue <= revenue
            &&& tiers[k].discount_bps == best_tier(tiers, revenue).0
        },
{
    lemma_best_tier_facts(tiers, revenue);
}

/// Under a consistent policy the APR stays within the policy's bounds.
pub proof fn law_apr_within_bounds(
    p: PricingPolicy,
    tiers: Seq<RevenueTier>,
    revenue: i128,
    anomaly_score: u32,
)
    requires
        p.min_apr_bps <= p.max_apr_bps,
        price_fits(p, anomaly_score),
    ensures
        p.min_apr_bps <= price(p, tiers, revenue, anomaly_score).apr_bps <= p.max_apr_bps,
{
}

/// A higher anomaly score never lowers the APR.
pub proof fn law_riskier_never_cheaper(
    p: PricingPolicy,
    tiers: Seq<RevenueTier>,
    revenue: i128,
    score1: u32,
    score2: u32,
)
    requires
        score1 <= score2,
        price_fits(p, score1),
        price_fits(p, score2),
    ensures
        price(p, tiers, revenue, score1).apr_bps <= price(p, tiers, revenue, score2).apr_bps,
{
    let k = p.risk_premium_bps_per_point;
    assert(score1 * k <= score2 * k) by (nonlinear_arith)
        requires
            score1 <= score2,
    ;
}

/// More revenue never raises the APR.
pub proof fn law_more_revenue_never_dearer(
    p: PricingPolicy,
    tiers: Seq<RevenueTier>,
    revenue1: i128,
    revenue2: i128,
    anomaly_score: u32,
)
    requires
        revenue1 <= revenue2,
        price_fits(p, anomaly_score),
    ensures
        price(p, tiers, revenue2, anomaly_score).apr_bps <= price(p, tiers, revenue1, anomaly_score).apr_bps,
{
    lemma_best_tier_monotone(tiers, revenue1, revenue2);
}

/// The APR is the base rate plus the risk premium (score × premium per
/// point), less the tier discount (stopping at zero), and only then held
/// within the policy's bounds: it is the maximum whenever that net rate
/// reaches the maximum, the minimum whenever the net rate is at most the
/// minimum, and the net rate otherwise. The discount is the largest
/// discount among the tiers the revenue reaches.
pub proof fn law_apr_is_discounted_rate_within_bounds(
    p: PricingPolicy,
    tiers: Seq<RevenueTier>,
    revenue: i128,
    anomaly_score: u32,
)
    requires
        p.min_apr_bps <= p.max_apr_bps,
        price_fits(p, anomaly_score),
        tiers.len() < u32::MAX,
    ensures
        ({
            let out = price(p, tiers, revenue, anomaly_score);
            let raw = p.base_apr_bps + anomaly_score * p.risk_premium_bps_per_point;
            let net: int = if raw >= out.tier_discount_bps {
                raw - out.tier_discount_bps
            } else {
                0
            };
            &&& out.base_apr_bps == p.base_apr_bps
            &&& out.risk_premium_bps == anomaly_score * p.risk_premium_bps_per_point
            &&& net >= p.max_apr_bps ==> out.apr_bps == p.max_apr_bps
            &&& net <= p.min_apr_bps ==> out.apr_bps == p.min_apr_bps
            &&& p.min_apr_bps < net < p.max_apr_bps ==> out.apr_bps == net
            &&& forall|i: int|
                0 <= i < tiers.len() && tiers[i].min_revenue <= revenue ==> #[trigger] tiers[i].discount_bps
                    <= out.tier_discount_bps
            &&& out.tier_discount_bps == 0 || exists|i: int|
                0 <= i < tiers.len() && tiers[i].min_revenue <= revenue && #[trigger] tiers[i].discount_bps
                    == out.tier_discount_bps
        }),
{
    lemma_best_tier_facts(tiers, revenue);
    let b = best_tier(tiers, revenue);
    if b.1 > 0 {
        let k = b.1 - 1;
        assert(tiers[k as int].discount_bps == b.0);
    }
}

} // verus!

