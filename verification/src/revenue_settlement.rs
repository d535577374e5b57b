//! Revenue-based lending settlement.
//!
//! Agreements between a lender and a business fix a revenue share; each
//! attested period is settled once, the repayment being the share of the
//! attested revenue (above a threshold), capped per settlement.
use vstd::prelude::*;
use crate::store::Store;
use crate::types::{Address, TokenTransfer};

verus! {

/// Status of an active agreement.
pub const STATUS_ACTIVE: u32 = 0;

/// Status of a completed agreement.
pub const STATUS_COMPLETED: u32 = 1;

/// Status of a defaulted agreement.
pub const STATUS_DEFAULTED: u32 = 2;

/// A revenue-share agreement.
#[derive(Clone, Copy, Debug, PartialEq, Eq, Structural)]
pub struct Agreement {
    pub id: u64,
    pub lender: Address,
    pub business: Address,
    pub principal: i128,
    pub revenue_share_bps: u32,
    pub min_revenue_threshold: i128,
    pub max_repayment_amount: i128,
    pub attestation_contract: Address,
    pub token: Address,
    pub status: u32,
    pub created_at: u64,
}

/// Record of one settled period.
#[derive(Debug, PartialEq, Eq)]
pub struct SettlementRecord {
    pub agreement_id: u64,
    pub period: String,
    pub attested_revenue: i128,
    pub repayment_amount: i128,
    pub amount_transferred: i128,
    pub settled_at: u64,
}

impl SettlementRecord {
    pub fn duplicate(&self) -> (r: Self)
        ensures
            r == *self,
    {
        SettlementRecord {
            agreement_id: self.agreement_id,
            period: self.period.clone(),
            attested_revenue: self.attested_revenue,
            repayment_amount: self.repayment_amount,
            amount_transferred: self.amount_transferred,
            settled_at: self.settled_at,
        }
    }
}

/// Why a settlement-contract call was refused.
#[derive(Clone, Copy, Debug, PartialEq, Eq, Structural)]
pub enum SettlementError {
    AlreadyInitialized,
    NotInitialized,
    Unauthorized,
    PrincipalNotPositive,
    RevenueShareTooHigh,
    NegativeRevenueThreshold,
    MaxRepaymentNotPositive,
    SameParty,
    IdOverflow,
    AgreementNotFound,
    AgreementNotActive,
    NegativeRevenue,
    AlreadySettled,
    AttestationNotFound,
    AttestationRevoked,
    AlreadyCommitted,
}

/// The repayment owed for a period: `revenue × share ÷ 10 000` (the product
/// saturating at `u128::MAX`), capped at `max_repayment`, or nothing when
/// revenue is below the threshold.
pub open spec fn repayment_for(
    revenue: i128,
    share_bps: u32,
    min_threshold: i128,
    max_repayment: i128,
) -> int {
    if revenue >= min_threshold {
        let product = if revenue * share_bps > u128::MAX { u128::MAX as int } else {
            revenue * share_bps
        };
        let share = product / 10000;
        if share < max_repayment {
            share
        } else {
            max_repayment as int
        }
    } else {
        0
    }
}

/// Repayment owed for a period (see [`repayment_for`]).
pub fn compute_repayment(
    revenue: i128,
    share_bps: u32,
    min_threshold: i128,
    max_repayment: i128,
) -> (r: i128)
    requires
        revenue >= 0,
    ensures
        r == repayment_for(revenue, share_bps, min_threshold, max_repayment),
{
    if revenue >= min_threshold {
        let rev: u128 = revenue as u128;
        let bps: u128 = share_bps as u128;
        let product: u128 = match rev.checked_mul(bps) {
            Some(p) => p,
            None => u128::MAX,
        };
        let share_u: u128 = product / 10000;
        let share: i128 = share_u as i128;
        if share < max_repayment {
            share
        } else {
            max_repayment
        }
    } else {
        0
    }
}

/// Storage of the settlement contract.
pub struct RevenueSettlementContract {
    admin: Option<Address>,
    next_agreement_id: u64,
    agreements: Store<u64, Agreement>,
    committed: Store<(u64, String), i128>,
    settlements: Store<(u64, String), SettlementRecord>,
}

impl RevenueSettlementContract {
    pub closed spec fn spec_admin(&self) -> Option<Address> {
        self.admin
    }

    pub closed spec fn spec_next_id(&self) -> u64 {
        self.next_agreement_id
    }

    pub closed spec fn spec_agreements(&self) -> Map<u64, Agreement> {
        self.agreements@
    }

    pub closed spec fn spec_committed(&self) -> Map<(u64, Seq<char>), i128> {
        self.committed@
    }

    pub closed spec fn spec_settlements(&self) -> Map<(u64, Seq<char>), SettlementRecord> {
        self.settlements@
    }

    /// A contract with empty storage.
    pub fn new() -> (r: Self)
        ensures
            r.spec_admin() is None,
            r.spec_next_id() == 0,
            r.spec_agreements().is_empty(),
            r.spec_committed().is_empty(),
            r.spec_settlements().is_empty(),
    {
        RevenueSettlementContract {
            admin: None,
            next_agreement_id: 0,
            agreements: Store::new(),
            committed: Store::new(),
            settlements: Store::new(),
        }
    }

    /// One-time setup of the admin; resets the agreement counter.
    pub fn initialize(&mut self, admin: Address) -> (r: Result<(), SettlementError>)
        ensures
            old(self).spec_admin() is Some ==> r == Err::<(), _>(SettlementError::AlreadyInitialized)
                && *final(self) == *old(self),
            old(self).spec_admin() is None ==> r is Ok && final(self).spec_admin() == Some(admin)
                && final(self).spec_next_id() == 0 && final(self).spec_agreements()
                == old(self).spec_agreements() && final(self).spec_committed()
                == old(self).spec_committed() && final(self).spec_settlements()
                == old(self).spec_settlements(),
    {
        if self.admin.is_some() {
            return Err(SettlementError::AlreadyInitialized);
        }
        self.admin = Some(admin);
        self.next_agreement_id = 0;
        Ok(())
    }

    /// The error `create_agreement` answers for these arguments, if any.
    pub open spec fn create_error(
        &self,
        lender: Address,
        business: Address,
        principal: i128,
        revenue_share_bps: u32,
        min_revenue_threshold: i128,
        max_repayment_amount: i128,
    ) -> Option<SettlementError> {
        if principal <= 0 {
            Some(SettlementError::PrincipalNotPositive)
        } else if revenue_share_bps > 10000 {
            Some(SettlementError::RevenueShareTooHigh)
        } else if min_revenue_threshold < 0 {
            Some(SettlementError::NegativeRevenueThreshold)
        } else if max_repayment_amount <= 0 {
            Some(SettlementError::MaxRepaymentNotPositive)
        } else if business == lender {
            Some(SettlementError::SameParty)
        } else if self.spec_next_id() == u64::MAX {
            Some(SettlementError::IdOverflow)
        } else {
            None
        }
    }

    /// Create an agreement under the next identifier and return it.
    pub fn create_agreement(
        &mut self,
        lender: Address,
        business: Address,
        principal: i128,
        revenue_share_bps: u32,
        min_revenue_threshold: i128,
        max_repayment_amount: i128,
        attestation_contract: Address,
        token: Address,
        now: u64,
    ) -> (r: Result<u64, SettlementError>)
        ensures
            ({
                let err = old(self).create_error(
                    lender,
                    business,
                    principal,
                    revenue_share_bps,
                    min_revenue_threshold,
                    max_repayment_amount,
                );
                match r {
                    Err(e) => err == Some(e) && *final(self) == *old(self),
                    Ok(id) => {
                        &&& err is None
                        &&& id == old(self).spec_next_id()
                        &&& final(self).spec_next_id() == id + 1
                        &&& final(self).spec_agreements() == old(self).spec_agreements().insert(
                            id,
                            Agreement {
                                id,
                                lender,
                                business,
                                principal,
                                revenue_share_bps,
                                min_revenue_threshold,
                                max_repayment_amount,
                                attestation_contract,
                                token,
                                status: STATUS_ACTIVE,
                                created_at: now,
                            },
                        )
                        &&& final(self).spec_admin() == old(self).spec_admin()
                        &&& final(self).spec_committed() == old(self).spec_committed()
                        &&& final(self).spec_settlements() == old(self).spec_settlements()
                    },
                }
            }),
    {
        if principal <= 0 {
            return Err(SettlementError::PrincipalNotPositive);
        }
        if revenue_share_bps > 10000 {
            return Err(SettlementError::RevenueShareTooHigh);
        }
        if min_revenue_threshold < 0 {
            return Err(SettlementError::NegativeRevenueThreshold);
        }
        if max_repayment_amount <= 0 {
            return Err(SettlementError::MaxRepaymentNotPositive);
        }
        if business == lender {
            return Err(SettlementError::SameParty);
        }
        let id = self.next_agreement_id;
        if id == u64::MAX {
            return Err(SettlementError::IdOverflow);
        }
        let agreement = Agreement {
            id,
            lender,
            business,
            principal,
            revenue_share_bps,
            min_revenue_threshold,
            max_repayment_amount,
            attestation_contract,
            token,
            status: STATUS_ACTIVE,
            created_at: now,
        };
        self.agreements.set(id, agreement);
        self.next_agreement_id = id + 1;
        Ok(id)
    }

    /// The error `settle` answers for these arguments, if any.
    pub open spec fn settle_error(
        &self,
        agreement_id: u64,
        period: Seq<char>,
        attested_revenue: i128,
        attestation_exists: bool,
        attestation_revoked: bool,
    ) -> Option<SettlementError> {
        if !self.spec_agreements().contains_key(agreement_id) {
            Some(SettlementError::AgreementNotFound)
        } else if self.spec_agreements()[agreement_id].status != STATUS_ACTIVE {
            Some(SettlementError::AgreementNotActive)
        } else if attested_revenue < 0 {
            Some(SettlementError::NegativeRevenue)
        } else if self.spec_settlements().contains_key((agreement_id, period)) {
            Some(SettlementError::AlreadySettled)
        } else if !attestation_exists {
            Some(SettlementError::AttestationNotFound)
        } else if attestation_revoked {
            Some(SettlementError::AttestationRevoked)
        } else if self.spec_committed().contains_key((agreement_id, period))
            && self.spec_committed()[(agreement_id, period)] != 0 {
            Some(SettlementError::AlreadyCommitted)
        } else {
            None
        }
    }

    /// `after` is the storage after `period` of agreement `agreement_id` was
    /// settled from `self` for `attested_revenue` at time `now`.
    pub open spec fn settled_to(
        &self,
        after: &Self,
        agreement_id: u64,
        period: String,
        attested_revenue: i128,
        now: u64,
    ) -> bool {
        let a = self.spec_agreements()[agreement_id];
        let amount = repayment_for(
            attested_revenue,
            a.revenue_share_bps,
            a.min_revenue_threshold,
            a.max_repayment_amount,
        );
        &&& self.spec_agreements().contains_key(agreement_id)
        &&& after.spec_committed() == self.spec_committed().insert(
            (agreement_id, period@),
            amount as i128,
        )
        &&& after.spec_settlements() == self.spec_settlements().insert(
            (agreement_id, period@),
            SettlementRecord {
                agreement_id,
                period,
                attested_revenue,
                repayment_amount: amount as i128,
                amount_transferred: amount as i128,
                settled_at: now,
            },
        )
        &&& after.spec_agreements() == self.spec_agreements()
        &&& after.spec_admin() == self.spec_admin()
        &&& after.spec_next_id() == self.spec_next_id()
    }

    /// Settle a period of an agreement.
    ///
    /// `attestation_exists` and `attestation_revoked` are what the
    /// agreement's attestation contract answers for the business and the
    /// period. On success the repayment is committed and recorded, and the
    /// transfer from business to lender is returned when it is positive.
    pub fn settle(
        &mut self,
        agreement_id: u64,
        period: String,
        attested_revenue: i128,
        attestation_exists: bool,
        attestation_revoked: bool,
        now: u64,
    ) -> (r: Result<Option<TokenTransfer>, SettlementError>)
        ensures
            ({
                let err = old(self).settle_error(
                    agreement_id,
                    period@,
                    attested_revenue,
                    attestation_exists,
                    attestation_revoked,
                );
                match r {
                    Err(e) => err == Some(e) && *final(self) == *old(self),
                    Ok(transfer) => {
                        let a = old(self).spec_agreements()[agreement_id];
                        let amount = repayment_for(
                            attested_revenue,
                            a.revenue_share_bps,
                            a.min_revenue_threshold,
                            a.max_repayment_amount,
                        );
                        &&& err is None
                        &&& old(self).settled_to(&*final(self), agreement_id, period, attested_revenue, now)
                        &&& transfer == if amount > 0 {
                            Some(
                                TokenTransfer {
                                    token: a.token,
                                    from: a.business,
                                    to: a.lender,
                                    amount: amount as i128,
                                },
                            )
                        } else {
                            None
                        }
                    },
                }
            }),
    {
        let agreement: Agreement = match self.agreements.get(&agreement_id) {
            Some(a) => *a,
            None => {
                return Err(SettlementError::AgreementNotFound);
            },
        };
        if agreement.status != STATUS_ACTIVE {
            return Err(SettlementError::AgreementNotActive);
        }
        if attested_revenue < 0 {
            return Err(SettlementError::NegativeRevenue);
        }
        let key = (agreement_id, period.clone());
        if self.settlements.has(&key) {
            return Err(SettlementError::AlreadySettled);
        }
        if !attestation_exists {
            return Err(SettlementError::AttestationNotFound);
        }
        if attestation_revoked {
            return Err(SettlementError::AttestationRevoked);
        }
        let previously: i128 = match self.committed.get(&key) {
            Some(c) => *c,
            None => 0,
        };
        if previously != 0 {
            return Err(SettlementError::AlreadyCommitted);
        }
        let amount = compute_repayment(
            attested_revenue,
            agreement.revenue_share_bps,
            agreement.min_revenue_threshold,
            agreement.max_repayment_amount,
        );
        self.committed.set((agreement_id, period.clone()), amount);
        let record = SettlementRecord {
            agreement_id,
            period: period.clone(),
            attested_revenue,
            repayment_amount: amount,
            amount_transferred: amount,
            settled_at: now,
        };
        self.settlements.set((agreement_id, period), record);
        if amount > 0 {
            Ok(
                Some(
                    TokenTransfer {
                        token: agreement.token,
                        from: agreement.business,
                        to: agreement.lender,
                        amount,
                    },
                ),
            )
        } else {
            Ok(None)
        }
    }

    /// The agreement with this identifier, if any.
    pub fn get_agreement(&self, agreement_id: u64) -> (r: Option<Agreement>)
        ensures
            r == if self.spec_agreements().contains_key(agreement_id) {
                Some(self.spec_agreements()[agreement_id])
            } else {
                None
            },
    {
        match self.agreements.get(&agreement_id) {
            Some(a) => Some(*a),
            None => None,
        }
    }

    /// Whether settling `period` of agreement `agreement_id` for
    /// `attested_revenue` gets as far as the attestation lookup: the
    /// agreement exists and is active, the revenue is not negative and the
    /// period is not yet settled. Only then does the host need the
    /// attestation contract's answers.
    pub fn needs_attestation_check(&self, agreement_id: u64, period: String, attested_revenue: i128) -> (r:
        bool)
        ensures
            r == (self.settle_error(agreement_id, period@, attested_revenue, true, false) is None
                || self.settle_error(agreement_id, period@, attested_revenue, true, false) == Some(
                SettlementError::AlreadyCommitted,
            )),
    {
        let active = match self.agreements.get(&agreement_id) {
            Some(a) => a.status == STATUS_ACTIVE,
            None => false,
        };
        active && attested_revenue >= 0 && !self.settlements.has(&(agreement_id, period))
    }

    /// The settlement record of a period, if settled.
    pub fn get_settlement(&self, agreement_id: u64, period: String) -> (r: Option<
        SettlementRecord,
    >)
        ensures
            r == if self.spec_settlements().contains_key((agreement_id, period@)) {
                Some(self.spec_settlements()[(agreement_id, period@)])
            } else {
                None
            },
    {
        match self.settlements.get(&(agreement_id, period)) {
            Some(s) => Some(s.duplicate()),
            None => None,
        }
    }

    /// Amount committed for a period (zero when nothing was committed).
    pub fn get_committed(&self, agreement_id: u64, period: String) -> (r: i128)
        ensures
            r == if self.spec_committed().contains_key((agreement_id, period@)) {
                self.spec_committed()[(agreement_id, period@)]
            } else {
                0
            },
    {
        match self.committed.get(&(agreement_id, period)) {
            Some(c) => *c,
            None => 0,
        }
    }

    /// The error `mark_completed` / `mark_defaulted` answers, if any.
    pub open spec fn mark_error(&self, admin: Address, agreement_id: u64) -> Option<
        SettlementError,
    > {
        if self.spec_admin() is None {
            Some(SettlementError::NotInitialized)
        } else if self.spec_admin() != Some(admin) {
            Some(SettlementError::Unauthorized)
        } else if !self.spec_agreements().contains_key(agreement_id) {
            Some(SettlementError::AgreementNotFound)
        } else if self.spec_agreements()[agreement_id].status != STATUS_ACTIVE {
            Some(SettlementError::AgreementNotActive)
        } else {
            None
        }
    }

    fn mark_status(&mut self, admin: Address, agreement_id: u64, status: u32) -> (r: Result<
        (),
        SettlementError,
    >)
        ensures
            match r {
                Err(e) => old(self).mark_error(admin, agreement_id) == Some(e) && *final(self)
                    == *old(self),
                Ok(()) => {
                    &&& old(self).mark_error(admin, agreement_id) is None
                    &&& final(self).spec_agreements() == old(self).spec_agreements().insert(
                        agreement_id,
                        Agreement { status, ..old(self).spec_agreements()[agreement_id] },
                    )
                    &&& final(self).spec_admin() == old(self).spec_admin()
                    &&& final(self).spec_next_id() == old(self).spec_next_id()
                    &&& final(self).spec_committed() == old(self).spec_committed()
                    &&& final(self).spec_settlements() == old(self).spec_settlements()
                },
            },
    {
        match self.admin {
            None => {
                return Err(SettlementError::NotInitialized);
            },
            Some(stored) => {
                if stored != admin {
                    return Err(SettlementError::Unauthorized);
                }
            },
        }
        let agreement: Agreement = match self.agreements.get(&agreement_id) {
            Some(a) => *a,
            None => {
                return Err(SettlementError::AgreementNotFound);
            },
        };
        if agreement.status != STATUS_ACTIVE {
            return Err(SettlementError::AgreementNotActive);
        }
        self.agreements.set(agreement_id, Agreement { status, ..agreement });
        Ok(())
    }

    /// Mark an active agreement completed. Admin only.
    pub fn mark_completed(&mut self, admin: Address, agreement_id: u64) -> (r: Result<
        (),
        SettlementError,
    >)
        ensures
            match r {
                Err(e) => old(self).mark_error(admin, agreement_id) == Some(e) && *final(self)
                    == *old(self),
                Ok(()) => {
                    &&& old(self).mark_error(admin, agreement_id) is None
                    &&& final(self).spec_agreements() == old(self).spec_agreements().insert(
                        agreement_id,
                        Agreement {
                            status: STATUS_COMPLETED,
                            ..old(self).spec_agreements()[agreement_id]
                        },
                    )
                    &&& final(self).spec_admin() == old(self).spec_admin()
                    &&& final(self).spec_next_id() == old(self).spec_next_id()
                    &&& final(self).spec_committed() == old(self).spec_committed()
                    &&& final(self).spec_settlements() == old(self).spec_settlements()
                },
            },
    {
        self.mark_status(admin, agreement_id, STATUS_COMPLETED)
    }

    /// Mark an active agreement defaulted. Admin only.
    pub fn mark_defaulted(&mut self, admin: Address, agreement_id: u64) -> (r: Result<
        (),
        SettlementError,
    >)
        ensures
            match r {
                Err(e) => old(self).mark_error(admin, agreement_id) == Some(e) && *final(self)
                    == *old(self),
                Ok(()) => {
                    &&& old(self).mark_error(admin, agreement_id) is None
                    &&& final(self).spec_agreements() == old(self).spec_agreements().insert(
                        agreement_id,
                        Agreement {
                            status: STATUS_DEFAULTED,
                            ..old(self).spec_agreements()[agreement_id]
                        },
                    )
                    &&& final(self).spec_admin() == old(self).spec_admin()
                    &&& final(self).spec_next_id() == old(self).spec_next_id()
                    &&& final(self).spec_committed() == old(self).spec_committed()
                    &&& final(self).spec_settlements() == old(self).spec_settlements()
                },
            },
    {
        self.mark_status(admin, agreement_id, STATUS_DEFAULTED)
    }

    /// The admin address.
    pub fn get_admin(&self) -> (r: Result<Address, SettlementError>)
        ensures
            match self.spec_admin() {
                Some(a) => r == Ok::<Address, SettlementError>(a),
                None => r == Err::<Address, _>(SettlementError::NotInitialized),
            },
    {
        match self.admin {
            Some(a) => Ok(a),
            None => Err(SettlementError::NotInitialized),
        }
    }
}

/// A period of an agreement is settled at most once: after a settlement,
/// every further attempt to settle the same period is refused.
pub proof fn law_period_settles_once(
    s0: &RevenueSettlementContract,
    s1: &RevenueSettlementContract,
    agreement_id: u64,
    period: String,
    revenue: i128,
    now: u64,
    other_revenue: i128,
    exists: bool,
    revoked: bool,
)
    requires
        s0.settled_to(s1, agreement_id, period, revenue, now),
    ensures
        s1.settle_error(agreement_id, period@, other_revenue, exists, revoked) is Some,
{
}

/// The repayment of a settlement never exceeds the agreement's cap and is
/// never negative.
pub proof fn law_repayment_bounded(
    revenue: i128,
    share_bps: u32,
    min_threshold: i128,
    max_repayment: i128,
)
    requires
        revenue >= 0,
        max_repayment > 0,
    ensures
        0 <= repayment_for(revenue, share_bps, min_threshold, max_repayment) <= max_repayment,
{
}

/// A completed or defaulted agreement is closed for good: none of its
/// periods can be settled any more, and it can be neither completed nor
/// defaulted again.
pub proof fn law_closed_agreement_is_final(
    s: &RevenueSettlementContract,
    agreement_id: u64,
    period: Seq<char>,
    revenue: i128,
    exists: bool,
    revoked: bool,
    admin: Address,
)
    requires
        s.spec_agreements().contains_key(agreement_id),
        s.spec_agreements()[agreement_id].status != STATUS_ACTIVE,
    ensures
        s.settle_error(agreement_id, period, revenue, exists, revoked) == Some(
            SettlementError::AgreementNotActive,
        ),
        s.mark_error(admin, agreement_id) is Some,
{
}

/// The repayment for a period is nothing when the attested revenue is below
/// the agreement's threshold; from the threshold on it is the revenue's
/// share (`revenue × share_bps ÷ 10 000`, the product held at `u128::MAX`)
/// capped at the maximum repayment, and it never falls as revenue rises
/// above the threshold.
pub proof fn law_repayment_is_capped_share(
    revenue: i128,
    share_bps: u32,
    min_threshold: i128,
    max_repayment: i128,
    more_revenue: i128,
)
    requires
        revenue >= 0,
    ensures
        revenue < min_threshold ==> repayment_for(revenue, share_bps, min_threshold, max_repayment)
            == 0,
        revenue >= min_threshold && revenue * share_bps <= u128::MAX ==> repayment_for(
            revenue,
            share_bps,
            min_threshold,
            max_repayment,
        ) == if (revenue * share_bps) / 10000 < max_repayment {
            (revenue * share_bps) / 10000
        } else {
            max_repayment as int
        },
        revenue >= min_threshold && revenue * share_bps > u128::MAX ==> repayment_for(
            revenue,
            share_bps,
            min_threshold,
            max_repayment,
        ) == if (u128::MAX as int) / 10000 < max_repayment {
            (u128::MAX as int) / 10000
        } else {
            max_repayment as int
        },
        revenue >= min_threshold && revenue <= more_revenue ==> repayment_for(
            revenue,
            share_bps,
            min_threshold,
            max_repayment,
        ) <= repayment_for(more_revenue, share_bps, min_threshold, max_repayment),
{
    if revenue >= min_threshold && revenue <= more_revenue {
        let k = share_bps as int;
        assert(revenue * k <= more_revenue * k) by (nonlinear_arith)
            requires
                0 <= revenue <= more_revenue,
                k >= 0,
        ;
        let p1: int = if revenue * k > u128::MAX { u128::MAX as int } else { revenue * k };
        let p2: int = if more_revenue * k > u128::MAX { u128::MAX as int } else { more_revenue * k };
        assert(p1 <= p2);
        assert(p1 / 10000 <= p2 / 10000) by (nonlinear_arith)
            requires
                p1 <= p2,
        ;
    }
}

} // verus!


