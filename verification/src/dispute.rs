//! Disputes that challenge an attestation: records numbered from 1, and
//! two indexes (by attestation and by challenger) listing dispute numbers
//! in the order they were added.
//!
//! Whether the challenged attestation exists is a storage lookup of the
//! attestation contract; the caller answers it and hands the answer in.
use vstd::prelude::*;
use crate::store::Store;
use crate::types::{Address, copy_vec};

verus! {

#[derive(Clone, Copy, Debug, PartialEq, Eq, Structural)]
pub enum DisputeStatus {
    Open,
    Resolved,
    Closed,
}

#[derive(Clone, Copy, Debug, PartialEq, Eq, Structural)]
pub enum DisputeType {
    RevenueMismatch,
    DataIntegrity,
    Other,
}

#[derive(Clone, Copy, Debug, PartialEq, Eq, Structural)]
pub enum DisputeOutcome {
    Upheld,
    Rejected,
    Settled,
}

/// How a dispute was resolved.
#[derive(Debug, PartialEq, Eq)]
pub struct DisputeResolution {
    pub resolver: Address,
    pub outcome: DisputeOutcome,
    pub timestamp: u64,
    pub notes: String,
}

impl DisputeResolution {
    pub fn duplicate(&self) -> (r: Self)
        ensures
            r == *self,
    {
        DisputeResolution {
            resolver: self.resolver,
            outcome: self.outcome,
            timestamp: self.timestamp,
            notes: self.notes.clone(),
        }
    }
}

/// A dispute record.
#[derive(Debug, PartialEq, Eq)]
pub struct Dispute {
    pub id: u64,
    pub challenger: Address,
    pub business: Address,
    pub period: String,
    pub status: DisputeStatus,
    pub dispute_type: DisputeType,
    pub evidence: String,
    pub timestamp: u64,
    /// Set once the dispute is resolved.
    pub resolution: Option<DisputeResolution>,
}

impl Dispute {
    pub fn duplicate(&self) -> (r: Self)
        ensures
            r == *self,
    {
        Dispute {
            id: self.id,
            challenger: self.challenger,
            business: self.business,
            period: self.period.clone(),
            status: self.status,
            dispute_type: self.dispute_type,
            evidence: self.evidence.clone(),
            timestamp: self.timestamp,
            resolution: match &self.resolution {
                Some(res) => Some(res.duplicate()),
                None => None,
            },
        }
    }
}

/// Why a dispute operation was refused.
#[derive(Clone, Copy, Debug, PartialEq, Eq, Structural)]
pub enum DisputeError {
    NoAttestation,
    AlreadyDisputed,
    DisputeNotFound,
    NotOpen,
    NotResolved,
    Overflow,
}

impl DisputeError {
    /// Human-readable reason.
    pub fn message(&self) -> (r: &'static str)
        ensures
            r@ == match *self {
                DisputeError::NoAttestation => "no attestation exists for this business and period"@,
                DisputeError::AlreadyDisputed =>
                    "challenger already has an open dispute for this attestation"@,
                DisputeError::DisputeNotFound => "dispute not found"@,
                DisputeError::NotOpen => "dispute is not open"@,
                DisputeError::NotResolved => "dispute is not resolved"@,
                DisputeError::Overflow => "dispute counter overflow"@,
            },
    {
        match self {
            DisputeError::NoAttestation => "no attestation exists for this business and period",
            DisputeError::AlreadyDisputed => "challenger already has an open dispute for this attestation",
            DisputeError::DisputeNotFound => "dispute not found",
            DisputeError::NotOpen => "dispute is not open",
            DisputeError::NotResolved => "dispute is not resolved",
            DisputeError::Overflow => "dispute counter overflow",
        }
    }
}

/// `d` is a dispute filed by `challenger`.
pub open spec fn filed_by(d: Option<Dispute>, challenger: Address) -> bool {
    d matches Some(x) && x.challenger == challenger
}

/// Dispute storage.
pub struct DisputeBook {
    counter: u64,
    disputes: Store<u64, Dispute>,
    by_attestation: Store<(u64, String), Vec<u64>>,
    by_challenger: Store<u64, Vec<u64>>,
}

impl DisputeBook {
    /// Number of the last dispute handed out (0 before the first).
    pub closed spec fn spec_counter(&self) -> u64 {
        self.counter
    }

    pub closed spec fn dispute(&self, id: u64) -> Option<Dispute> {
        if self.disputes@.contains_key(id) {
            Some(self.disputes@[id])
        } else {
            None
        }
    }

    /// Dispute numbers filed against (business, period), in order.
    pub closed spec fn by_attestation_ids(&self, business: Address, period: Seq<char>) -> Seq<u64> {
        if self.by_attestation@.contains_key((business, period)) {
            self.by_attestation@[(business, period)]@
        } else {
            Seq::empty()
        }
    }

    /// Dispute numbers filed by `challenger`, in order.
    pub closed spec fn by_challenger_ids(&self, challenger: Address) -> Seq<u64> {
        if self.by_challenger@.contains_key(challenger) {
            self.by_challenger@[challenger]@
        } else {
            Seq::empty()
        }
    }

    /// Whether `challenger` has a dispute indexed against (business,
    /// period).
    pub open spec fn has_dispute(&self, challenger: Address, business: Address, period: Seq<char>) -> bool {
        exists|i: int|
            0 <= i < self.by_attestation_ids(business, period).len() && filed_by(
                #[trigger] self.dispute(self.by_attestation_ids(business, period)[i]),
                challenger,
            )
    }

    /// Indexes and counter are as in `o`.
    pub open spec fn same_indexes(&self, o: &Self) -> bool {
        &&& self.spec_counter() == o.spec_counter()
        &&& forall|b: Address, p: Seq<char>| #[trigger]
            self.by_attestation_ids(b, p) == o.by_attestation_ids(b, p)
        &&& forall|c: Address| #[trigger] self.by_challenger_ids(c) == o.by_challenger_ids(c)
    }

    /// No disputes.
    pub fn new() -> (r: Self)
        ensures
            r.spec_counter() == 0,
            forall|id: u64| r.dispute(id) is None,
            forall|b: Address, p: Seq<char>| r.by_attestation_ids(b, p).len() == 0,
            forall|c: Address| r.by_challenger_ids(c).len() == 0,
    {
        DisputeBook {
            counter: 0,
            disputes: Store::new(),
            by_attestation: Store::new(),
            by_challenger: Store::new(),
        }
    }

    /// Hand out the next dispute number (the first is 1).
    pub fn generate_dispute_id(&mut self) -> (r: Result<u64, DisputeError>)
        ensures
            old(self).spec_counter() == u64::MAX ==> r == Err::<u64, _>(DisputeError::Overflow)
                && *final(self) == *old(self),
            old(self).spec_counter() < u64::MAX ==> {
                &&& r == Ok::<u64, DisputeError>((old(self).spec_counter() + 1) as u64)
                &&& final(self).spec_counter() == old(self).spec_counter() + 1
                &&& forall|id: u64| #[trigger] final(self).dispute(id) == old(self).dispute(id)
                &&& forall|b: Address, p: Seq<char>| #[trigger]
                    final(self).by_attestation_ids(b, p) == old(self).by_attestation_ids(b, p)
                &&& forall|c: Address| #[trigger]
                    final(self).by_challenger_ids(c) == old(self).by_challenger_ids(c)
            },
    {
        if self.counter == u64::MAX {
            return Err(DisputeError::Overflow);
        }
        self.counter = self.counter + 1;
        Ok(self.counter)
    }

    /// Store a dispute under its number, replacing any earlier record.
    pub fn store_dispute(&mut self, dispute: Dispute)
        ensures
            forall|id: u64| #[trigger]
                final(self).dispute(id) == if id == dispute.id {
                    Some(dispute)
                } else {
                    old(self).dispute(id)
                },
            final(self).same_indexes(&*old(self)),
    {
        let id = dispute.id;
        self.disputes.set(id, dispute);
    }

    pub fn get_dispute(&self, dispute_id: u64) -> (r: Option<Dispute>)
        ensures
            r == self.dispute(dispute_id),
    {
        match self.disputes.get(&dispute_id) {
            Some(d) => Some(d.duplicate()),
            None => None,
        }
    }

    pub fn get_dispute_ids_by_attestation(&self, business: Address, period: String) -> (r: Vec<u64>)
        ensures
            r@ == self.by_attestation_ids(business, period@),
    {
        match self.by_attestation.get(&(business, period)) {
            Some(v) => copy_vec(v),
            None => Vec::new(),
        }
    }

    /// Append a dispute number to the (business, period) index.
    pub fn add_dispute_to_attestation_index(&mut self, business: Address, period: String, dispute_id: u64)
        ensures
            forall|b: Address, p: Seq<char>| #[trigger]
                final(self).by_attestation_ids(b, p) == if b == business && p == period@ {
                    old(self).by_attestation_ids(business, period@).push(dispute_id)
                } else {
                    old(self).by_attestation_ids(b, p)
                },
            forall|c: Address| #[trigger] final(self).by_challenger_ids(c) == old(self).by_challenger_ids(c),
            forall|id: u64| #[trigger] final(self).dispute(id) == old(self).dispute(id),
            final(self).spec_counter() == old(self).spec_counter(),
    {
        let mut ids = self.get_dispute_ids_by_attestation(business, period.clone());
        ids.push(dispute_id);
        self.by_attestation.set((business, period), ids);
    }

    pub fn get_dispute_ids_by_challenger(&self, challenger: Address) -> (r: Vec<u64>)
        ensures
            r@ == self.by_challenger_ids(challenger),
    {
        match self.by_challenger.get(&challenger) {
            Some(v) => copy_vec(v),
            None => Vec::new(),
        }
    }

    /// Append a dispute number to the challenger's index.
    pub fn add_dispute_to_challenger_index(&mut self, challenger: Address, dispute_id: u64)
        ensures
            forall|c: Address| #[trigger]
                final(self).by_challenger_ids(c) == if c == challenger {
                    old(self).by_challenger_ids(challenger).push(dispute_id)
                } else {
                    old(self).by_challenger_ids(c)
                },
            forall|b: Address, p: Seq<char>| #[trigger]
                final(self).by_attestation_ids(b, p) == old(self).by_attestation_ids(b, p),
            forall|id: u64| #[trigger] final(self).dispute(id) == old(self).dispute(id),
            final(self).spec_counter() == old(self).spec_counter(),
    {
        let mut ids = self.get_dispute_ids_by_challenger(challenger);
        ids.push(dispute_id);
        self.by_challenger.set(challenger, ids);
    }

    /// Whether `challenger` already disputed (business, period).
    pub fn has_existing_dispute(&self, challenger: Address, business: Address, period: String) -> (r: bool)
        ensures
            r == self.has_dispute(challenger, business, period@),
    {
        let ids = self.get_dispute_ids_by_attestation(business, period);
        let mut i: usize = 0;
        while i < ids.len()
            invariant
                i <= ids@.len(),
                ids@ == self.by_attestation_ids(business, period@),
                forall|j: int| 0 <= j < i ==> !filed_by(#[trigger] self.dispute(ids@[j]), challenger),
            decreases ids@.len() - i,
        {
            match self.disputes.get(&ids[i]) {
                Some(d) => {
                    if d.challenger == challenger {
                        assert(filed_by(self.dispute(ids@[i as int]), challenger));
                        return true;
                    }
                },
                None => {},
            }
            i = i + 1;
        }
        false
    }

    /// Check that `challenger` may dispute (business, period): the
    /// attestation exists (`attestation_exists`, as looked up by the
    /// caller) and the challenger has not disputed it before.
    pub fn validate_dispute_eligibility(
        &self,
        challenger: Address,
        business: Address,
        period: String,
        attestation_exists: bool,
    ) -> (r: Result<(), DisputeError>)
        ensures
            !attestation_exists ==> r == Err::<(), _>(DisputeError::NoAttestation),
            attestation_exists && self.has_dispute(challenger, business, period@) ==> r == Err::<
                (),
                _,
            >(DisputeError::AlreadyDisputed),
            attestation_exists && !self.has_dispute(challenger, business, period@) ==> r is Ok,
    {
        if !attestation_exists {
            return Err(DisputeError::NoAttestation);
        }
        if self.has_existing_dispute(challenger, business, period) {
            return Err(DisputeError::AlreadyDisputed);
        }
        Ok(())
    }

    /// The dispute, provided it exists and is open.
    pub fn validate_dispute_resolution(&self, dispute_id: u64, resolver: Address) -> (r: Result<
        Dispute,
        DisputeError,
    >)
        ensures
            match self.dispute(dispute_id) {
                None => r == Err::<Dispute, _>(DisputeError::DisputeNotFound),
                Some(d) => if d.status != DisputeStatus::Open {
                    r == Err::<Dispute, _>(DisputeError::NotOpen)
                } else {
                    r == Ok::<Dispute, DisputeError>(d)
                },
            },
    {
        let d = match self.get_dispute(dispute_id) {
            Some(d) => d,
            None => {
                return Err(DisputeError::DisputeNotFound);
            },
        };
        if d.status != DisputeStatus::Open {
            return Err(DisputeError::NotOpen);
        }
        Ok(d)
    }

    /// The dispute, provided it exists and is resolved.
    pub fn validate_dispute_closure(&self, dispute_id: u64) -> (r: Result<Dispute, DisputeError>)
        ensures
            match self.dispute(dispute_id) {
                None => r == Err::<Dispute, _>(DisputeError::DisputeNotFound),
                Some(d) => if d.status != DisputeStatus::Resolved {
                    r == Err::<Dispute, _>(DisputeError::NotResolved)
                } else {
                    r == Ok::<Dispute, DisputeError>(d)
                },
            },
    {
        let d = match self.get_dispute(dispute_id) {
            Some(d) => d,
            None => {
                return Err(DisputeError::DisputeNotFound);
            },
        };
        if d.status != DisputeStatus::Resolved {
            return Err(DisputeError::NotResolved);
        }
        Ok(d)
    }
}

/// Once a challenger's dispute is stored and indexed against an
/// attestation, that challenger can no longer dispute it.
pub proof fn law_one_dispute_per_challenger(
    book: &DisputeBook,
    challenger: Address,
    business: Address,
    period: Seq<char>,
    i: int,
)
    requires
        0 <= i < book.by_attestation_ids(business, period).len(),
        book.dispute(book.by_attestation_ids(business, period)[i]) is Some,
        book.dispute(book.by_attestation_ids(business, period)[i]).unwrap().challenger == challenger,
    ensures
        book.has_dispute(challenger, business, period),
{
}

} // verus!
