//! Multisignature control of sensitive protocol actions: an owner
//! proposes an action (approving it at once), other owners approve or
//! reject it, and once approvals reach the threshold it may be executed
//! before it expires.
//!
//! No owner acts alone where the threshold is above one; an executed
//! proposal cannot be executed again; the threshold never exceeds the
//! number of owners.
use vstd::prelude::*;
use crate::store::Store;
use crate::types::{Address, contains_address, copy_vec};

verus! {

/// Storage slots of the multisig state.
#[derive(Clone, Copy, Debug, PartialEq, Eq, Structural)]
pub enum MultisigKey {
    Owners,
    Threshold,
    Proposal(u64),
    Approvals(u64),
    NextProposalId,
    ProposalExpiry(u64),
}

/// An action that needs the owners' approval.
#[derive(Clone, Copy, Debug, PartialEq, Eq, Structural)]
pub enum ProposalAction {
    Pause,
    Unpause,
    AddOwner(Address),
    RemoveOwner(Address),
    ChangeThreshold(u32),
    GrantRole(Address, u32),
    RevokeRole(Address, u32),
    /// Token, collector, base fee, enabled.
    UpdateFeeConfig(Address, Address, i128, bool),
}

#[derive(Clone, Copy, Debug, PartialEq, Eq, Structural)]
pub enum ProposalStatus {
    Pending,
    Executed,
    Rejected,
    Expired,
}

#[derive(Clone, Copy, Debug, PartialEq, Eq, Structural)]
pub struct Proposal {
    pub id: u64,
    pub action: ProposalAction,
    pub proposer: Address,
    pub status: ProposalStatus,
    /// Ledger of creation.
    pub created_at: u32,
}

/// Ledgers a proposal stays open (about a week).
pub const DEFAULT_PROPOSAL_EXPIRY: u32 = 120960;

pub const MIN_OWNERS: u32 = 1;

pub const MAX_OWNERS: u32 = 10;

/// Why a multisig call was refused.
#[derive(Clone, Copy, Debug, PartialEq, Eq, Structural)]
pub enum MultisigError {
    AlreadyInitialized,
    NoOwners,
    TooManyOwners,
    ZeroThreshold,
    ThresholdTooHigh,
    AlreadyOwner,
    NotAnOwner,
    WouldViolateThreshold,
    CallerNotOwner,
    ProposalNotFound,
    NotPending,
    Expired,
    AlreadyApproved,
    NotProposerOrOwner,
    NotApproved,
    Overflow,
}

/// Multisig storage.
pub struct MultisigState {
    owners: Option<Vec<Address>>,
    threshold: Option<u32>,
    next_id: u64,
    proposals: Store<u64, Proposal>,
    approvals: Store<u64, Vec<Address>>,
    expiry: Store<u64, u32>,
}

impl MultisigState {
    /// Whether the owner list has been set.
    pub closed spec fn initialized(&self) -> bool {
        self.owners is Some
    }

    /// The owners (empty before initialization).
    pub closed spec fn spec_owners(&self) -> Seq<Address> {
        match self.owners {
            Some(v) => v@,
            None => Seq::empty(),
        }
    }

    /// Whether a threshold has been stored.
    pub closed spec fn threshold_set(&self) -> bool {
        self.threshold is Some
    }

    /// Approvals needed (1 when none is stored).
    pub closed spec fn spec_threshold(&self) -> u32 {
        match self.threshold {
            Some(t) => t,
            None => 1,
        }
    }

    pub closed spec fn spec_next_id(&self) -> u64 {
        self.next_id
    }

    pub closed spec fn proposal(&self, id: u64) -> Option<Proposal> {
        if self.proposals@.contains_key(id) {
            Some(self.proposals@[id])
        } else {
            None
        }
    }

    /// Owners that approved proposal `id`, in approval order.
    pub closed spec fn spec_approvals(&self, id: u64) -> Seq<Address> {
        if self.approvals@.contains_key(id) {
            self.approvals@[id]@
        } else {
            Seq::empty()
        }
    }

    /// Last ledger at which proposal `id` is open (0 when unknown).
    pub closed spec fn spec_expiry(&self, id: u64) -> u32 {
        if self.expiry@.contains_key(id) {
            self.expiry@[id]
        } else {
            0
        }
    }

    pub open spec fn is_owner_spec(&self, a: Address) -> bool {
        self.spec_owners().contains(a)
    }

    /// Invariant: once owners are stored there are 1 to 10 of them and the
    /// threshold lies between 1 and their number; before, no threshold is
    /// stored. No proposal is approved twice by the same owner, and each
    /// stored proposal carries its own identifier, below the next one.
    pub open spec fn wf(&self) -> bool {
        &&& self.initialized() ==> {
            &&& MIN_OWNERS <= self.spec_owners().len() <= MAX_OWNERS
            &&& 1 <= self.spec_threshold() <= self.spec_owners().len()
        }
        &&& !self.initialized() ==> !self.threshold_set() && self.spec_owners().len() == 0
        &&& forall|id: u64| #[trigger] self.spec_approvals(id).no_duplicates()
        &&& forall|id: u64| #[trigger] self.spec_approvals(id).len() <= u32::MAX
        &&& forall|id: u64| #[trigger]
            self.proposal(id) is Some ==> self.proposal(id).unwrap().id == id && id
                < self.spec_next_id()
    }

    /// Proposals, approvals, expiries and the identifier counter are as in
    /// `o`.
    pub open spec fn same_proposals(&self, o: &Self) -> bool {
        &&& self.spec_next_id() == o.spec_next_id()
        &&& forall|id: u64| #[trigger] self.proposal(id) == o.proposal(id)
        &&& forall|id: u64| #[trigger] self.spec_approvals(id) == o.spec_approvals(id)
        &&& forall|id: u64| #[trigger] self.spec_expiry(id) == o.spec_expiry(id)
    }

    /// Owners and threshold are as in `o`.
    pub open spec fn same_owners(&self, o: &Self) -> bool {
        &&& self.initialized() == o.initialized()
        &&& self.spec_owners() == o.spec_owners()
        &&& self.threshold_set() == o.threshold_set()
        &&& self.spec_threshold() == o.spec_threshold()
    }

    /// Empty state: no owners, no proposals.
    pub fn new() -> (r: Self)
        ensures
            r.wf(),
            !r.initialized(),
            !r.threshold_set(),
            r.spec_owners().len() == 0,
            r.spec_threshold() == 1,
            r.spec_next_id() == 0,
            forall|id: u64| r.proposal(id) is None,
            forall|id: u64| r.spec_approvals(id).len() == 0,
            forall|id: u64| r.spec_expiry(id) == 0,
    {
        let r = MultisigState {
            owners: None,
            threshold: None,
            next_id: 0,
            proposals: Store::new(),
            approvals: Store::new(),
            expiry: Store::new(),
        };
        assert forall|id: u64| #[trigger] r.spec_approvals(id).no_duplicates() by {
            assert(r.spec_approvals(id) == Seq::<Address>::empty());
        }
        r
    }

    /// The error initialization meets, if any.
    pub open spec fn init_error(&self, owners: Seq<Address>, threshold: u32) -> Option<MultisigError> {
        if self.initialized() {
            Some(MultisigError::AlreadyInitialized)
        } else if owners.len() == 0 {
            Some(MultisigError::NoOwners)
        } else if threshold == 0 {
            Some(MultisigError::ZeroThreshold)
        } else if threshold > owners.len() {
            Some(MultisigError::ThresholdTooHigh)
        } else if owners.len() > MAX_OWNERS {
            Some(MultisigError::TooManyOwners)
        } else {
            None
        }
    }

    /// Store the owners (1 to 10) and a threshold between 1 and their
    /// number, once.
    pub fn initialize_multisig(&mut self, owners: Vec<Address>, threshold: u32) -> (r: Result<
        (),
        MultisigError,
    >)
        requires
            old(self).wf(),
        ensures
            final(self).wf(),
            match old(self).init_error(owners@, threshold) {
                Some(e) => r == Err::<(), _>(e) && *final(self) == *old(self),
                None => {
                    &&& r is Ok
                    &&& final(self).initialized()
                    &&& final(self).spec_owners() == owners@
                    &&& final(self).spec_threshold() == threshold
                    &&& final(self).same_proposals(&*old(self))
                },
            },
    {
        if self.owners.is_some() {
            return Err(MultisigError::AlreadyInitialized);
        }
        if owners.len() == 0 {
            return Err(MultisigError::NoOwners);
        }
        if threshold == 0 {
            return Err(MultisigError::ZeroThreshold);
        }
        if threshold as usize > owners.len() {
            return Err(MultisigError::ThresholdTooHigh);
        }
        if owners.len() > MAX_OWNERS as usize {
            return Err(MultisigError::TooManyOwners);
        }
        self.owners = Some(owners);
        self.threshold = Some(threshold);
        proof {
            assert forall|id: u64| #[trigger] self.spec_approvals(id).no_duplicates() by {
                assert(self.spec_approvals(id) == old(self).spec_approvals(id));
            }
            assert forall|id: u64| #[trigger] self.spec_approvals(id).len() <= u32::MAX by {
                assert(self.spec_approvals(id) == old(self).spec_approvals(id));
            }
            assert forall|id: u64| #[trigger] self.proposal(id) is Some implies self.proposal(id).unwrap().id
                == id && id < self.spec_next_id() by {
                assert(self.proposal(id) == old(self).proposal(id));
            }
        }
        Ok(())
    }

    /// Whether owners have been stored.
    pub fn is_multisig_initialized(&self) -> (r: bool)
        ensures
            r == self.initialized(),
    {
        self.owners.is_some()
    }

    /// The owners, in the order they were added.
    pub fn get_owners(&self) -> (r: Vec<Address>)
        ensures
            r@ == self.spec_owners(),
    {
        match &self.owners {
            Some(v) => copy_vec(v),
            None => Vec::new(),
        }
    }

    /// Whether `address` is an owner.
    pub fn is_owner(&self, address: Address) -> (r: bool)
        ensures
            r == self.is_owner_spec(address),
    {
        match &self.owners {
            Some(v) => contains_address(v, address),
            None => false,
        }
    }

    /// Approvals needed; 1 when none is stored.
    pub fn get_threshold(&self) -> (r: u32)
        ensures
            r == self.spec_threshold(),
    {
        match self.threshold {
            Some(t) => t,
            None => 1,
        }
    }

    /// Store the owner list as given: 1 to 10 owners. The threshold is not
    /// checked against the new list.
    pub fn set_owners(&mut self, owners: Vec<Address>) -> (r: Result<(), MultisigError>)
        ensures
            owners@.len() < MIN_OWNERS ==> r == Err::<(), _>(MultisigError::NoOwners),
            owners@.len() > MAX_OWNERS ==> r == Err::<(), _>(MultisigError::TooManyOwners),
            r is Err ==> *final(self) == *old(self),
            MIN_OWNERS <= owners@.len() <= MAX_OWNERS ==> {
                &&& r is Ok
                &&& final(self).initialized()
                &&& final(self).spec_owners() == owners@
                &&& final(self).threshold_set() == old(self).threshold_set()
                &&& final(self).spec_threshold() == old(self).spec_threshold()
                &&& final(self).same_proposals(&*old(self))
            },
            old(self).wf() && r is Ok && old(self).spec_threshold() <= owners@.len() ==> final(self).wf(),
    {
        if owners.len() < MIN_OWNERS as usize {
            return Err(MultisigError::NoOwners);
        }
        if owners.len() > MAX_OWNERS as usize {
            return Err(MultisigError::TooManyOwners);
        }
        self.owners = Some(owners);
        proof {
            if old(self).wf() {
                assert forall|id: u64| #[trigger] self.spec_approvals(id).no_duplicates() by {
                    assert(self.spec_approvals(id) == old(self).spec_approvals(id));
                }
                assert forall|id: u64| #[trigger] self.spec_approvals(id).len() <= u32::MAX by {
                    assert(self.spec_approvals(id) == old(self).spec_approvals(id));
                }
                assert forall|id: u64| #[trigger] self.proposal(id) is Some implies self.proposal(id).unwrap().id
                    == id && id < self.spec_next_id() by {
                    assert(self.proposal(id) == old(self).proposal(id));
                }
            }
        }
        Ok(())
    }

    /// Add an owner; refused for an existing owner or beyond 10 owners.
    pub fn add_owner(&mut self, new_owner: Address) -> (r: Result<(), MultisigError>)
        requires
            old(self).wf(),
        ensures
            final(self).wf(),
            old(self).is_owner_spec(new_owner) ==> r == Err::<(), _>(MultisigError::AlreadyOwner),
            !old(self).is_owner_spec(new_owner) && old(self).spec_owners().len() >= MAX_OWNERS ==> r
                == Err::<(), _>(MultisigError::TooManyOwners),
            r is Err ==> *final(self) == *old(self),
            !old(self).is_owner_spec(new_owner) && old(self).spec_owners().len() < MAX_OWNERS ==> {
                &&& r is Ok
                &&& final(self).initialized()
                &&& final(self).spec_owners() == old(self).spec_owners().push(new_owner)
                &&& final(self).threshold_set() == old(self).threshold_set()
                &&& final(self).spec_threshold() == old(self).spec_threshold()
                &&& final(self).same_proposals(&*old(self))
            },
    {
        let mut owners = self.get_owners();
        if contains_address(&owners, new_owner) {
            return Err(MultisigError::AlreadyOwner);
        }
        if owners.len() >= MAX_OWNERS as usize {
            return Err(MultisigError::TooManyOwners);
        }
        owners.push(new_owner);
        self.owners = Some(owners);
        proof {
            assert forall|id: u64| #[trigger] self.spec_approvals(id).no_duplicates() by {
                assert(self.spec_approvals(id) == old(self).spec_approvals(id));
            }
            assert forall|id: u64| #[trigger] self.spec_approvals(id).len() <= u32::MAX by {
                assert(self.spec_approvals(id) == old(self).spec_approvals(id));
            }
            assert forall|id: u64| #[trigger] self.proposal(id) is Some implies self.proposal(id).unwrap().id
                == id && id < self.spec_next_id() by {
                assert(self.proposal(id) == old(self).proposal(id));
            }
        }
        Ok(())
    }

    /// Remove every occurrence of an owner; refused when it is no owner,
    /// when fewer owners than the threshold would remain, or none at all.
    pub fn remove_owner(&mut self, owner_to_remove: Address) -> (r: Result<(), MultisigError>)
        requires
            old(self).wf(),
        ensures
            final(self).wf(),
            ({
                let rest = old(self).spec_owners().filter(|a: Address| a != owner_to_remove);
                &&& !old(self).is_owner_spec(owner_to_remove) ==> r == Err::<(), _>(
                    MultisigError::NotAnOwner,
                )
                &&& old(self).is_owner_spec(owner_to_remove) && rest.len() < old(self).spec_threshold()
                    ==> r == Err::<(), _>(MultisigError::WouldViolateThreshold)
                &&& old(self).is_owner_spec(owner_to_remove) && rest.len() >= old(self).spec_threshold()
                    && rest.len() < MIN_OWNERS ==> r == Err::<(), _>(MultisigError::NoOwners)
                &&& r is Err ==> *final(self) == *old(self)
                &&& old(self).is_owner_spec(owner_to_remove) && rest.len() >= old(self).spec_threshold()
                    && rest.len() >= MIN_OWNERS ==> {
                    &&& r is Ok
                    &&& final(self).initialized()
                    &&& final(self).spec_owners() == rest
                    &&& final(self).threshold_set() == old(self).threshold_set()
                    &&& final(self).spec_threshold() == old(self).spec_threshold()
                    &&& final(self).same_proposals(&*old(self))
                }
            }),
    {
        let owners = self.get_owners();
        let ghost pred = |a: Address| a != owner_to_remove;
        let mut rest: Vec<Address> = Vec::new();
        let mut found = false;
        let mut i: usize = 0;
        while i < owners.len()
            invariant
                i <= owners@.len(),
                owners@ == old(self).spec_owners(),
                pred == (|a: Address| a != owner_to_remove),
                rest@ == owners@.subrange(0, i as int).filter(pred),
                found == exists|k: int| 0 <= k < i && #[trigger] owners@[k] == owner_to_remove,
            decreases owners@.len() - i,
        {
            let o = owners[i];
            proof {
                let l = owners@;
                assert(l.subrange(0, i + 1) =~= l.subrange(0, i as int).push(l[i as int]));
                l.subrange(0, i as int).lemma_filter_push(l[i as int], pred);
            }
            if o == owner_to_remove {
                found = true;
            } else {
                rest.push(o);
            }
            i = i + 1;
        }
        assert(owners@.subrange(0, owners@.len() as int) =~= owners@);
        assert(found == owners@.contains(owner_to_remove));
        if !found {
            return Err(MultisigError::NotAnOwner);
        }
        let threshold = self.get_threshold();
        if (rest.len() as u64) < threshold as u64 {
            return Err(MultisigError::WouldViolateThreshold);
        }
        if rest.len() < MIN_OWNERS as usize {
            return Err(MultisigError::NoOwners);
        }
        proof {
            old(self).spec_owners().lemma_filter_len(pred);
        }
        self.owners = Some(rest);
        proof {
            assert forall|id: u64| #[trigger] self.spec_approvals(id).no_duplicates() by {
                assert(self.spec_approvals(id) == old(self).spec_approvals(id));
            }
            assert forall|id: u64| #[trigger] self.spec_approvals(id).len() <= u32::MAX by {
                assert(self.spec_approvals(id) == old(self).spec_approvals(id));
            }
            assert forall|id: u64| #[trigger] self.proposal(id) is Some implies self.proposal(id).unwrap().id
                == id && id < self.spec_next_id() by {
                assert(self.proposal(id) == old(self).proposal(id));
            }
        }
        Ok(())
    }

    /// Set the threshold: at least 1, at most the number of owners.
    pub fn set_threshold(&mut self, threshold: u32) -> (r: Result<(), MultisigError>)
        requires
            old(self).wf(),
        ensures
            final(self).wf(),
            threshold == 0 ==> r == Err::<(), _>(MultisigError::ZeroThreshold),
            threshold > 0 && threshold > old(self).spec_owners().len() ==> r == Err::<(), _>(
                MultisigError::ThresholdTooHigh,
            ),
            r is Err ==> *final(self) == *old(self),
            threshold > 0 && threshold <= old(self).spec_owners().len() ==> {
                &&& r is Ok
                &&& final(self).spec_threshold() == threshold
                &&& final(self).initialized() == old(self).initialized()
                &&& final(self).spec_owners() == old(self).spec_owners()
                &&& final(self).same_proposals(&*old(self))
            },
    {
        let n = match &self.owners {
            Some(v) => v.len(),
            None => 0,
        };
        if threshold == 0 {
            return Err(MultisigError::ZeroThreshold);
        }
        if threshold as usize > n {
            return Err(MultisigError::ThresholdTooHigh);
        }
        self.threshold = Some(threshold);
        proof {
            assert forall|id: u64| #[trigger] self.spec_approvals(id).no_duplicates() by {
                assert(self.spec_approvals(id) == old(self).spec_approvals(id));
            }
            assert forall|id: u64| #[trigger] self.spec_approvals(id).len() <= u32::MAX by {
                assert(self.spec_approvals(id) == old(self).spec_approvals(id));
            }
            assert forall|id: u64| #[trigger] self.proposal(id) is Some implies self.proposal(id).unwrap().id
                == id && id < self.spec_next_id() by {
                assert(self.proposal(id) == old(self).proposal(id));
            }
        }
        Ok(())
    }

    /// Refuse callers that are not owners.
    pub fn require_owner(&self, caller: Address) -> (r: Result<(), MultisigError>)
        ensures
            r is Ok <==> self.is_owner_spec(caller),
            r is Err ==> r == Err::<(), _>(MultisigError::CallerNotOwner),
    {
        if self.is_owner(caller) {
            Ok(())
        } else {
            Err(MultisigError::CallerNotOwner)
        }
    }

    /// The error a proposal creation meets, if any.
    pub open spec fn create_error(&self, proposer: Address, ledger_seq: u32) -> Option<MultisigError> {
        if !self.is_owner_spec(proposer) {
            Some(MultisigError::CallerNotOwner)
        } else if self.spec_next_id() == u64::MAX {
            Some(MultisigError::Overflow)
        } else if ledger_seq + DEFAULT_PROPOSAL_EXPIRY > u32::MAX {
            Some(MultisigError::Overflow)
        } else {
            None
        }
    }

    /// Create a proposal, approved by its proposer; it stays open for
    /// `DEFAULT_PROPOSAL_EXPIRY` ledgers. Owners only.
    pub fn create_proposal(&mut self, proposer: Address, action: ProposalAction, ledger_seq: u32) -> (r:
        Result<u64, MultisigError>)
        requires
            old(self).wf(),
        ensures
            final(self).wf(),
            match old(self).create_error(proposer, ledger_seq) {
                Some(e) => r == Err::<u64, _>(e) && *final(self) == *old(self),
                None => {
                    let id = old(self).spec_next_id();
                    &&& r == Ok::<u64, MultisigError>(id)
                    &&& final(self).spec_next_id() == id + 1
                    &&& final(self).proposal(id) == Some(
                        Proposal {
                            id,
                            action,
                            proposer,
                            status: ProposalStatus::Pending,
                            created_at: ledger_seq,
                        },
                    )
                    &&& final(self).spec_approvals(id) == seq![proposer]
                    &&& final(self).spec_expiry(id) == ledger_seq + DEFAULT_PROPOSAL_EXPIRY
                    &&& forall|k: u64|
                        k != id ==> #[trigger] final(self).proposal(k) == old(self).proposal(k)
                            && final(self).spec_approvals(k) == old(self).spec_approvals(k)
                            && final(self).spec_expiry(k) == old(self).spec_expiry(k)
                    &&& final(self).same_owners(&*old(self))
                },
            },
    {
        if !self.is_owner(proposer) {
            return Err(MultisigError::CallerNotOwner);
        }
        if self.next_id == u64::MAX {
            return Err(MultisigError::Overflow);
        }
        if ledger_seq as u64 + DEFAULT_PROPOSAL_EXPIRY as u64 > 0xffff_ffffu64 {
            return Err(MultisigError::Overflow);
        }
        let id = self.next_id;
        self.next_id = id + 1;
        self.proposals.set(
            id,
            Proposal { id, action, proposer, status: ProposalStatus::Pending, created_at: ledger_seq },
        );
        self.expiry.set(id, ledger_seq + DEFAULT_PROPOSAL_EXPIRY);
        let mut approvals: Vec<Address> = Vec::new();
        approvals.push(proposer);
        self.approvals.set(id, approvals);
        proof {
            assert(self.spec_approvals(id) =~= seq![proposer]);
            assert forall|k: u64| #[trigger] self.spec_approvals(k).no_duplicates() by {
                if k != id {
                    assert(self.spec_approvals(k) == old(self).spec_approvals(k));
                }
            }
            assert forall|k: u64| #[trigger] self.spec_approvals(k).len() <= u32::MAX by {
                if k != id {
                    assert(self.spec_approvals(k) == old(self).spec_approvals(k));
                }
            }
            assert forall|k: u64| #[trigger] self.proposal(k) is Some implies self.proposal(k).unwrap().id
                == k && k < self.spec_next_id() by {
                if k != id {
                    assert(self.proposal(k) == old(self).proposal(k));
                }
            }
        }
        Ok(id)
    }

    pub fn get_proposal(&self, id: u64) -> (r: Option<Proposal>)
        ensures
            r == self.proposal(id),
    {
        match self.proposals.get(&id) {
            Some(p) => Some(*p),
            None => None,
        }
    }

    /// Owners that approved proposal `id`, in approval order.
    pub fn get_approvals(&self, id: u64) -> (r: Vec<Address>)
        ensures
            r@ == self.spec_approvals(id),
    {
        match self.approvals.get(&id) {
            Some(v) => copy_vec(v),
            None => Vec::new(),
        }
    }

    /// Number of approvals of proposal `id`.
    pub fn get_approval_count(&self, id: u64) -> (r: u32)
        requires
            self.wf(),
        ensures
            r == self.spec_approvals(id).len(),
    {
        let v = self.get_approvals(id);
        v.len() as u32
    }

    fn get_expiry(&self, id: u64) -> (r: u32)
        ensures
            r == self.spec_expiry(id),
    {
        match self.expiry.get(&id) {
            Some(e) => *e,
            None => 0,
        }
    }

    /// Whether proposal `id` has passed its last open ledger.
    pub fn is_proposal_expired(&self, id: u64, ledger_seq: u32) -> (r: bool)
        ensures
            r == (ledger_seq > self.spec_expiry(id)),
    {
        ledger_seq > self.get_expiry(id)
    }

    /// Whether proposal `id` has as many approvals as the threshold.
    pub fn is_proposal_approved(&self, id: u64) -> (r: bool)
        ensures
            r == (self.spec_approvals(id).len() >= self.spec_threshold()),
    {
        let v = self.get_approvals(id);
        v.len() as u64 >= self.get_threshold() as u64
    }

    /// The error an approval meets, if any.
    pub open spec fn approve_error(&self, approver: Address, id: u64, ledger_seq: u32) -> Option<
        MultisigError,
    > {
        if !self.is_owner_spec(approver) {
            Some(MultisigError::CallerNotOwner)
        } else if self.proposal(id) is None {
            Some(MultisigError::ProposalNotFound)
        } else if self.proposal(id).unwrap().status != ProposalStatus::Pending {
            Some(MultisigError::NotPending)
        } else if ledger_seq > self.spec_expiry(id) {
            Some(MultisigError::Expired)
        } else if self.spec_approvals(id).contains(approver) {
            Some(MultisigError::AlreadyApproved)
        } else if self.spec_approvals(id).len() == u32::MAX {
            Some(MultisigError::Overflow)
        } else {
            None
        }
    }

    /// An owner approves an open proposal, once.
    pub fn approve_proposal(&mut self, approver: Address, id: u64, ledger_seq: u32) -> (r: Result<
        (),
        MultisigError,
    >)
        requires
            old(self).wf(),
        ensures
            final(self).wf(),
            match old(self).approve_error(approver, id, ledger_seq) {
                Some(e) => r == Err::<(), _>(e) && *final(self) == *old(self),
                None => {
                    &&& r is Ok
                    &&& final(self).spec_approvals(id) == old(self).spec_approvals(id).push(approver)
                    &&& forall|k: u64| k != id ==> #[trigger] final(self).spec_approvals(k) == old(self).spec_approvals(k)
                    &&& forall|k: u64| #[trigger] final(self).proposal(k) == old(self).proposal(k)
                    &&& forall|k: u64| #[trigger] final(self).spec_expiry(k) == old(self).spec_expiry(k)
                    &&& final(self).spec_next_id() == old(self).spec_next_id()
                    &&& final(self).same_owners(&*old(self))
                },
            },
    {
        if !self.is_owner(approver) {
            return Err(MultisigError::CallerNotOwner);
        }
        let p = match self.proposals.get(&id) {
            Some(p) => *p,
            None => {
                return Err(MultisigError::ProposalNotFound);
            },
        };
        if p.status != ProposalStatus::Pending {
            return Err(MultisigError::NotPending);
        }
        if self.is_proposal_expired(id, ledger_seq) {
            return Err(MultisigError::Expired);
        }
        let mut approvals = self.get_approvals(id);
        if contains_address(&approvals, approver) {
            return Err(MultisigError::AlreadyApproved);
        }
        if approvals.len() >= 0xffff_ffffusize {
            return Err(MultisigError::Overflow);
        }
        let ghost before = approvals@;
        approvals.push(approver);
        self.approvals.set(id, approvals);
        proof {
            assert(self.spec_approvals(id) == before.push(approver));
            assert forall|k: u64| #[trigger] self.spec_approvals(k).no_duplicates() by {
                if k != id {
                    assert(self.spec_approvals(k) == old(self).spec_approvals(k));
                } else {
                    assert(old(self).spec_approvals(id).no_duplicates());
                    let t = before.push(approver);
                    assert forall|a: int, b: int| 0 <= a < t.len() && 0 <= b < t.len() && a != b implies t[a] != t[b] by {
                        if a == before.len() {
                            assert(before[b] == t[b]);
                        } else if b == before.len() {
                            assert(before[a] == t[a]);
                        } else {
                            assert(before[a] == t[a] && before[b] == t[b]);
                        }
                    }
                }
            }
            assert forall|k: u64| #[trigger] self.spec_approvals(k).len() <= u32::MAX by {
                if k != id {
                    assert(self.spec_approvals(k) == old(self).spec_approvals(k));
                }
            }
            assert forall|k: u64| #[trigger] self.proposal(k) is Some implies self.proposal(k).unwrap().id
                == k && k < self.spec_next_id() by {
                assert(self.proposal(k) == old(self).proposal(k));
            }
        }
        Ok(())
    }

    /// The error a rejection meets, if any.
    pub open spec fn reject_error(&self, rejecter: Address, id: u64) -> Option<MultisigError> {
        match self.proposal(id) {
            None => Some(MultisigError::ProposalNotFound),
            Some(p) => if p.status != ProposalStatus::Pending {
                Some(MultisigError::NotPending)
            } else if p.proposer != rejecter && !self.is_owner_spec(rejecter) {
                Some(MultisigError::NotProposerOrOwner)
            } else {
                None
            },
        }
    }

    /// `self` is `old` with proposal `id` moved to `status`.
    pub open spec fn status_set(&self, old: &Self, id: u64, status: ProposalStatus) -> bool {
        &&& self.proposal(id) == Some(Proposal { status, ..old.proposal(id).unwrap() })
        &&& forall|k: u64| k != id ==> #[trigger] self.proposal(k) == old.proposal(k)
        &&& forall|k: u64| #[trigger] self.spec_approvals(k) == old.spec_approvals(k)
        &&& forall|k: u64| #[trigger] self.spec_expiry(k) == old.spec_expiry(k)
        &&& self.spec_next_id() == old.spec_next_id()
        &&& self.same_owners(old)
    }

    fn set_status(&mut self, p: Proposal, status: ProposalStatus)
        requires
            old(self).wf(),
            old(self).proposal(p.id) == Some(p),
        ensures
            final(self).wf(),
            final(self).status_set(&*old(self), p.id, status),
    {
        self.proposals.set(p.id, Proposal { status, ..p });
        proof {
            assert forall|k: u64| #[trigger] self.spec_approvals(k).no_duplicates() by {
                assert(self.spec_approvals(k) == old(self).spec_approvals(k));
            }
            assert forall|k: u64| #[trigger] self.spec_approvals(k).len() <= u32::MAX by {
                assert(self.spec_approvals(k) == old(self).spec_approvals(k));
            }
            assert forall|k: u64| #[trigger] self.proposal(k) is Some implies self.proposal(k).unwrap().id
                == k && k < self.spec_next_id() by {
                if k != p.id {
                    assert(self.proposal(k) == old(self).proposal(k));
                }
            }
        }
    }

    /// Reject a pending proposal: its proposer or any owner.
    pub fn reject_proposal(&mut self, rejecter: Address, id: u64) -> (r: Result<(), MultisigError>)
        requires
            old(self).wf(),
        ensures
            final(self).wf(),
            match old(self).reject_error(rejecter, id) {
                Some(e) => r == Err::<(), _>(e) && *final(self) == *old(self),
                None => r is Ok && final(self).status_set(&*old(self), id, ProposalStatus::Rejected),
            },
    {
        let p = match self.proposals.get(&id) {
            Some(p) => *p,
            None => {
                return Err(MultisigError::ProposalNotFound);
            },
        };
        if p.status != ProposalStatus::Pending {
            return Err(MultisigError::NotPending);
        }
        if p.proposer != rejecter && !self.is_owner(rejecter) {
            return Err(MultisigError::NotProposerOrOwner);
        }
        self.set_status(p, ProposalStatus::Rejected);
        Ok(())
    }

    /// The error marking a proposal executed meets, if any.
    pub open spec fn execute_error(&self, id: u64, ledger_seq: u32) -> Option<MultisigError> {
        match self.proposal(id) {
            None => Some(MultisigError::ProposalNotFound),
            Some(p) => if p.status != ProposalStatus::Pending {
                Some(MultisigError::NotPending)
            } else if self.spec_approvals(id).len() < self.spec_threshold() {
                Some(MultisigError::NotApproved)
            } else if ledger_seq > self.spec_expiry(id) {
                Some(MultisigError::Expired)
            } else {
                None
            },
        }
    }

    /// Mark an approved, open proposal executed; the caller then performs
    /// its action.
    pub fn mark_executed(&mut self, id: u64, ledger_seq: u32) -> (r: Result<(), MultisigError>)
        requires
            old(self).wf(),
        ensures
            final(self).wf(),
            match old(self).execute_error(id, ledger_seq) {
                Some(e) => r == Err::<(), _>(e) && *final(self) == *old(self),
                None => r is Ok && final(self).status_set(&*old(self), id, ProposalStatus::Executed),
            },
    {
        let p = match self.proposals.get(&id) {
            Some(p) => *p,
            None => {
                return Err(MultisigError::ProposalNotFound);
            },
        };
        if p.status != ProposalStatus::Pending {
            return Err(MultisigError::NotPending);
        }
        if !self.is_proposal_approved(id) {
            return Err(MultisigError::NotApproved);
        }
        if self.is_proposal_expired(id, ledger_seq) {
            return Err(MultisigError::Expired);
        }
        self.set_status(p, ProposalStatus::Executed);
        Ok(())
    }
}

/// Execution needs as many distinct approvers as the threshold; with a
/// threshold above one, a proposal approved only by its proposer cannot
/// be executed.
pub proof fn law_no_single_owner_acts_alone(m: &MultisigState, id: u64, ledger_seq: u32)
    requires
        m.wf(),
        m.execute_error(id, ledger_seq) is None,
    ensures
        m.spec_approvals(id).len() >= m.spec_threshold(),
        m.spec_approvals(id).no_duplicates(),
        m.spec_threshold() >= 2 ==> m.spec_approvals(id).len() >= 2,
{
}

/// An owner approves a proposal at most once.
pub proof fn law_each_owner_approves_once(
    before: &MultisigState,
    after: &MultisigState,
    approver: Address,
    id: u64,
    ledger_seq: u32,
)
    requires
        after.spec_approvals(id) == before.spec_approvals(id).push(approver),
    ensures
        after.approve_error(approver, id, ledger_seq) is Some,
{
    assert(after.spec_approvals(id)[before.spec_approvals(id).len() as int] == approver);
}

/// An executed proposal cannot be executed, approved or rejected again.
pub proof fn law_executed_proposal_not_replayed(
    before: &MultisigState,
    after: &MultisigState,
    id: u64,
    who: Address,
    ledger_seq: u32,
)
    requires
        before.proposal(id) is Some,
        after.status_set(before, id, ProposalStatus::Executed),
    ensures
        after.execute_error(id, ledger_seq) == Some(MultisigError::NotPending),
        after.reject_error(who, id) == Some(MultisigError::NotPending),
        after.approve_error(who, id, ledger_seq) is Some,
{
}

/// Once owners exist, there are 1 to 10 of them and the threshold lies
/// between 1 and their number.
pub proof fn law_threshold_within_owners(m: &MultisigState)
    requires
        m.wf(),
        m.initialized(),
    ensures
        MIN_OWNERS <= m.spec_owners().len() <= MAX_OWNERS,
        1 <= m.spec_threshold() <= m.spec_owners().len(),
{
}

} // verus!
