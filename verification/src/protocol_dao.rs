//! Protocol DAO: token holders propose changes to the attestation fee
//! configuration or to the DAO's own voting rules, vote on them once each,
//! and execute a proposal that reached quorum with more votes for than
//! against before it expired.
//!
//! The governance-token balance of a caller is read by the host and handed
//! in; it only matters when a governance token is configured.
use vstd::prelude::*;
use crate::store::Store;
use crate::types::Address;

verus! {

/// Minimum number of votes when none is configured.
pub const DEFAULT_MIN_VOTES: u32 = 1;

/// Voting period in ledgers when none is configured (about a week).
pub const DEFAULT_PROPOSAL_DURATION: u32 = 120960;

/// Lifecycle of a proposal.
#[derive(Clone, Copy, Debug, PartialEq, Eq, Structural)]
pub enum ProposalStatus {
    Pending,
    Executed,
    Rejected,
    Expired,
}

/// What a proposal does when executed.
#[derive(Clone, Copy, Debug, PartialEq, Eq, Structural)]
pub enum ProposalAction {
    /// Store the attestation fee configuration (token, collector, base fee,
    /// enabled).
    SetAttestationFeeConfig(Address, Address, i128, bool),
    /// Switch the stored attestation fee configuration on or off.
    SetAttestationFeeEnabled(bool),
    /// Set minimum votes and voting period.
    UpdateGovernanceConfig(u32, u32),
}

#[derive(Clone, Copy, Debug, PartialEq, Eq, Structural)]
pub struct Proposal {
    pub id: u64,
    pub creator: Address,
    pub action: ProposalAction,
    pub status: ProposalStatus,
    /// Ledger sequence at creation.
    pub created_at: u32,
}

/// Attestation fee configuration: token, collector, base fee, enabled.
pub type FeeConfigTuple = (Address, Address, i128, bool);

/// Why a DAO call was refused.
#[derive(Clone, Copy, Debug, PartialEq, Eq, Structural)]
pub enum DaoError {
    AlreadyInitialized,
    NotInitialized,
    NotAdmin,
    InsufficientBalance,
    NegativeBaseFee,
    ProposalNotFound,
    NotPending,
    Expired,
    AlreadyVoted,
    QuorumNotMet,
    NotApproved,
    NotCreatorOrAdmin,
    FeeConfigNotSet,
    Overflow,
}

/// `value`, or `default` where `value` is 0.
pub open spec fn or_default(value: u32, default: u32) -> u32 {
    if value == 0 {
        default
    } else {
        value
    }
}

/// DAO storage.
pub struct ProtocolDao {
    admin: Option<Address>,
    governance_token: Option<Address>,
    min_votes: u32,
    proposal_duration: u32,
    next_id: u64,
    proposals: Store<u64, Proposal>,
    votes_for: Store<u64, u32>,
    votes_against: Store<u64, u32>,
    voted: Store<(u64, u64), bool>,
    fee_config: Option<FeeConfigTuple>,
}

impl ProtocolDao {
    pub closed spec fn spec_admin(&self) -> Option<Address> {
        self.admin
    }

    pub closed spec fn spec_token(&self) -> Option<Address> {
        self.governance_token
    }

    pub closed spec fn spec_min_votes(&self) -> u32 {
        self.min_votes
    }

    pub closed spec fn spec_duration(&self) -> u32 {
        self.proposal_duration
    }

    /// Identifier the next proposal gets.
    pub closed spec fn spec_next_id(&self) -> u64 {
        self.next_id
    }

    pub closed spec fn proposal(&self, id: u64) -> Option<Proposal> {
        if self.proposals@.contains_key(id) {
            Some(self.proposals@[id])
        } else {
            None
        }
    }

    pub closed spec fn for_votes(&self, id: u64) -> u32 {
        if self.votes_for@.contains_key(id) {
            self.votes_for@[id]
        } else {
            0
        }
    }

    pub closed spec fn against_votes(&self, id: u64) -> u32 {
        if self.votes_against@.contains_key(id) {
            self.votes_against@[id]
        } else {
            0
        }
    }

    /// Whether `voter` has voted on proposal `id`.
    pub closed spec fn has_voted(&self, id: u64, voter: Address) -> bool {
        self.voted@.contains_key((id, voter)) && self.voted@[(id, voter)]
    }

    pub closed spec fn spec_fee_config(&self) -> Option<FeeConfigTuple> {
        self.fee_config
    }

    /// Invariant: each stored proposal carries its own identifier, which
    /// lies below the next one to be handed out.
    pub open spec fn wf(&self) -> bool {
        forall|id: u64| #[trigger]
            self.proposal(id) is Some ==> self.proposal(id).unwrap().id == id && id
                < self.spec_next_id()
    }

    /// The caller may act as a token holder: no governance token is set, or
    /// its balance is positive.
    pub open spec fn holder_ok(&self, balance: Option<i128>) -> bool {
        self.spec_token() is None || (balance matches Some(b) && b > 0)
    }

    /// Last ledger at which proposal `p` may still be voted on or executed.
    pub open spec fn deadline(&self, p: Proposal) -> int {
        p.created_at + self.spec_duration()
    }

    /// The checks shared by voting and execution: the proposal exists, is
    /// pending and has not expired.
    pub open spec fn open_error(&self, id: u64, ledger_seq: u32) -> Option<DaoError> {
        match self.proposal(id) {
            None => Some(DaoError::ProposalNotFound),
            Some(p) => if p.status != ProposalStatus::Pending {
                Some(DaoError::NotPending)
            } else if self.deadline(p) > u32::MAX {
                Some(DaoError::Overflow)
            } else if ledger_seq > self.deadline(p) {
                Some(DaoError::Expired)
            } else {
                None
            },
        }
    }

    /// The error a vote meets, if any.
    pub open spec fn vote_error(
        &self,
        voter: Address,
        id: u64,
        balance: Option<i128>,
        ledger_seq: u32,
        in_favour: bool,
    ) -> Option<DaoError> {
        if !self.holder_ok(balance) {
            Some(DaoError::InsufficientBalance)
        } else if self.open_error(id, ledger_seq) is Some {
            self.open_error(id, ledger_seq)
        } else if self.has_voted(id, voter) {
            Some(DaoError::AlreadyVoted)
        } else if (if in_favour {
            self.for_votes(id)
        } else {
            self.against_votes(id)
        }) == u32::MAX {
            Some(DaoError::Overflow)
        } else {
            None
        }
    }

    /// The error an execution meets, if any.
    pub open spec fn execute_error(&self, id: u64, ledger_seq: u32) -> Option<DaoError> {
        if self.open_error(id, ledger_seq) is Some {
            self.open_error(id, ledger_seq)
        } else if self.for_votes(id) + self.against_votes(id) > u32::MAX {
            Some(DaoError::Overflow)
        } else if self.for_votes(id) + self.against_votes(id) < self.spec_min_votes() {
            Some(DaoError::QuorumNotMet)
        } else if self.for_votes(id) <= self.against_votes(id) {
            Some(DaoError::NotApproved)
        } else if self.proposal(id).unwrap().action is SetAttestationFeeEnabled
            && self.spec_fee_config() is None {
            Some(DaoError::FeeConfigNotSet)
        } else {
            None
        }
    }

    /// The error a cancellation meets, if any.
    pub open spec fn cancel_error(&self, caller: Address, id: u64) -> Option<DaoError> {
        match self.proposal(id) {
            None => Some(DaoError::ProposalNotFound),
            Some(p) => if p.status != ProposalStatus::Pending {
                Some(DaoError::NotPending)
            } else if p.creator == caller {
                None
            } else {
                match self.spec_admin() {
                    None => Some(DaoError::NotInitialized),
                    Some(a) => if a == caller {
                        None
                    } else {
                        Some(DaoError::NotCreatorOrAdmin)
                    },
                }
            },
        }
    }

    /// The error a proposal creation meets, if any.
    pub open spec fn create_error(&self, balance: Option<i128>) -> Option<DaoError> {
        if !self.holder_ok(balance) {
            Some(DaoError::InsufficientBalance)
        } else if self.spec_next_id() == u64::MAX {
            Some(DaoError::Overflow)
        } else {
            None
        }
    }

    /// What executing `action` makes of the fee configuration.
    pub open spec fn applied_fee_config(&self, action: ProposalAction) -> Option<FeeConfigTuple> {
        match action {
            ProposalAction::SetAttestationFeeConfig(t, c, f, e) => Some((t, c, f, e)),
            ProposalAction::SetAttestationFeeEnabled(e) => match self.spec_fee_config() {
                Some(cfg) => Some((cfg.0, cfg.1, cfg.2, e)),
                None => None,
            },
            ProposalAction::UpdateGovernanceConfig(_, _) => self.spec_fee_config(),
        }
    }

    /// Admin, token, voting rules and fee configuration are as in `o`.
    pub open spec fn same_config(&self, o: &Self) -> bool {
        &&& self.spec_admin() == o.spec_admin()
        &&& self.spec_token() == o.spec_token()
        &&& self.spec_min_votes() == o.spec_min_votes()
        &&& self.spec_duration() == o.spec_duration()
        &&& self.spec_fee_config() == o.spec_fee_config()
    }

    /// Tallies and voter records are as in `o`.
    pub open spec fn same_votes(&self, o: &Self) -> bool {
        &&& forall|id: u64| #[trigger] self.for_votes(id) == o.for_votes(id)
        &&& forall|id: u64| #[trigger] self.against_votes(id) == o.against_votes(id)
        &&& forall|id: u64, v: Address| #[trigger] self.has_voted(id, v) == o.has_voted(id, v)
    }

    /// Proposals and the identifier counter are as in `o`.
    pub open spec fn same_proposals(&self, o: &Self) -> bool {
        &&& self.spec_next_id() == o.spec_next_id()
        &&& forall|id: u64| #[trigger] self.proposal(id) == o.proposal(id)
    }

    /// Fresh storage with the default voting rules.
    pub fn new() -> (r: Self)
        ensures
            r.wf(),
            r.spec_admin() is None,
            r.spec_token() is None,
            r.spec_min_votes() == DEFAULT_MIN_VOTES,
            r.spec_duration() == DEFAULT_PROPOSAL_DURATION,
            r.spec_next_id() == 0,
            forall|id: u64| r.proposal(id) is None,
            r.spec_fee_config() is None,
    {
        ProtocolDao {
            admin: None,
            governance_token: None,
            min_votes: DEFAULT_MIN_VOTES,
            proposal_duration: DEFAULT_PROPOSAL_DURATION,
            next_id: 0,
            proposals: Store::new(),
            votes_for: Store::new(),
            votes_against: Store::new(),
            voted: Store::new(),
            fee_config: None,
        }
    }

    proof fn lemma_wf_kept(old: &Self, new: &Self)
        requires
            old.wf(),
            new.same_proposals(old),
        ensures
            new.wf(),
    {
        assert forall|id: u64| #[trigger] new.proposal(id) is Some implies new.proposal(id).unwrap().id
            == id && id < new.spec_next_id() by {
            assert(old.proposal(id) == new.proposal(id));
        }
    }

    /// Set admin, optional governance token and voting rules, once. A zero
    /// minimum or duration takes its default.
    pub fn initialize(
        &mut self,
        admin: Address,
        governance_token: Option<Address>,
        min_votes: u32,
        proposal_duration: u32,
    ) -> (r: Result<(), DaoError>)
        requires
            old(self).wf(),
        ensures
            final(self).wf(),
            old(self).spec_admin() is Some ==> r == Err::<(), _>(DaoError::AlreadyInitialized)
                && *final(self) == *old(self),
            old(self).spec_admin() is None ==> {
                &&& r is Ok
                &&& final(self).spec_admin() == Some(admin)
                &&& final(self).spec_token() == if governance_token is Some {
                    governance_token
                } else {
                    old(self).spec_token()
                }
                &&& final(self).spec_min_votes() == or_default(min_votes, DEFAULT_MIN_VOTES)
                &&& final(self).spec_duration() == or_default(
                    proposal_duration,
                    DEFAULT_PROPOSAL_DURATION,
                )
                &&& final(self).spec_fee_config() == old(self).spec_fee_config()
                &&& final(self).same_proposals(&*old(self))
                &&& final(self).same_votes(&*old(self))
            },
    {
        if self.admin.is_some() {
            return Err(DaoError::AlreadyInitialized);
        }
        self.admin = Some(admin);
        match governance_token {
            Some(t) => {
                self.governance_token = Some(t);
            },
            None => {},
        }
        self.min_votes = if min_votes == 0 {
            DEFAULT_MIN_VOTES
        } else {
            min_votes
        };
        self.proposal_duration = if proposal_duration == 0 {
            DEFAULT_PROPOSAL_DURATION
        } else {
            proposal_duration
        };
        proof {
            Self::lemma_wf_kept(&*old(self), &*self);
        }
        Ok(())
    }

    /// The admin check: initialized, and `caller` is the admin.
    pub open spec fn admin_error(&self, caller: Address) -> Option<DaoError> {
        match self.spec_admin() {
            None => Some(DaoError::NotInitialized),
            Some(a) => if a != caller {
                Some(DaoError::NotAdmin)
            } else {
                None
            },
        }
    }

    fn check_admin(&self, caller: Address) -> (r: Result<(), DaoError>)
        ensures
            match self.admin_error(caller) {
                Some(e) => r == Err::<(), _>(e),
                None => r is Ok,
            },
    {
        match self.admin {
            None => Err(DaoError::NotInitialized),
            Some(a) => if a != caller {
                Err(DaoError::NotAdmin)
            } else {
                Ok(())
            },
        }
    }

    /// Set the governance token. Admin only.
    pub fn set_governance_token(&mut self, caller: Address, token: Address) -> (r: Result<
        (),
        DaoError,
    >)
        requires
            old(self).wf(),
        ensures
            final(self).wf(),
            match old(self).admin_error(caller) {
                Some(e) => r == Err::<(), _>(e) && *final(self) == *old(self),
                None => {
                    &&& r is Ok
                    &&& final(self).spec_token() == Some(token)
                    &&& final(self).spec_admin() == old(self).spec_admin()
                    &&& final(self).spec_min_votes() == old(self).spec_min_votes()
                    &&& final(self).spec_duration() == old(self).spec_duration()
                    &&& final(self).spec_fee_config() == old(self).spec_fee_config()
                    &&& final(self).same_proposals(&*old(self))
                    &&& final(self).same_votes(&*old(self))
                },
            },
    {
        self.check_admin(caller)?;
        self.governance_token = Some(token);
        proof {
            Self::lemma_wf_kept(&*old(self), &*self);
        }
        Ok(())
    }

    /// Set the voting rules; a zero takes its default. Admin only.
    pub fn set_voting_config(&mut self, caller: Address, min_votes: u32, proposal_duration: u32) -> (r:
        Result<(), DaoError>)
        requires
            old(self).wf(),
        ensures
            final(self).wf(),
            match old(self).admin_error(caller) {
                Some(e) => r == Err::<(), _>(e) && *final(self) == *old(self),
                None => {
                    &&& r is Ok
                    &&& final(self).spec_min_votes() == or_default(min_votes, DEFAULT_MIN_VOTES)
                    &&& final(self).spec_duration() == or_default(
                        proposal_duration,
                        DEFAULT_PROPOSAL_DURATION,
                    )
                    &&& final(self).spec_admin() == old(self).spec_admin()
                    &&& final(self).spec_token() == old(self).spec_token()
                    &&& final(self).spec_fee_config() == old(self).spec_fee_config()
                    &&& final(self).same_proposals(&*old(self))
                    &&& final(self).same_votes(&*old(self))
                },
            },
    {
        self.check_admin(caller)?;
        self.min_votes = if min_votes == 0 {
            DEFAULT_MIN_VOTES
        } else {
            min_votes
        };
        self.proposal_duration = if proposal_duration == 0 {
            DEFAULT_PROPOSAL_DURATION
        } else {
            proposal_duration
        };
        proof {
            Self::lemma_wf_kept(&*old(self), &*self);
        }
        Ok(())
    }

    fn holder_check(&self, balance: Option<i128>) -> (r: bool)
        ensures
            r == self.holder_ok(balance),
    {
        match self.governance_token {
            None => true,
            Some(_) => match balance {
                Some(b) => b > 0,
                None => false,
            },
        }
    }

    /// The proposal a creation stores.
    pub open spec fn created(&self, creator: Address, action: ProposalAction, ledger_seq: u32) -> Proposal {
        Proposal {
            id: self.spec_next_id(),
            creator,
            action,
            status: ProposalStatus::Pending,
            created_at: ledger_seq,
        }
    }

    /// `self` is `old` with one more proposal, `p`, stored under the next
    /// identifier.
    pub open spec fn proposal_added(&self, old: &Self, p: Proposal) -> bool {
        &&& self.spec_next_id() == old.spec_next_id() + 1
        &&& self.proposal(old.spec_next_id()) == Some(p)
        &&& forall|id: u64| id != old.spec_next_id() ==> #[trigger] self.proposal(id) == old.proposal(id)
        &&& self.same_config(old)
        &&& self.same_votes(old)
    }

    fn add_proposal(&mut self, creator: Address, action: ProposalAction, ledger_seq: u32) -> (r:
        Result<u64, DaoError>)
        requires
            old(self).wf(),
        ensures
            final(self).wf(),
            old(self).spec_next_id() == u64::MAX ==> r == Err::<u64, _>(DaoError::Overflow)
                && *final(self) == *old(self),
            old(self).spec_next_id() < u64::MAX ==> {
                &&& r == Ok::<u64, DaoError>(old(self).spec_next_id())
                &&& final(self).proposal_added(&*old(self), old(self).created(creator, action, ledger_seq))
            },
    {
        if self.next_id == u64::MAX {
            return Err(DaoError::Overflow);
        }
        let id = self.next_id;
        self.next_id = id + 1;
        let p = Proposal {
            id,
            creator,
            action,
            status: ProposalStatus::Pending,
            created_at: ledger_seq,
        };
        self.proposals.set(id, p);
        proof {
            assert forall|k: u64| #[trigger] self.proposal(k) is Some implies self.proposal(k).unwrap().id == k
                && k < self.spec_next_id() by {
                if k != id {
                    assert(old(self).proposal(k) is Some);
                }
            }
        }
        Ok(id)
    }

    /// Propose a new attestation fee configuration. Returns the proposal's
    /// identifier.
    pub fn create_fee_config_proposal(
        &mut self,
        creator: Address,
        token: Address,
        collector: Address,
        base_fee: i128,
        enabled: bool,
        creator_balance: Option<i128>,
        ledger_seq: u32,
    ) -> (r: Result<u64, DaoError>)
        requires
            old(self).wf(),
        ensures
            final(self).wf(),
            !old(self).holder_ok(creator_balance) ==> r == Err::<u64, _>(
                DaoError::InsufficientBalance,
            ),
            old(self).holder_ok(creator_balance) && base_fee < 0 ==> r == Err::<u64, _>(
                DaoError::NegativeBaseFee,
            ),
            old(self).holder_ok(creator_balance) && base_fee >= 0 && old(self).spec_next_id()
                == u64::MAX ==> r == Err::<u64, _>(DaoError::Overflow),
            r is Err ==> *final(self) == *old(self),
            old(self).holder_ok(creator_balance) && base_fee >= 0 && old(self).spec_next_id()
                < u64::MAX ==> {
                &&& r == Ok::<u64, DaoError>(old(self).spec_next_id())
                &&& final(self).proposal_added(
                    &*old(self),
                    old(self).created(
                        creator,
                        ProposalAction::SetAttestationFeeConfig(token, collector, base_fee, enabled),
                        ledger_seq,
                    ),
                )
            },
    {
        if !self.holder_check(creator_balance) {
            return Err(DaoError::InsufficientBalance);
        }
        if base_fee < 0 {
            return Err(DaoError::NegativeBaseFee);
        }
        self.add_proposal(
            creator,
            ProposalAction::SetAttestationFeeConfig(token, collector, base_fee, enabled),
            ledger_seq,
        )
    }

    /// Propose switching attestation fees on or off.
    pub fn create_fee_toggle_proposal(
        &mut self,
        creator: Address,
        enabled: bool,
        creator_balance: Option<i128>,
        ledger_seq: u32,
    ) -> (r: Result<u64, DaoError>)
        requires
            old(self).wf(),
        ensures
            final(self).wf(),
            match old(self).create_error(creator_balance) {
                Some(e) => r == Err::<u64, _>(e) && *final(self) == *old(self),
                None => {
                    &&& r == Ok::<u64, DaoError>(old(self).spec_next_id())
                    &&& final(self).proposal_added(
                        &*old(self),
                        old(self).created(
                            creator,
                            ProposalAction::SetAttestationFeeEnabled(enabled),
                            ledger_seq,
                        ),
                    )
                },
            },
    {
        if !self.holder_check(creator_balance) {
            return Err(DaoError::InsufficientBalance);
        }
        self.add_proposal(creator, ProposalAction::SetAttestationFeeEnabled(enabled), ledger_seq)
    }

    /// Propose new voting rules (taken as given, zeros included).
    pub fn create_gov_config_proposal(
        &mut self,
        creator: Address,
        min_votes: u32,
        proposal_duration: u32,
        creator_balance: Option<i128>,
        ledger_seq: u32,
    ) -> (r: Result<u64, DaoError>)
        requires
            old(self).wf(),
        ensures
            final(self).wf(),
            match old(self).create_error(creator_balance) {
                Some(e) => r == Err::<u64, _>(e) && *final(self) == *old(self),
                None => {
                    &&& r == Ok::<u64, DaoError>(old(self).spec_next_id())
                    &&& final(self).proposal_added(
                        &*old(self),
                        old(self).created(
                            creator,
                            ProposalAction::UpdateGovernanceConfig(min_votes, proposal_duration),
                            ledger_seq,
                        ),
                    )
                },
            },
    {
        if !self.holder_check(creator_balance) {
            return Err(DaoError::InsufficientBalance);
        }
        self.add_proposal(
            creator,
            ProposalAction::UpdateGovernanceConfig(min_votes, proposal_duration),
            ledger_seq,
        )
    }

    fn get_for(&self, id: u64) -> (r: u32)
        ensures
            r == self.for_votes(id),
    {
        match self.votes_for.get(&id) {
            Some(v) => *v,
            None => 0,
        }
    }

    fn get_against(&self, id: u64) -> (r: u32)
        ensures
            r == self.against_votes(id),
    {
        match self.votes_against.get(&id) {
            Some(v) => *v,
            None => 0,
        }
    }

    fn voted_check(&self, id: u64, voter: Address) -> (r: bool)
        ensures
            r == self.has_voted(id, voter),
    {
        match self.voted.get(&(id, voter)) {
            Some(b) => *b,
            None => false,
        }
    }

    /// The proposal, provided it exists, is pending and has not expired.
    fn check_open(&self, id: u64, ledger_seq: u32) -> (r: Result<Proposal, DaoError>)
        ensures
            match self.open_error(id, ledger_seq) {
                Some(e) => r == Err::<Proposal, _>(e),
                None => r == Ok::<Proposal, DaoError>(self.proposal(id).unwrap()),
            },
    {
        let p = match self.proposals.get(&id) {
            Some(p) => *p,
            None => {
                return Err(DaoError::ProposalNotFound);
            },
        };
        if p.status != ProposalStatus::Pending {
            return Err(DaoError::NotPending);
        }
        let deadline: u64 = p.created_at as u64 + self.proposal_duration as u64;
        if deadline > 0xffff_ffffu64 {
            return Err(DaoError::Overflow);
        }
        if ledger_seq as u64 > deadline {
            return Err(DaoError::Expired);
        }
        Ok(p)
    }

    /// `self` is `old` after `voter` voted on `id` (for, or against).
    pub open spec fn vote_recorded(&self, old: &Self, voter: Address, id: u64, in_favour: bool) -> bool {
        &&& self.for_votes(id) == if in_favour {
            old.for_votes(id) + 1
        } else {
            old.for_votes(id) as int
        }
        &&& self.against_votes(id) == if in_favour {
            old.against_votes(id) as int
        } else {
            old.against_votes(id) + 1
        }
        &&& forall|k: u64| k != id ==> #[trigger] self.for_votes(k) == old.for_votes(k)
        &&& forall|k: u64| k != id ==> #[trigger] self.against_votes(k) == old.against_votes(k)
        &&& forall|k: u64, v: Address| #[trigger]
            self.has_voted(k, v) == (k == id && v == voter || old.has_voted(k, v))
        &&& self.same_config(old)
        &&& self.same_proposals(old)
    }

    fn vote(&mut self, voter: Address, id: u64, voter_balance: Option<i128>, ledger_seq: u32, in_favour: bool) -> (r:
        Result<(), DaoError>)
        requires
            old(self).wf(),
        ensures
            final(self).wf(),
            match old(self).vote_error(voter, id, voter_balance, ledger_seq, in_favour) {
                Some(e) => r == Err::<(), _>(e) && *final(self) == *old(self),
                None => r is Ok && final(self).vote_recorded(&*old(self), voter, id, in_favour),
            },
    {
        if !self.holder_check(voter_balance) {
            return Err(DaoError::InsufficientBalance);
        }
        self.check_open(id, ledger_seq)?;
        if self.voted_check(id, voter) {
            return Err(DaoError::AlreadyVoted);
        }
        if in_favour {
            let c = self.get_for(id);
            if c == u32::MAX {
                return Err(DaoError::Overflow);
            }
            self.votes_for.set(id, c + 1);
        } else {
            let c = self.get_against(id);
            if c == u32::MAX {
                return Err(DaoError::Overflow);
            }
            self.votes_against.set(id, c + 1);
        }
        self.voted.set((id, voter), true);
        proof {
            Self::lemma_wf_kept(&*old(self), &*self);
        }
        Ok(())
    }

    /// Vote for proposal `id`: once per voter, while it is pending and not
    /// expired.
    pub fn vote_for(&mut self, voter: Address, id: u64, voter_balance: Option<i128>, ledger_seq: u32) -> (r:
        Result<(), DaoError>)
        requires
            old(self).wf(),
        ensures
            final(self).wf(),
            match old(self).vote_error(voter, id, voter_balance, ledger_seq, true) {
                Some(e) => r == Err::<(), _>(e) && *final(self) == *old(self),
                None => r is Ok && final(self).vote_recorded(&*old(self), voter, id, true),
            },
    {
        self.vote(voter, id, voter_balance, ledger_seq, true)
    }

    /// Vote against proposal `id`: once per voter, while it is pending and
    /// not expired.
    pub fn vote_against(&mut self, voter: Address, id: u64, voter_balance: Option<i128>, ledger_seq: u32) -> (r:
        Result<(), DaoError>)
        requires
            old(self).wf(),
        ensures
            final(self).wf(),
            match old(self).vote_error(voter, id, voter_balance, ledger_seq, false) {
                Some(e) => r == Err::<(), _>(e) && *final(self) == *old(self),
                None => r is Ok && final(self).vote_recorded(&*old(self), voter, id, false),
            },
    {
        self.vote(voter, id, voter_balance, ledger_seq, false)
    }

    /// Minimum votes after executing `action`.
    pub open spec fn applied_min_votes(&self, action: ProposalAction) -> u32 {
        match action {
            ProposalAction::UpdateGovernanceConfig(m, _) => m,
            _ => self.spec_min_votes(),
        }
    }

    /// Voting period after executing `action`.
    pub open spec fn applied_duration(&self, action: ProposalAction) -> u32 {
        match action {
            ProposalAction::UpdateGovernanceConfig(_, d) => d,
            _ => self.spec_duration(),
        }
    }

    fn apply_action(&mut self, action: ProposalAction) -> (r: Result<(), DaoError>)
        requires
            old(self).wf(),
        ensures
            final(self).wf(),
            action is SetAttestationFeeEnabled && old(self).spec_fee_config() is None ==> r
                == Err::<(), _>(DaoError::FeeConfigNotSet) && *final(self) == *old(self),
            !(action is SetAttestationFeeEnabled && old(self).spec_fee_config() is None) ==> {
                &&& r is Ok
                &&& final(self).spec_fee_config() == old(self).applied_fee_config(action)
                &&& final(self).spec_min_votes() == old(self).applied_min_votes(action)
                &&& final(self).spec_duration() == old(self).applied_duration(action)
                &&& final(self).spec_admin() == old(self).spec_admin()
                &&& final(self).spec_token() == old(self).spec_token()
                &&& final(self).same_proposals(&*old(self))
                &&& final(self).same_votes(&*old(self))
            },
    {
        match action {
            ProposalAction::SetAttestationFeeConfig(t, c, f, e) => {
                self.fee_config = Some((t, c, f, e));
            },
            ProposalAction::SetAttestationFeeEnabled(e) => match self.fee_config {
                Some(cfg) => {
                    self.fee_config = Some((cfg.0, cfg.1, cfg.2, e));
                },
                None => {
                    return Err(DaoError::FeeConfigNotSet);
                },
            },
            ProposalAction::UpdateGovernanceConfig(m, d) => {
                self.min_votes = m;
                self.proposal_duration = d;
            },
        }
        proof {
            Self::lemma_wf_kept(&*old(self), &*self);
        }
        Ok(())
    }

    /// Execute proposal `id`: it must be pending and unexpired, have met
    /// quorum, and have more votes for than against.
    pub fn execute_proposal(&mut self, executor: Address, id: u64, ledger_seq: u32) -> (r: Result<
        (),
        DaoError,
    >)
        requires
            old(self).wf(),
        ensures
            final(self).wf(),
            match old(self).execute_error(id, ledger_seq) {
                Some(e) => r == Err::<(), _>(e) && *final(self) == *old(self),
                None => {
                    let p = old(self).proposal(id).unwrap();
                    &&& r is Ok
                    &&& final(self).proposal(id) == Some(
                        Proposal { status: ProposalStatus::Executed, ..p },
                    )
                    &&& forall|k: u64| k != id ==> #[trigger] final(self).proposal(k) == old(self).proposal(k)
                    &&& final(self).spec_next_id() == old(self).spec_next_id()
                    &&& final(self).spec_fee_config() == old(self).applied_fee_config(p.action)
                    &&& final(self).spec_min_votes() == old(self).applied_min_votes(p.action)
                    &&& final(self).spec_duration() == old(self).applied_duration(p.action)
                    &&& final(self).spec_admin() == old(self).spec_admin()
                    &&& final(self).spec_token() == old(self).spec_token()
                    &&& final(self).same_votes(&*old(self))
                },
            },
    {
        let p = self.check_open(id, ledger_seq)?;
        let f = self.get_for(id);
        let a = self.get_against(id);
        if f as u64 + a as u64 > 0xffff_ffffu64 {
            return Err(DaoError::Overflow);
        }
        if f + a < self.min_votes {
            return Err(DaoError::QuorumNotMet);
        }
        if f <= a {
            return Err(DaoError::NotApproved);
        }
        self.apply_action(p.action)?;
        let ghost mid = *self;
        self.proposals.set(id, Proposal { status: ProposalStatus::Executed, ..p });
        proof {
            assert forall|k: u64| #[trigger] self.proposal(k) is Some implies self.proposal(k).unwrap().id == k
                && k < self.spec_next_id() by {
                assert(mid.proposal(k) == old(self).proposal(k));
            }
            assert forall|k: u64| k != id implies #[trigger] self.proposal(k) == old(self).proposal(k) by {
                assert(mid.proposal(k) == old(self).proposal(k));
            }
            assert forall|k: u64| #[trigger] self.for_votes(k) == old(self).for_votes(k) by {
                assert(mid.for_votes(k) == old(self).for_votes(k));
            }
            assert forall|k: u64| #[trigger] self.against_votes(k) == old(self).against_votes(k) by {
                assert(mid.against_votes(k) == old(self).against_votes(k));
            }
            assert forall|k: u64, v: Address| #[trigger] self.has_voted(k, v) == old(self).has_voted(k, v) by {
                assert(mid.has_voted(k, v) == old(self).has_voted(k, v));
            }
        }
        Ok(())
    }

    /// Reject a pending proposal. Its creator or the admin only.
    pub fn cancel_proposal(&mut self, caller: Address, id: u64) -> (r: Result<(), DaoError>)
        requires
            old(self).wf(),
        ensures
            final(self).wf(),
            match old(self).cancel_error(caller, id) {
                Some(e) => r == Err::<(), _>(e) && *final(self) == *old(self),
                None => {
                    &&& r is Ok
                    &&& final(self).proposal(id) == Some(
                        Proposal { status: ProposalStatus::Rejected, ..old(self).proposal(id).unwrap() },
                    )
                    &&& forall|k: u64| k != id ==> #[trigger] final(self).proposal(k) == old(self).proposal(k)
                    &&& final(self).spec_next_id() == old(self).spec_next_id()
                    &&& final(self).same_config(&*old(self))
                    &&& final(self).same_votes(&*old(self))
                },
            },
    {
        let p = match self.proposals.get(&id) {
            Some(p) => *p,
            None => {
                return Err(DaoError::ProposalNotFound);
            },
        };
        if p.status != ProposalStatus::Pending {
            return Err(DaoError::NotPending);
        }
        if p.creator != caller {
            match self.admin {
                None => {
                    return Err(DaoError::NotInitialized);
                },
                Some(a) => if a != caller {
                    return Err(DaoError::NotCreatorOrAdmin);
                },
            }
        }
        self.proposals.set(id, Proposal { status: ProposalStatus::Rejected, ..p });
        proof {
            assert forall|k: u64| #[trigger] self.proposal(k) is Some implies self.proposal(k).unwrap().id == k
                && k < self.spec_next_id() by {
                assert(old(self).proposal(k) is Some);
            }
        }
        Ok(())
    }

    pub fn get_proposal(&self, id: u64) -> (r: Option<Proposal>)
        ensures
            r == self.proposal(id),
    {
        match self.proposals.get(&id) {
            Some(p) => Some(*p),
            None => None,
        }
    }

    pub fn get_votes_for(&self, id: u64) -> (r: u32)
        ensures
            r == self.for_votes(id),
    {
        self.get_for(id)
    }

    pub fn get_votes_against(&self, id: u64) -> (r: u32)
        ensures
            r == self.against_votes(id),
    {
        self.get_against(id)
    }

    /// Admin, governance token, minimum votes and voting period; refused
    /// before initialization.
    pub fn get_config(&self) -> (r: Result<(Address, Option<Address>, u32, u32), DaoError>)
        ensures
            match self.spec_admin() {
                None => r == Err::<(Address, Option<Address>, u32, u32), _>(DaoError::NotInitialized),
                Some(a) => r == Ok::<(Address, Option<Address>, u32, u32), DaoError>(
                    (a, self.spec_token(), self.spec_min_votes(), self.spec_duration()),
                ),
            },
    {
        match self.admin {
            None => Err(DaoError::NotInitialized),
            Some(a) => Ok((a, self.governance_token, self.min_votes, self.proposal_duration)),
        }
    }

    pub fn get_attestation_fee_config(&self) -> (r: Option<FeeConfigTuple>)
        ensures
            r == self.spec_fee_config(),
    {
        self.fee_config
    }
}

/// A voter votes at most once on a proposal: after a recorded vote every
/// further vote by the same voter on it is refused.
pub proof fn law_one_vote_per_voter(
    before: &ProtocolDao,
    after: &ProtocolDao,
    voter: Address,
    id: u64,
    in_favour: bool,
    balance: Option<i128>,
    ledger_seq: u32,
    again_in_favour: bool,
)
    requires
        after.vote_recorded(before, voter, id, in_favour),
    ensures
        after.vote_error(voter, id, balance, ledger_seq, again_in_favour) is Some,
{
    assert(after.has_voted(id, voter));
}

/// Executed, rejected and expired proposals are final: they can no longer
/// be voted on, executed or cancelled.
pub proof fn law_settled_proposal_is_final(
    c: &ProtocolDao,
    id: u64,
    who: Address,
    balance: Option<i128>,
    ledger_seq: u32,
    in_favour: bool,
)
    requires
        c.proposal(id) is Some,
        c.proposal(id).unwrap().status != ProposalStatus::Pending,
    ensures
        c.execute_error(id, ledger_seq) == Some(DaoError::NotPending),
        c.cancel_error(who, id) == Some(DaoError::NotPending),
        c.vote_error(who, id, balance, ledger_seq, in_favour) is Some,
{
}

/// A proposal executes only while open, with quorum reached and more
/// votes for than against.
pub proof fn law_execution_needs_quorum_and_majority(c: &ProtocolDao, id: u64, ledger_seq: u32)
    requires
        c.execute_error(id, ledger_seq) is None,
    ensures
        c.proposal(id) is Some,
        c.proposal(id).unwrap().status == ProposalStatus::Pending,
        ledger_seq <= c.deadline(c.proposal(id).unwrap()),
        c.for_votes(id) + c.against_votes(id) >= c.spec_min_votes(),
        c.for_votes(id) > c.against_votes(id),
{
}

/// A new proposal never replaces an existing one.
pub proof fn law_new_proposal_slot_is_free(c: &ProtocolDao)
    requires
        c.wf(),
    ensures
        c.proposal(c.spec_next_id()) is None,
{
    if c.proposal(c.spec_next_id()) is Some {
        assert(c.proposal(c.spec_next_id()).unwrap().id == c.spec_next_id());
    }
}

/// A pending proposal whose voting period has not ended executes once the
/// votes cast (for and against together) reach the quorum and more votes
/// are for it than against it, provided its action can be applied (a fee
/// toggle needs a stored fee configuration).
pub proof fn law_quorum_and_majority_suffice(c: &ProtocolDao, id: u64, ledger_seq: u32)
    requires
        c.proposal(id) matches Some(p) && p.status == ProposalStatus::Pending,
        c.proposal(id).unwrap().created_at + c.spec_duration() <= u32::MAX,
        ledger_seq <= c.proposal(id).unwrap().created_at + c.spec_duration(),
        c.for_votes(id) + c.against_votes(id) <= u32::MAX,
        c.for_votes(id) + c.against_votes(id) >= c.spec_min_votes(),
        c.for_votes(id) > c.against_votes(id),
        c.proposal(id).unwrap().action is SetAttestationFeeEnabled ==> c.spec_fee_config() is Some,
    ensures
        c.execute_error(id, ledger_seq) is None,
{
}

} // verus!

