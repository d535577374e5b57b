//! Append-only audit log of protocol actions.
//!
//! Records are numbered from 0 in append order. Two indexes list, for each
//! actor and for each source contract, the numbers of its records in order.
use vstd::prelude::*;
use crate::store::Store;
use crate::types::Address;

verus! {

/// One audit record.
#[derive(Debug, PartialEq, Eq)]
pub struct AuditRecord {
    /// Sequence number.
    pub seq: u64,
    /// Address that performed the action.
    pub actor: Address,
    /// Contract where the action originated.
    pub source_contract: Address,
    /// Action type.
    pub action: String,
    /// Optional payload or reference; empty if none.
    pub payload: String,
    /// Ledger sequence at append time.
    pub ledger_seq: u32,
}

impl AuditRecord {
    pub fn duplicate(&self) -> (r: Self)
        ensures
            r == *self,
    {
        AuditRecord {
            seq: self.seq,
            actor: self.actor,
            source_contract: self.source_contract,
            action: self.action.clone(),
            payload: self.payload.clone(),
            ledger_seq: self.ledger_seq,
        }
    }
}

/// Why an audit-log call was refused.
#[derive(Clone, Copy, Debug, PartialEq, Eq, Structural)]
pub enum AuditError {
    AlreadyInitialized,
    NotInitialized,
    SeqOverflow,
}

/// `l` is strictly increasing.
pub open spec fn strictly_increasing(l: Seq<u64>) -> bool {
    forall|i: int, j: int| 0 <= i < j < l.len() ==> l[i] < l[j]
}

/// Storage of the audit-log contract.
pub struct AuditLogContract {
    admin: Option<Address>,
    next_seq: u64,
    entries: Store<u64, AuditRecord>,
    actor_index: Store<u64, Vec<u64>>,
    contract_index: Store<u64, Vec<u64>>,
}

impl AuditLogContract {
    pub closed spec fn spec_admin(&self) -> Option<Address> {
        self.admin
    }

    pub closed spec fn spec_next_seq(&self) -> u64 {
        self.next_seq
    }

    pub closed spec fn spec_entries(&self) -> Map<u64, AuditRecord> {
        self.entries@
    }

    /// Sequence numbers listed for an actor.
    pub closed spec fn actor_seqs(&self, a: Address) -> Seq<u64> {
        if self.actor_index@.contains_key(a) {
            self.actor_index@[a]@
        } else {
            Seq::empty()
        }
    }

    /// Sequence numbers listed for a source contract.
    pub closed spec fn contract_seqs(&self, c: Address) -> Seq<u64> {
        if self.contract_index@.contains_key(c) {
            self.contract_index@[c]@
        } else {
            Seq::empty()
        }
    }

    /// The log's invariant: records are numbered `0..next_seq` with no gaps,
    /// each record carries its own number, and each index lists exactly the
    /// numbers of the records of its actor (resp. contract), in increasing
    /// order.
    pub open spec fn wf(&self) -> bool {
        &&& forall|k: u64| #[trigger] self.spec_entries().contains_key(k) <==> k < self.spec_next_seq()
        &&& forall|k: u64| #[trigger]
            self.spec_entries().contains_key(k) ==> self.spec_entries()[k].seq == k
        &&& self.spec_admin() is None ==> self.spec_next_seq() == 0
        &&& forall|a: Address| strictly_increasing(#[trigger] self.actor_seqs(a))
        &&& forall|a: Address, k: u64| #[trigger]
            self.actor_seqs(a).contains(k) <==> (self.spec_entries().contains_key(k)
                && self.spec_entries()[k].actor == a)
        &&& forall|c: Address| strictly_increasing(#[trigger] self.contract_seqs(c))
        &&& forall|c: Address, k: u64| #[trigger]
            self.contract_seqs(c).contains(k) <==> (self.spec_entries().contains_key(k)
                && self.spec_entries()[k].source_contract == c)
    }

    /// A contract with empty storage.
    pub fn new() -> (r: Self)
        ensures
            r.wf(),
            r.spec_admin() is None,
            r.spec_next_seq() == 0,
            r.spec_entries().is_empty(),
            forall|a: Address| r.actor_seqs(a).len() == 0,
            forall|c: Address| r.contract_seqs(c).len() == 0,
    {
        let r = AuditLogContract {
            admin: None,
            next_seq: 0,
            entries: Store::new(),
            actor_index: Store::new(),
            contract_index: Store::new(),
        };
        assert(forall|a: Address| r.actor_seqs(a) =~= Seq::<u64>::empty());
        assert(forall|c: Address| r.contract_seqs(c) =~= Seq::<u64>::empty());
        r
    }

    /// One-time setup of the admin.
    pub fn initialize(&mut self, admin: Address) -> (r: Result<(), AuditError>)
        requires
            old(self).wf(),
        ensures
            final(self).wf(),
            old(self).spec_admin() is Some ==> r == Err::<(), _>(AuditError::AlreadyInitialized)
                && *final(self) == *old(self),
            old(self).spec_admin() is None ==> r is Ok && final(self).spec_admin() == Some(admin)
                && final(self).spec_next_seq() == 0 && final(self).spec_entries() == old(self).spec_entries(),
    {
        if self.admin.is_some() {
            return Err(AuditError::AlreadyInitialized);
        }
        let ghost old_self = *self;
        self.admin = Some(admin);
        self.next_seq = 0;
        assert forall|k: u64| #[trigger]
            self.spec_entries().contains_key(k) <==> k < self.spec_next_seq() by {
            assert(old_self.spec_entries().contains_key(k) <==> k < old_self.spec_next_seq());
        }
        assert forall|a: Address| #[trigger] self.actor_seqs(a) == old_self.actor_seqs(a) by {}
        assert forall|c: Address| #[trigger] self.contract_seqs(c) == old_self.contract_seqs(c) by {}
        Ok(())
    }

    fn push_index(index: &mut Store<u64, Vec<u64>>, key: Address, seq: u64)
        ensures
            final(index)@.dom() == old(index)@.dom().insert(key),
            forall|k: u64| k != key && #[trigger] old(index)@.contains_key(k) ==> final(index)@[k]
                == old(index)@[k],
            final(index)@[key]@ == (if old(index)@.contains_key(key) {
                old(index)@[key]@
            } else {
                Seq::empty()
            }).push(seq),
    {
        let mut list: Vec<u64> = match index.get(&key) {
            Some(l) => crate::types::copy_vec(l),
            None => Vec::new(),
        };
        list.push(seq);
        index.set(key, list);
    }

    /// Append a record and return its sequence number. Admin only.
    pub fn append(
        &mut self,
        actor: Address,
        source_contract: Address,
        action: String,
        payload: String,
        ledger_seq: u32,
    ) -> (r: Result<u64, AuditError>)
        requires
            old(self).wf(),
        ensures
            final(self).wf(),
            match r {
                Err(e) => *final(self) == *old(self) && (if old(self).spec_admin() is None {
                    e == AuditError::NotInitialized
                } else {
                    e == AuditError::SeqOverflow && old(self).spec_next_seq() == u64::MAX
                }),
                Ok(seq) => {
                    &&& old(self).spec_admin() is Some
                    &&& seq == old(self).spec_next_seq()
                    &&& final(self).spec_next_seq() == seq + 1
                    &&& final(self).spec_admin() == old(self).spec_admin()
                    &&& final(self).spec_entries() == old(self).spec_entries().insert(
                        seq,
                        AuditRecord { seq, actor, source_contract, action, payload, ledger_seq },
                    )
                    &&& final(self).actor_seqs(actor) == old(self).actor_seqs(actor).push(seq)
                    &&& final(self).contract_seqs(source_contract) == old(self).contract_seqs(
                        source_contract,
                    ).push(seq)
                    &&& forall|a: Address| #[trigger]
                        final(self).actor_seqs(a) == if a == actor {
                            old(self).actor_seqs(a).push(seq)
                        } else {
                            old(self).actor_seqs(a)
                        }
                    &&& forall|c: Address| #[trigger]
                        final(self).contract_seqs(c) == if c == source_contract {
                            old(self).contract_seqs(c).push(seq)
                        } else {
                            old(self).contract_seqs(c)
                        }
                },
            },
    {
        if self.admin.is_none() {
            return Err(AuditError::NotInitialized);
        }
        let seq = self.next_seq;
        if seq == u64::MAX {
            return Err(AuditError::SeqOverflow);
        }
        let ghost old_self = *self;
        let record = AuditRecord { seq, actor, source_contract, action, payload, ledger_seq };
        self.entries.set(seq, record);
        self.next_seq = seq + 1;
        Self::push_index(&mut self.actor_index, actor, seq);
        Self::push_index(&mut self.contract_index, source_contract, seq);
        proof {
            assert forall|k: u64| #[trigger]
                self.spec_entries().contains_key(k) <==> k < self.spec_next_seq() by {
                if k != seq {
                    assert(old_self.spec_entries().contains_key(k) <==> k < seq);
                }
            }
            assert forall|k: u64| #[trigger]
                self.spec_entries().contains_key(k) implies self.spec_entries()[k].seq == k by {
                if k != seq {
                    assert(old_self.spec_entries().contains_key(k));
                }
            }
            assert forall|a: Address| strictly_increasing(#[trigger] self.actor_seqs(a)) by {
                if a == actor {
                    let l = old_self.actor_seqs(a);
                    assert forall|k: u64| l.contains(k) implies k < seq by {}
                    assert forall|i: int, j: int|
                        0 <= i < j < self.actor_seqs(a).len() implies self.actor_seqs(a)[i]
                        < self.actor_seqs(a)[j] by {
                        if j == l.len() {
                            assert(l.contains(l[i]));
                        }
                    }
                } else {
                    assert(self.actor_seqs(a) == old_self.actor_seqs(a));
                }
            }
            assert forall|a: Address, k: u64| #[trigger]
                self.actor_seqs(a).contains(k) <==> (self.spec_entries().contains_key(k)
                    && self.spec_entries()[k].actor == a) by {
                if a == actor {
                    if self.actor_seqs(a).contains(k) && k != seq {
                        let i = choose|i: int|
                            0 <= i < self.actor_seqs(a).len() && self.actor_seqs(a)[i] == k;
                        assert(old_self.actor_seqs(a)[i] == k);
                    }
                    if k == seq {
                        assert(self.actor_seqs(a)[self.actor_seqs(a).len() - 1] == k);
                    } else if old_self.actor_seqs(a).contains(k) {
                        let i = choose|i: int|
                            0 <= i < old_self.actor_seqs(a).len() && old_self.actor_seqs(a)[i]
                                == k;
                        assert(self.actor_seqs(a)[i] == k);
                    }
                } else {
                    assert(self.actor_seqs(a) == old_self.actor_seqs(a));
                }
            }
            assert forall|c: Address| strictly_increasing(#[trigger] self.contract_seqs(c)) by {
                if c == source_contract {
                    let l = old_self.contract_seqs(c);
                    assert forall|k: u64| l.contains(k) implies k < seq by {}
                    assert forall|i: int, j: int|
                        0 <= i < j < self.contract_seqs(c).len() implies self.contract_seqs(c)[i]
                        < self.contract_seqs(c)[j] by {
                        if j == l.len() {
                            assert(l.contains(l[i]));
                        }
                    }
                } else {
                    assert(self.contract_seqs(c) == old_self.contract_seqs(c));
                }
            }
            assert forall|c: Address, k: u64| #[trigger]
                self.contract_seqs(c).contains(k) <==> (self.spec_entries().contains_key(k)
                    && self.spec_entries()[k].source_contract == c) by {
                if c == source_contract {
                    if self.contract_seqs(c).contains(k) && k != seq {
                        let i = choose|i: int|
                            0 <= i < self.contract_seqs(c).len() && self.contract_seqs(c)[i] == k;
                        assert(old_self.contract_seqs(c)[i] == k);
                    }
                    if k == seq {
                        assert(self.contract_seqs(c)[self.contract_seqs(c).len() - 1] == k);
                    } else if old_self.contract_seqs(c).contains(k) {
                        let i = choose|i: int|
                            0 <= i < old_self.contract_seqs(c).len()
                                && old_self.contract_seqs(c)[i] == k;
                        assert(self.contract_seqs(c)[i] == k);
                    }
                } else {
                    assert(self.contract_seqs(c) == old_self.contract_seqs(c));
                }
            }
        }
        Ok(seq)
    }

    /// Number of records.
    pub fn get_log_count(&self) -> (r: u64)
        ensures
            r == self.spec_next_seq(),
    {
        self.next_seq
    }

    /// The record with this sequence number, if any.
    pub fn get_entry(&self, seq: u64) -> (r: Option<AuditRecord>)
        ensures
            r == if self.spec_entries().contains_key(seq) {
                Some(self.spec_entries()[seq])
            } else {
                None
            },
    {
        match self.entries.get(&seq) {
            Some(e) => Some(e.duplicate()),
            None => None,
        }
    }

    /// Sequence numbers of an actor's records, in order.
    pub fn get_seqs_by_actor(&self, actor: Address) -> (r: Vec<u64>)
        ensures
            r@ == self.actor_seqs(actor),
    {
        match self.actor_index.get(&actor) {
            Some(l) => crate::types::copy_vec(l),
            None => Vec::new(),
        }
    }

    /// Sequence numbers of a source contract's records, in order.
    pub fn get_seqs_by_contract(&self, source_contract: Address) -> (r: Vec<u64>)
        ensures
            r@ == self.contract_seqs(source_contract),
    {
        match self.contract_index.get(&source_contract) {
            Some(l) => crate::types::copy_vec(l),
            None => Vec::new(),
        }
    }

    /// The admin address.
    pub fn get_admin(&self) -> (r: Result<Address, AuditError>)
        ensures
            match self.spec_admin() {
                Some(a) => r == Ok::<Address, AuditError>(a),
                None => r == Err::<Address, _>(AuditError::NotInitialized),
            },
    {
        match self.admin {
            Some(a) => Ok(a),
            None => Err(AuditError::NotInitialized),
        }
    }
}

/// The actor index of a well-formed log lists exactly the numbers of that
/// actor's records, in increasing order; likewise the contract index.
pub proof fn law_indexes_match_records(log: &AuditLogContract, a: Address, k: u64)
    requires
        log.wf(),
    ensures
        strictly_increasing(log.actor_seqs(a)),
        log.actor_seqs(a).contains(k) <==> (log.spec_entries().contains_key(k)
            && log.spec_entries()[k].actor == a),
        strictly_increasing(log.contract_seqs(a)),
        log.contract_seqs(a).contains(k) <==> (log.spec_entries().contains_key(k)
            && log.spec_entries()[k].source_contract == a),
{
}

/// Appending never alters or removes an earlier record.
pub proof fn law_append_only(
    before: &AuditLogContract,
    after: &AuditLogContract,
    seq: u64,
    record: AuditRecord,
    k: u64,
)
    requires
        before.wf(),
        after.spec_entries() == before.spec_entries().insert(seq, record),
        seq == before.spec_next_seq(),
        before.spec_entries().contains_key(k),
    ensures
        after.spec_entries().contains_key(k),
        after.spec_entries()[k] == before.spec_entries()[k],
{
}

} // verus!
