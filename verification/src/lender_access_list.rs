//! Lender access list: governance assigns lenders an access tier; tier 0
//! means removed. Other contracts ask whether a lender holds at least a
//! given tier.
use vstd::prelude::*;
use crate::store::Store;
use crate::types::{Address, contains_address, copy_vec};

verus! {

#[derive(Clone, Copy, Debug, PartialEq, Eq, Structural)]
pub enum LenderStatus {
    Active,
    Removed,
}

/// Descriptive data of a lender.
#[derive(Debug, PartialEq, Eq)]
pub struct LenderMetadata {
    pub name: String,
    pub url: String,
    pub notes: String,
}

impl LenderMetadata {
    pub fn duplicate(&self) -> (r: Self)
        ensures
            r == *self,
    {
        LenderMetadata { name: self.name.clone(), url: self.url.clone(), notes: self.notes.clone() }
    }
}

/// A lender record.
#[derive(Debug, PartialEq, Eq)]
pub struct Lender {
    pub address: Address,
    /// Access tier; 0 means no access.
    pub tier: u32,
    pub status: LenderStatus,
    pub metadata: LenderMetadata,
    /// Ledger of the first listing.
    pub added_at: u32,
    /// Ledger of the last change.
    pub updated_at: u32,
    pub updated_by: Address,
}

impl Lender {
    pub fn duplicate(&self) -> (r: Self)
        ensures
            r == *self,
    {
        Lender {
            address: self.address,
            tier: self.tier,
            status: self.status,
            metadata: self.metadata.duplicate(),
            added_at: self.added_at,
            updated_at: self.updated_at,
            updated_by: self.updated_by,
        }
    }
}

/// Why an access-list call was refused.
#[derive(Clone, Copy, Debug, PartialEq, Eq, Structural)]
pub enum LenderError {
    AlreadyInitialized,
    NotInitialized,
    NotAdmin,
    NotGovernance,
    LenderNotFound,
}

/// The status that goes with a tier: 0 is removed, anything else active.
pub open spec fn status_for(tier: u32) -> LenderStatus {
    if tier == 0 {
        LenderStatus::Removed
    } else {
        LenderStatus::Active
    }
}

/// Access-list storage.
pub struct LenderAccessListContract {
    admin: Option<Address>,
    governance: Store<u64, bool>,
    lenders: Store<u64, Lender>,
    lender_list: Vec<Address>,
}

impl LenderAccessListContract {
    pub closed spec fn spec_admin(&self) -> Option<Address> {
        self.admin
    }

    pub closed spec fn is_governance(&self, a: Address) -> bool {
        self.governance@.contains_key(a) && self.governance@[a]
    }

    pub closed spec fn lender(&self, a: Address) -> Option<Lender> {
        if self.lenders@.contains_key(a) {
            Some(self.lenders@[a])
        } else {
            None
        }
    }

    /// Listed lenders in first-listing order.
    pub closed spec fn spec_list(&self) -> Seq<Address> {
        self.lender_list@
    }

    /// Whether `a` may act as a lender of at least tier `min_tier`.
    pub open spec fn allowed(&self, a: Address, min_tier: u32) -> bool {
        min_tier == 0 || match self.lender(a) {
            Some(l) => l.status == LenderStatus::Active && l.tier >= min_tier,
            None => false,
        }
    }

    /// Whether `a` is an active lender with a positive tier.
    pub open spec fn active(&self, a: Address) -> bool {
        match self.lender(a) {
            Some(l) => l.status == LenderStatus::Active && l.tier > 0,
            None => false,
        }
    }

    /// Invariant: the list names each recorded lender once; each record
    /// carries its own address, and its status goes with its tier.
    pub open spec fn wf(&self) -> bool {
        &&& self.spec_list().no_duplicates()
        &&& forall|a: Address| #[trigger] self.lender(a) is Some <==> self.spec_list().contains(a)
        &&& forall|a: Address| #[trigger]
            self.lender(a) is Some ==> self.lender(a).unwrap().address == a
                && self.lender(a).unwrap().status == status_for(self.lender(a).unwrap().tier)
    }

    pub open spec fn admin_error(&self, caller: Address) -> Option<LenderError> {
        match self.spec_admin() {
            None => Some(LenderError::NotInitialized),
            Some(a) => if a != caller {
                Some(LenderError::NotAdmin)
            } else {
                None
            },
        }
    }

    /// Everything but the record of `a` (and the list) is as in `old`.
    pub open spec fn only_lender_changed(&self, old: &Self, a: Address) -> bool {
        &&& self.spec_admin() == old.spec_admin()
        &&& forall|x: Address| #[trigger] self.is_governance(x) == old.is_governance(x)
        &&& forall|x: Address| x != a ==> #[trigger] self.lender(x) == old.lender(x)
    }

    /// Empty list.
    pub fn new() -> (r: Self)
        ensures
            r.wf(),
            r.spec_admin() is None,
            forall|a: Address| !r.is_governance(a),
            forall|a: Address| r.lender(a) is None,
            r.spec_list().len() == 0,
    {
        LenderAccessListContract {
            admin: None,
            governance: Store::new(),
            lenders: Store::new(),
            lender_list: Vec::new(),
        }
    }

    proof fn lemma_wf_kept(old: &Self, new: &Self)
        requires
            old.wf(),
            new.spec_list() == old.spec_list(),
            forall|a: Address| #[trigger] new.lender(a) == old.lender(a),
        ensures
            new.wf(),
    {
        assert forall|a: Address| #[trigger] new.lender(a) is Some <==> new.spec_list().contains(a) by {
            assert(new.lender(a) == old.lender(a));
        }
        assert forall|a: Address| #[trigger] new.lender(a) is Some implies new.lender(a).unwrap().address == a
            && new.lender(a).unwrap().status == status_for(new.lender(a).unwrap().tier) by {
            assert(new.lender(a) == old.lender(a));
        }
    }

    /// Set the admin once and give it the governance role.
    pub fn initialize(&mut self, admin: Address) -> (r: Result<(), LenderError>)
        requires
            old(self).wf(),
        ensures
            final(self).wf(),
            old(self).spec_admin() is Some ==> r == Err::<(), _>(LenderError::AlreadyInitialized)
                && *final(self) == *old(self),
            old(self).spec_admin() is None ==> {
                &&& r is Ok
                &&& final(self).spec_admin() == Some(admin)
                &&& forall|a: Address| #[trigger]
                    final(self).is_governance(a) == (a == admin || old(self).is_governance(a))
                &&& final(self).spec_list() == old(self).spec_list()
                &&& forall|a: Address| #[trigger] final(self).lender(a) == old(self).lender(a)
            },
    {
        if self.admin.is_some() {
            return Err(LenderError::AlreadyInitialized);
        }
        self.admin = Some(admin);
        self.governance.set(admin, true);
        proof {
            Self::lemma_wf_kept(&*old(self), &*self);
        }
        Ok(())
    }

    fn check_admin(&self, caller: Address) -> (r: Result<(), LenderError>)
        ensures
            match self.admin_error(caller) {
                Some(e) => r == Err::<(), _>(e),
                None => r is Ok,
            },
    {
        match self.admin {
            None => Err(LenderError::NotInitialized),
            Some(a) => if a != caller {
                Err(LenderError::NotAdmin)
            } else {
                Ok(())
            },
        }
    }

    fn set_governance(&mut self, admin: Address, account: Address, granted: bool) -> (r: Result<
        (),
        LenderError,
    >)
        requires
            old(self).wf(),
        ensures
            final(self).wf(),
            match old(self).admin_error(admin) {
                Some(e) => r == Err::<(), _>(e) && *final(self) == *old(self),
                None => {
                    &&& r is Ok
                    &&& forall|a: Address| #[trigger]
                        final(self).is_governance(a) == if a == account {
                            granted
                        } else {
                            old(self).is_governance(a)
                        }
                    &&& final(self).spec_admin() == old(self).spec_admin()
                    &&& final(self).spec_list() == old(self).spec_list()
                    &&& forall|a: Address| #[trigger] final(self).lender(a) == old(self).lender(a)
                },
            },
    {
        self.check_admin(admin)?;
        self.governance.set(account, granted);
        proof {
            Self::lemma_wf_kept(&*old(self), &*self);
        }
        Ok(())
    }

    /// Give `account` the governance role. Admin only.
    pub fn grant_governance(&mut self, admin: Address, account: Address) -> (r: Result<(), LenderError>)
        requires
            old(self).wf(),
        ensures
            final(self).wf(),
            match old(self).admin_error(admin) {
                Some(e) => r == Err::<(), _>(e) && *final(self) == *old(self),
                None => {
                    &&& r is Ok
                    &&& forall|a: Address| #[trigger]
                        final(self).is_governance(a) == (a == account || old(self).is_governance(a))
                    &&& final(self).spec_admin() == old(self).spec_admin()
                    &&& final(self).spec_list() == old(self).spec_list()
                    &&& forall|a: Address| #[trigger] final(self).lender(a) == old(self).lender(a)
                },
            },
    {
        self.set_governance(admin, account, true)
    }

    /// Take the governance role from `account`. Admin only.
    pub fn revoke_governance(&mut self, admin: Address, account: Address) -> (r: Result<(), LenderError>)
        requires
            old(self).wf(),
        ensures
            final(self).wf(),
            match old(self).admin_error(admin) {
                Some(e) => r == Err::<(), _>(e) && *final(self) == *old(self),
                None => {
                    &&& r is Ok
                    &&& forall|a: Address| #[trigger]
                        final(self).is_governance(a) == (a != account && old(self).is_governance(a))
                    &&& final(self).spec_admin() == old(self).spec_admin()
                    &&& final(self).spec_list() == old(self).spec_list()
                    &&& forall|a: Address| #[trigger] final(self).lender(a) == old(self).lender(a)
                },
            },
    {
        self.set_governance(admin, account, false)
    }

    /// Whether `account` holds the governance role.
    pub fn has_governance(&self, account: Address) -> (r: bool)
        ensures
            r == self.is_governance(account),
    {
        match self.governance.get(&account) {
            Some(b) => *b,
            None => false,
        }
    }

    /// The admin; refused before initialization.
    pub fn get_admin(&self) -> (r: Result<Address, LenderError>)
        ensures
            match self.spec_admin() {
                Some(a) => r == Ok::<Address, LenderError>(a),
                None => r == Err::<Address, _>(LenderError::NotInitialized),
            },
    {
        match self.admin {
            Some(a) => Ok(a),
            None => Err(LenderError::NotInitialized),
        }
    }

    /// The record `set_lender` writes.
    pub open spec fn set_record(
        &self,
        caller: Address,
        lender: Address,
        tier: u32,
        metadata: LenderMetadata,
        ledger_seq: u32,
    ) -> Lender {
        Lender {
            address: lender,
            tier,
            status: status_for(tier),
            metadata,
            added_at: match self.lender(lender) {
                Some(l) => l.added_at,
                None => ledger_seq,
            },
            updated_at: ledger_seq,
            updated_by: caller,
        }
    }

    /// List or update a lender at `tier` (0 removes its access). Governance
    /// only.
    pub fn set_lender(
        &mut self,
        caller: Address,
        lender: Address,
        tier: u32,
        metadata: LenderMetadata,
        ledger_seq: u32,
    ) -> (r: Result<(), LenderError>)
        requires
            old(self).wf(),
        ensures
            final(self).wf(),
            !old(self).is_governance(caller) ==> r == Err::<(), _>(LenderError::NotGovernance)
                && *final(self) == *old(self),
            old(self).is_governance(caller) ==> {
                &&& r is Ok
                &&& final(self).lender(lender) == Some(
                    old(self).set_record(caller, lender, tier, metadata, ledger_seq),
                )
                &&& final(self).spec_list() == if old(self).lender(lender) is Some {
                    old(self).spec_list()
                } else {
                    old(self).spec_list().push(lender)
                }
                &&& final(self).only_lender_changed(&*old(self), lender)
            },
    {
        if !self.has_governance(caller) {
            return Err(LenderError::NotGovernance);
        }
        let status = if tier == 0 {
            LenderStatus::Removed
        } else {
            LenderStatus::Active
        };
        let added_at = match self.lenders.get(&lender) {
            Some(existing) => existing.added_at,
            None => {
                self.append_lender_to_list(lender);
                ledger_seq
            },
        };
        let ghost mid = *self;
        let record = Lender {
            address: lender,
            tier,
            status,
            metadata,
            added_at,
            updated_at: ledger_seq,
            updated_by: caller,
        };
        self.lenders.set(lender, record);
        proof {
            assert forall|x: Address| #[trigger] self.is_governance(x) == old(self).is_governance(x) by {
                assert(mid.is_governance(x) == old(self).is_governance(x));
            }
            assert forall|x: Address| x != lender implies #[trigger] self.lender(x) == old(self).lender(x) by {
                assert(mid.lender(x) == old(self).lender(x));
            }
            let l = self.spec_list();
            assert forall|a: Address| #[trigger] self.lender(a) is Some <==> l.contains(a) by {
                if a != lender {
                    assert(mid.lender(a) == old(self).lender(a));
                    assert(self.lender(a) == old(self).lender(a));
                    if old(self).lender(lender) is None {
                        assert(old(self).spec_list().contains(a) ==> l.contains(a)) by {
                            if old(self).spec_list().contains(a) {
                                let k = choose|k: int| 0 <= k < old(self).spec_list().len() && old(self).spec_list()[k] == a;
                                assert(l[k] == a);
                            }
                        }
                        assert(l.contains(a) ==> old(self).spec_list().contains(a)) by {
                            if l.contains(a) {
                                let k = choose|k: int| 0 <= k < l.len() && l[k] == a;
                                assert(k < old(self).spec_list().len());
                                assert(old(self).spec_list()[k] == a);
                            }
                        }
                    }
                } else {
                    if old(self).lender(lender) is None {
                        assert(l[l.len() - 1] == lender);
                    }
                }
            }
            assert forall|a: Address| #[trigger] self.lender(a) is Some implies self.lender(a).unwrap().address
                == a && self.lender(a).unwrap().status == status_for(self.lender(a).unwrap().tier) by {
                if a != lender {
                    assert(mid.lender(a) == old(self).lender(a));
                    assert(self.lender(a) == old(self).lender(a));
                }
            }
        }
        Ok(())
    }

    /// Append a lender that is not yet listed.
    fn append_lender_to_list(&mut self, lender: Address)
        requires
            old(self).wf(),
            old(self).lender(lender) is None,
        ensures
            final(self).spec_list() == old(self).spec_list().push(lender),
            final(self).spec_list().no_duplicates(),
            final(self).spec_admin() == old(self).spec_admin(),
            forall|x: Address| #[trigger] final(self).is_governance(x) == old(self).is_governance(x),
            forall|x: Address| #[trigger] final(self).lender(x) == old(self).lender(x),
    {
        proof {
            let l = old(self).spec_list();
            assert(!l.contains(lender));
            let t = l.push(lender);
            assert forall|i: int, j: int| 0 <= i < t.len() && 0 <= j < t.len() && i != j implies t[i] != t[j] by {
                if i == l.len() {
                    assert(t[j] == l[j]);
                } else if j == l.len() {
                    assert(t[i] == l[i]);
                } else {
                    assert(t[i] == l[i] && t[j] == l[j]);
                }
            }
        }
        self.lender_list.push(lender);
    }

    /// Remove a listed lender's access: tier 0, status `Removed`. Governance
    /// only.
    pub fn remove_lender(&mut self, caller: Address, lender: Address, ledger_seq: u32) -> (r: Result<
        (),
        LenderError,
    >)
        requires
            old(self).wf(),
        ensures
            final(self).wf(),
            !old(self).is_governance(caller) ==> r == Err::<(), _>(LenderError::NotGovernance),
            old(self).is_governance(caller) && old(self).lender(lender) is None ==> r == Err::<(), _>(
                LenderError::LenderNotFound,
            ),
            r is Err ==> *final(self) == *old(self),
            old(self).is_governance(caller) && old(self).lender(lender) is Some ==> {
                &&& r is Ok
                &&& final(self).lender(lender) == Some(
                    Lender {
                        tier: 0,
                        status: LenderStatus::Removed,
                        updated_at: ledger_seq,
                        updated_by: caller,
                        ..old(self).lender(lender).unwrap()
                    },
                )
                &&& final(self).spec_list() == old(self).spec_list()
                &&& final(self).only_lender_changed(&*old(self), lender)
            },
    {
        if !self.has_governance(caller) {
            return Err(LenderError::NotGovernance);
        }
        let current = match self.lenders.get(&lender) {
            Some(l) => l.duplicate(),
            None => {
                return Err(LenderError::LenderNotFound);
            },
        };
        let record = Lender {
            tier: 0,
            status: LenderStatus::Removed,
            updated_at: ledger_seq,
            updated_by: caller,
            ..current
        };
        self.lenders.set(lender, record);
        proof {
            assert forall|a: Address| #[trigger] self.lender(a) is Some <==> self.spec_list().contains(a) by {
                if a != lender {
                    assert(self.lender(a) == old(self).lender(a));
                }
            }
            assert forall|a: Address| #[trigger] self.lender(a) is Some implies self.lender(a).unwrap().address
                == a && self.lender(a).unwrap().status == status_for(self.lender(a).unwrap().tier) by {
                if a != lender {
                    assert(self.lender(a) == old(self).lender(a));
                }
            }
        }
        Ok(())
    }

    pub fn get_lender(&self, lender: Address) -> (r: Option<Lender>)
        ensures
            r == self.lender(lender),
    {
        match self.lenders.get(&lender) {
            Some(l) => Some(l.duplicate()),
            None => None,
        }
    }

    /// Whether `lender` holds at least tier `min_tier`; tier 0 admits
    /// anyone.
    pub fn is_allowed(&self, lender: Address, min_tier: u32) -> (r: bool)
        ensures
            r == self.allowed(lender, min_tier),
    {
        if min_tier == 0 {
            return true;
        }
        match self.lenders.get(&lender) {
            Some(l) => l.status == LenderStatus::Active && l.tier >= min_tier,
            None => false,
        }
    }

    /// Every lender ever listed, in first-listing order.
    pub fn get_all_lenders(&self) -> (r: Vec<Address>)
        ensures
            r@ == self.spec_list(),
    {
        copy_vec(&self.lender_list)
    }

    /// Listed lenders that are active with a positive tier, in listing
    /// order.
    pub fn get_active_lenders(&self) -> (r: Vec<Address>)
        ensures
            r@ == self.spec_list().filter(|a: Address| self.active(a)),
    {
        let ghost pred = |a: Address| self.active(a);
        let mut out: Vec<Address> = Vec::new();
        let mut i: usize = 0;
        while i < self.lender_list.len()
            invariant
                i <= self.spec_list().len(),
                pred == (|a: Address| self.active(a)),
                out@ == self.spec_list().subrange(0, i as int).filter(pred),
            decreases self.spec_list().len() - i,
        {
            let a = self.lender_list[i];
            let hit = match self.lenders.get(&a) {
                Some(l) => l.status == LenderStatus::Active && l.tier > 0,
                None => false,
            };
            proof {
                let l = self.spec_list();
                assert(l.subrange(0, i + 1) =~= l.subrange(0, i as int).push(l[i as int]));
                l.subrange(0, i as int).lemma_filter_push(l[i as int], pred);
            }
            if hit {
                out.push(a);
            }
            i = i + 1;
        }
        assert(self.spec_list().subrange(0, self.spec_list().len() as int) =~= self.spec_list());
        out
    }
}

/// A lender whose access was removed is refused for every positive tier.
pub proof fn law_removed_lender_has_no_access(c: &LenderAccessListContract, a: Address, min_tier: u32)
    requires
        c.lender(a) is Some,
        c.lender(a).unwrap().status == LenderStatus::Removed,
        min_tier > 0,
    ensures
        !c.allowed(a, min_tier),
{
}

/// Access to a tier implies access to every lower tier.
pub proof fn law_access_is_monotone_in_tier(
    c: &LenderAccessListContract,
    a: Address,
    lower: u32,
    higher: u32,
)
    requires
        lower <= higher,
        c.allowed(a, higher),
    ensures
        c.allowed(a, lower),
{
}

/// In a well-formed list, a lender is active exactly when its tier is
/// positive, so the active lenders are those allowed at tier 1.
pub proof fn law_active_means_positive_tier(c: &LenderAccessListContract, a: Address)
    requires
        c.wf(),
    ensures
        c.active(a) <==> c.allowed(a, 1),
        c.lender(a) is Some ==> (c.lender(a).unwrap().status == LenderStatus::Active
            <==> c.lender(a).unwrap().tier > 0),
{
}

} // verus!
