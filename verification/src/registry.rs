//! Business registry: verified business identities and their lifecycle.
//!
//! ```text
//! register ──▶ [Pending] ──approve──▶ [Active] ──suspend──▶ [Suspended]
//!                                        ▲                      │
//!                                        └──────reactivate──────┘
//! ```
//!
//! Businesses register themselves (holding the BUSINESS role); admins
//! move them through the lifecycle. Only an `Active` business may submit
//! attestations.
use vstd::prelude::*;
use crate::access_control::{AccessControl, AccessError, ROLE_ADMIN, ROLE_BUSINESS};
use crate::store::Store;
use crate::types::{Address, Hash32, copy_strings};

verus! {

/// Storage slot of a business record.
#[derive(Clone, Copy, Debug, PartialEq, Eq, Structural)]
pub enum RegistryKey {
    Business(Address),
}

#[derive(Clone, Copy, Debug, PartialEq, Eq, Structural)]
pub enum BusinessStatus {
    /// Registered, awaiting approval.
    Pending,
    /// Approved; may submit attestations.
    Active,
    /// Temporarily barred; an admin may reactivate it.
    Suspended,
}

/// A registered business.
#[derive(Debug, PartialEq, Eq)]
pub struct BusinessRecord {
    pub name_hash: Hash32,
    pub jurisdiction: String,
    pub tags: Vec<String>,
    pub status: BusinessStatus,
    /// Timestamp of registration.
    pub registered_at: u64,
    /// Timestamp of the last status or tag change.
    pub updated_at: u64,
}

impl BusinessRecord {
    /// Same content as `other` (tags compared by their view).
    pub open spec fn same_as(&self, other: &Self) -> bool {
        &&& self.name_hash == other.name_hash
        &&& self.jurisdiction == other.jurisdiction
        &&& self.tags@ == other.tags@
        &&& self.status == other.status
        &&& self.registered_at == other.registered_at
        &&& self.updated_at == other.updated_at
    }

    pub fn duplicate(&self) -> (r: Self)
        ensures
            r.same_as(self),
    {
        BusinessRecord {
            name_hash: self.name_hash,
            jurisdiction: self.jurisdiction.clone(),
            tags: copy_strings(&self.tags),
            status: self.status,
            registered_at: self.registered_at,
            updated_at: self.updated_at,
        }
    }
}

/// Why a registry call was refused.
#[derive(Clone, Copy, Debug, PartialEq, Eq, Structural)]
pub enum BusinessRegistryError {
    Access(AccessError),
    AlreadyRegistered,
    NotRegistered,
    InvalidTransition,
}

/// Registry storage.
pub struct BusinessRegistry {
    records: Store<u64, BusinessRecord>,
}

impl BusinessRegistry {
    pub closed spec fn record(&self, b: Address) -> Option<BusinessRecord> {
        if self.records@.contains_key(b) {
            Some(self.records@[b])
        } else {
            None
        }
    }

    /// Whether a storage slot holds a value.
    pub open spec fn slot_set(&self, key: RegistryKey) -> bool {
        match key {
            RegistryKey::Business(b) => self.record(b) is Some,
        }
    }

    pub open spec fn status_of(&self, b: Address) -> Option<BusinessStatus> {
        match self.record(b) {
            Some(r) => Some(r.status),
            None => None,
        }
    }

    /// The error a status change from `from` meets, if any.
    pub open spec fn transition_error(
        &self,
        ac: &AccessControl,
        caller: Address,
        business: Address,
        from: BusinessStatus,
    ) -> Option<BusinessRegistryError> {
        if ac.roles_of(caller) & ROLE_ADMIN == 0 {
            Some(BusinessRegistryError::Access(AccessError::NotAdmin))
        } else if self.record(business) is None {
            Some(BusinessRegistryError::NotRegistered)
        } else if self.record(business).unwrap().status != from {
            Some(BusinessRegistryError::InvalidTransition)
        } else {
            None
        }
    }

    /// Every record but `b`'s is as in `old`.
    pub open spec fn only_changed(&self, old: &Self, b: Address) -> bool {
        forall|x: Address| x != b ==> #[trigger] self.record(x) == old.record(x)
    }

    /// No businesses.
    pub fn new() -> (r: Self)
        ensures
            forall|b: Address| r.record(b) is None,
    {
        BusinessRegistry { records: Store::new() }
    }

    /// Whether a storage slot holds a value.
    pub fn is_set(&self, key: RegistryKey) -> (r: bool)
        ensures
            r == self.slot_set(key),
    {
        match key {
            RegistryKey::Business(b) => self.records.has(&b),
        }
    }

    /// A business holding the BUSINESS role registers itself, `Pending`.
    pub fn register_business(
        &mut self,
        ac: &AccessControl,
        business: Address,
        name_hash: Hash32,
        jurisdiction: String,
        tags: Vec<String>,
        now: u64,
    ) -> (r: Result<(), BusinessRegistryError>)
        ensures
            ac.roles_of(business) & ROLE_BUSINESS == 0 ==> r == Err::<(), _>(
                BusinessRegistryError::Access(AccessError::NotBusiness),
            ),
            ac.roles_of(business) & ROLE_BUSINESS != 0 && old(self).record(business) is Some ==> r
                == Err::<(), _>(BusinessRegistryError::AlreadyRegistered),
            r is Err ==> *final(self) == *old(self),
            ac.roles_of(business) & ROLE_BUSINESS != 0 && old(self).record(business) is None ==> {
                &&& r is Ok
                &&& final(self).record(business) == Some(
                    BusinessRecord {
                        name_hash,
                        jurisdiction,
                        tags,
                        status: BusinessStatus::Pending,
                        registered_at: now,
                        updated_at: now,
                    },
                )
                &&& final(self).only_changed(&*old(self), business)
            },
    {
        match ac.require_business(business) {
            Err(e) => {
                return Err(BusinessRegistryError::Access(e));
            },
            Ok(()) => {},
        }
        if self.records.has(&business) {
            return Err(BusinessRegistryError::AlreadyRegistered);
        }
        let record = BusinessRecord {
            name_hash,
            jurisdiction,
            tags,
            status: BusinessStatus::Pending,
            registered_at: now,
            updated_at: now,
        };
        self.records.set(business, record);
        Ok(())
    }

    fn change_status(
        &mut self,
        ac: &AccessControl,
        caller: Address,
        business: Address,
        from: BusinessStatus,
        to: BusinessStatus,
        now: u64,
    ) -> (r: Result<(), BusinessRegistryError>)
        ensures
            match old(self).transition_error(ac, caller, business, from) {
                Some(e) => r == Err::<(), _>(e) && *final(self) == *old(self),
                None => {
                    &&& r is Ok
                    &&& final(self).record(business) == Some(
                        BusinessRecord { status: to, updated_at: now, ..old(self).record(business).unwrap() },
                    )
                    &&& final(self).only_changed(&*old(self), business)
                },
            },
    {
        match ac.require_admin(caller) {
            Err(e) => {
                return Err(BusinessRegistryError::Access(e));
            },
            Ok(()) => {},
        }
        match self.records.get(&business) {
            Some(rec) => {
                if rec.status != from {
                    return Err(BusinessRegistryError::InvalidTransition);
                }
            },
            None => {
                return Err(BusinessRegistryError::NotRegistered);
            },
        }
        match self.records.take(&business) {
            Some(current) => {
                self.records.set(business, BusinessRecord { status: to, updated_at: now, ..current });
            },
            None => {},
        }
        Ok(())
    }

    /// Approve a `Pending` business. Admin only.
    pub fn approve_business(&mut self, ac: &AccessControl, caller: Address, business: Address, now: u64) -> (r:
        Result<(), BusinessRegistryError>)
        ensures
            match old(self).transition_error(ac, caller, business, BusinessStatus::Pending) {
                Some(e) => r == Err::<(), _>(e) && *final(self) == *old(self),
                None => {
                    &&& r is Ok
                    &&& final(self).record(business) == Some(
                        BusinessRecord {
                            status: BusinessStatus::Active,
                            updated_at: now,
                            ..old(self).record(business).unwrap()
                        },
                    )
                    &&& final(self).only_changed(&*old(self), business)
                },
            },
    {
        self.change_status(ac, caller, business, BusinessStatus::Pending, BusinessStatus::Active, now)
    }

    /// Suspend an `Active` business. Admin only.
    pub fn suspend_business(&mut self, ac: &AccessControl, caller: Address, business: Address, now: u64) -> (r:
        Result<(), BusinessRegistryError>)
        ensures
            match old(self).transition_error(ac, caller, business, BusinessStatus::Active) {
                Some(e) => r == Err::<(), _>(e) && *final(self) == *old(self),
                None => {
                    &&& r is Ok
                    &&& final(self).record(business) == Some(
                        BusinessRecord {
                            status: BusinessStatus::Suspended,
                            updated_at: now,
                            ..old(self).record(business).unwrap()
                        },
                    )
                    &&& final(self).only_changed(&*old(self), business)
                },
            },
    {
        self.change_status(ac, caller, business, BusinessStatus::Active, BusinessStatus::Suspended, now)
    }

    /// Reactivate a `Suspended` business. Admin only.
    pub fn reactivate_business(&mut self, ac: &AccessControl, caller: Address, business: Address, now: u64) -> (r:
        Result<(), BusinessRegistryError>)
        ensures
            match old(self).transition_error(ac, caller, business, BusinessStatus::Suspended) {
                Some(e) => r == Err::<(), _>(e) && *final(self) == *old(self),
                None => {
                    &&& r is Ok
                    &&& final(self).record(business) == Some(
                        BusinessRecord {
                            status: BusinessStatus::Active,
                            updated_at: now,
                            ..old(self).record(business).unwrap()
                        },
                    )
                    &&& final(self).only_changed(&*old(self), business)
                },
            },
    {
        self.change_status(ac, caller, business, BusinessStatus::Suspended, BusinessStatus::Active, now)
    }

    /// Replace the tags of a registered business, in any state. Admin only.
    pub fn update_tags(
        &mut self,
        ac: &AccessControl,
        caller: Address,
        business: Address,
        tags: Vec<String>,
        now: u64,
    ) -> (r: Result<(), BusinessRegistryError>)
        ensures
            ac.roles_of(caller) & ROLE_ADMIN == 0 ==> r == Err::<(), _>(
                BusinessRegistryError::Access(AccessError::NotAdmin),
            ),
            ac.roles_of(caller) & ROLE_ADMIN != 0 && old(self).record(business) is None ==> r
                == Err::<(), _>(BusinessRegistryError::NotRegistered),
            r is Err ==> *final(self) == *old(self),
            ac.roles_of(caller) & ROLE_ADMIN != 0 && old(self).record(business) is Some ==> {
                &&& r is Ok
                &&& final(self).record(business) == Some(
                    BusinessRecord { tags, updated_at: now, ..old(self).record(business).unwrap() },
                )
                &&& final(self).only_changed(&*old(self), business)
            },
    {
        match ac.require_admin(caller) {
            Err(e) => {
                return Err(BusinessRegistryError::Access(e));
            },
            Ok(()) => {},
        }
        if !self.records.has(&business) {
            return Err(BusinessRegistryError::NotRegistered);
        }
        match self.records.take(&business) {
            Some(current) => {
                self.records.set(business, BusinessRecord { tags, updated_at: now, ..current });
            },
            None => {},
        }
        Ok(())
    }

    /// Whether `business` is registered and `Active`, as attestation
    /// submission requires.
    pub fn is_active(&self, business: Address) -> (r: bool)
        ensures
            r == (self.status_of(business) == Some(BusinessStatus::Active)),
    {
        match self.records.get(&business) {
            Some(rec) => rec.status == BusinessStatus::Active,
            None => false,
        }
    }

    pub fn get_business(&self, business: Address) -> (r: Option<BusinessRecord>)
        ensures
            match r {
                Some(x) => self.record(business) is Some && x.same_as(&self.record(business).unwrap()),
                None => self.record(business) is None,
            },
    {
        match self.records.get(&business) {
            Some(rec) => Some(rec.duplicate()),
            None => None,
        }
    }

    pub fn get_status(&self, business: Address) -> (r: Option<BusinessStatus>)
        ensures
            r == self.status_of(business),
    {
        match self.records.get(&business) {
            Some(rec) => Some(rec.status),
            None => None,
        }
    }
}

/// A business can submit attestations only after an admin approved it:
/// newly registered businesses are not active, and approval makes them so.
pub proof fn law_active_only_after_approval(
    registered: &BusinessRegistry,
    approved: &BusinessRegistry,
    b: Address,
    now: u64,
)
    requires
        registered.status_of(b) == Some(BusinessStatus::Pending),
        approved.record(b) == Some(
            BusinessRecord { status: BusinessStatus::Active, updated_at: now, ..registered.record(b).unwrap() },
        ),
    ensures
        registered.status_of(b) != Some(BusinessStatus::Active),
        approved.status_of(b) == Some(BusinessStatus::Active),
{
}

/// Each lifecycle step starts from exactly one status: a business not in
/// that status is refused (given an admin caller and a registered
/// business).
pub proof fn law_transitions_need_their_source_status(
    reg: &BusinessRegistry,
    ac: &AccessControl,
    caller: Address,
    b: Address,
    from: BusinessStatus,
)
    requires
        ac.roles_of(caller) & ROLE_ADMIN != 0,
        reg.record(b) is Some,
        reg.record(b).unwrap().status != from,
    ensures
        reg.transition_error(ac, caller, b, from) == Some(BusinessRegistryError::InvalidTransition),
{
}

} // verus!
