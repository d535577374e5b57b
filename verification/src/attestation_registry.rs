//! Registry of the active attestation implementation.
//!
//! The registry points at the current implementation and version and keeps
//! the previous pair for rollback. Versions must strictly increase on
//! upgrade; a rollback swaps current and previous.
use vstd::prelude::*;
use crate::types::Address;

verus! {

/// Version metadata of the current implementation.
#[derive(Debug, PartialEq, Eq)]
pub struct VersionInfo {
    pub version: u32,
    pub implementation: Address,
    /// Migration data is not stored; always `None` when queried.
    pub migration_data: Option<Vec<u8>>,
    /// Ledger timestamp at query time.
    pub activated_at: u64,
}

/// Why a registry call was refused.
#[derive(Clone, Copy, Debug, PartialEq, Eq, Structural)]
pub enum RegistryError {
    AlreadyInitialized,
    NotInitialized,
    VersionNotIncreasing,
    NoPreviousImplementation,
}

/// Storage of the registry contract.
pub struct AttestationRegistry {
    admin: Option<Address>,
    current_implementation: Option<Address>,
    previous_implementation: Option<Address>,
    current_version: Option<u32>,
    previous_version: Option<u32>,
    initialized: bool,
}

impl AttestationRegistry {
    pub closed spec fn spec_admin(&self) -> Option<Address> {
        self.admin
    }

    pub closed spec fn spec_current(&self) -> Option<(Address, u32)> {
        match (self.current_implementation, self.current_version) {
            (Some(i), Some(v)) => Some((i, v)),
            _ => None,
        }
    }

    pub closed spec fn spec_previous(&self) -> Option<(Address, u32)> {
        match (self.previous_implementation, self.previous_version) {
            (Some(i), Some(v)) => Some((i, v)),
            _ => None,
        }
    }

    pub closed spec fn spec_initialized(&self) -> bool {
        self.initialized
    }

    /// Invariant: an initialized registry has an admin and a current pair;
    /// previous implementation and version are stored together.
    pub closed spec fn wf(&self) -> bool {
        &&& self.initialized <==> self.admin is Some
        &&& self.initialized <==> self.current_implementation is Some
        &&& self.initialized <==> self.current_version is Some
        &&& self.previous_implementation is Some <==> self.previous_version is Some
        &&& !self.initialized ==> self.previous_implementation is None
    }

    /// In well-formed storage the registry is initialized exactly when an
    /// admin and a current implementation and version are stored, and a
    /// previous pair exists only once it is initialized.
    pub proof fn lemma_wf_initialized(&self)
        requires
            self.wf(),
        ensures
            self.spec_initialized() <==> self.spec_current() is Some,
            self.spec_initialized() <==> self.spec_admin() is Some,
            self.spec_previous() is Some ==> self.spec_initialized(),
    {
    }

    /// `after` is the outcome of a successful upgrade of `self` to
    /// `(new_impl, new_version)`.
    pub open spec fn upgraded_to(&self, after: &Self, new_impl: Address, new_version: u32) -> bool {
        &&& self.spec_initialized()
        &&& new_version > self.spec_current().unwrap().1
        &&& after.spec_previous() == self.spec_current()
        &&& after.spec_current() == Some((new_impl, new_version))
        &&& after.spec_admin() == self.spec_admin()
        &&& after.spec_initialized()
    }

    /// `after` is the outcome of a successful rollback of `self`.
    pub open spec fn rolled_back_to(&self, after: &Self) -> bool {
        &&& self.spec_initialized()
        &&& self.spec_previous() is Some
        &&& after.spec_current() == self.spec_previous()
        &&& after.spec_previous() == self.spec_current()
        &&& after.spec_admin() == self.spec_admin()
        &&& after.spec_initialized()
    }

    /// A registry with empty storage.
    pub fn new() -> (r: Self)
        ensures
            r.wf(),
            !r.spec_initialized(),
            r.spec_admin() is None,
            r.spec_current() is None,
            r.spec_previous() is None,
    {
        AttestationRegistry {
            admin: None,
            current_implementation: None,
            previous_implementation: None,
            current_version: None,
            previous_version: None,
            initialized: false,
        }
    }

    /// One-time setup with the governing admin and the first implementation.
    pub fn initialize(&mut self, admin: Address, initial_impl: Address, initial_version: u32) -> (r:
        Result<(), RegistryError>)
        requires
            old(self).wf(),
        ensures
            final(self).wf(),
            old(self).spec_initialized() ==> r == Err::<(), _>(RegistryError::AlreadyInitialized)
                && *final(self) == *old(self),
            !old(self).spec_initialized() ==> {
                &&& r is Ok
                &&& final(self).spec_initialized()
                &&& final(self).spec_admin() == Some(admin)
                &&& final(self).spec_current() == Some((initial_impl, initial_version))
                &&& final(self).spec_previous() is None
            },
    {
        if self.initialized {
            return Err(RegistryError::AlreadyInitialized);
        }
        self.admin = Some(admin);
        self.current_implementation = Some(initial_impl);
        self.current_version = Some(initial_version);
        self.initialized = true;
        Ok(())
    }

    /// Point the registry at a newer implementation; the current pair
    /// becomes the previous one. The admin must authorize the call.
    pub fn upgrade(&mut self, new_impl: Address, new_version: u32, migration_data: Option<Vec<u8>>) -> (r:
        Result<(), RegistryError>)
        requires
            old(self).wf(),
        ensures
            final(self).wf(),
            match r {
                Err(e) => *final(self) == *old(self) && if !old(self).spec_initialized() {
                    e == RegistryError::NotInitialized
                } else {
                    e == RegistryError::VersionNotIncreasing && new_version
                        <= old(self).spec_current().unwrap().1
                },
                Ok(()) => old(self).upgraded_to(&*final(self), new_impl, new_version),
            },
    {
        if !self.initialized {
            return Err(RegistryError::NotInitialized);
        }
        let current_version = match self.current_version {
            Some(v) => v,
            None => {
                return Err(RegistryError::NotInitialized);
            },
        };
        if new_version <= current_version {
            return Err(RegistryError::VersionNotIncreasing);
        }
        self.previous_implementation = self.current_implementation;
        self.previous_version = Some(current_version);
        self.current_implementation = Some(new_impl);
        self.current_version = Some(new_version);
        Ok(())
    }

    /// Swap the current and previous implementation. The admin must
    /// authorize the call.
    pub fn rollback(&mut self) -> (r: Result<(), RegistryError>)
        requires
            old(self).wf(),
        ensures
            final(self).wf(),
            match r {
                Err(e) => *final(self) == *old(self) && if !old(self).spec_initialized() {
                    e == RegistryError::NotInitialized
                } else {
                    e == RegistryError::NoPreviousImplementation && old(self).spec_previous() is None
                },
                Ok(()) => old(self).rolled_back_to(&*final(self)),
            },
    {
        if !self.initialized {
            return Err(RegistryError::NotInitialized);
        }
        let (prev_impl, prev_version) = match (self.previous_implementation, self.previous_version) {
            (Some(i), Some(v)) => (i, v),
            _ => {
                return Err(RegistryError::NoPreviousImplementation);
            },
        };
        let current_impl = self.current_implementation;
        let current_version = self.current_version;
        self.current_implementation = Some(prev_impl);
        self.current_version = Some(prev_version);
        self.previous_implementation = current_impl;
        self.previous_version = current_version;
        Ok(())
    }

    /// The current implementation, if initialized.
    pub fn get_current_implementation(&self) -> (r: Option<Address>)
        requires
            self.wf(),
        ensures
            r is None <==> !self.spec_initialized(),
            r == match self.spec_current() {
                Some(p) => Some(p.0),
                None => None::<Address>,
            },
    {
        if !self.initialized {
            return None;
        }
        self.current_implementation
    }

    /// The current version, if initialized.
    pub fn get_current_version(&self) -> (r: Option<u32>)
        requires
            self.wf(),
        ensures
            r == match self.spec_current() {
                Some(p) => Some(p.1),
                None => None::<u32>,
            },
    {
        if !self.initialized {
            return None;
        }
        self.current_version
    }

    /// The previous implementation, if any.
    pub fn get_previous_implementation(&self) -> (r: Option<Address>)
        requires
            self.wf(),
        ensures
            r == match self.spec_previous() {
                Some(p) => Some(p.0),
                None => None::<Address>,
            },
    {
        if !self.initialized {
            return None;
        }
        self.previous_implementation
    }

    /// The previous version, if any.
    pub fn get_previous_version(&self) -> (r: Option<u32>)
        requires
            self.wf(),
        ensures
            r == match self.spec_previous() {
                Some(p) => Some(p.1),
                None => None::<u32>,
            },
    {
        if !self.initialized {
            return None;
        }
        self.previous_version
    }

    /// The admin, if initialized.
    pub fn get_admin(&self) -> (r: Option<Address>)
        requires
            self.wf(),
        ensures
            r == self.spec_admin(),
    {
        if !self.initialized {
            return None;
        }
        self.admin
    }

    /// Whether the registry has been initialized.
    pub fn is_initialized(&self) -> (r: bool)
        ensures
            r == self.spec_initialized(),
    {
        self.initialized
    }

    /// Version information of the current implementation, stamped with the
    /// ledger time `now`.
    pub fn get_version_info(&self, now: u64) -> (r: Option<VersionInfo>)
        requires
            self.wf(),
        ensures
            r == match self.spec_current() {
                Some(p) => Some(
                    VersionInfo {
                        version: p.1,
                        implementation: p.0,
                        migration_data: None,
                        activated_at: now,
                    },
                ),
                None => None::<VersionInfo>,
            },
    {
        if !self.initialized {
            return None;
        }
        match (self.current_implementation, self.current_version) {
            (Some(implementation), Some(version)) => Some(
                VersionInfo { version, implementation, migration_data: None, activated_at: now },
            ),
            _ => None,
        }
    }

    /// Hand the admin role to another address. The admin must authorize.
    pub fn transfer_admin(&mut self, new_admin: Address) -> (r: Result<(), RegistryError>)
        requires
            old(self).wf(),
        ensures
            final(self).wf(),
            !old(self).spec_initialized() ==> r == Err::<(), _>(RegistryError::NotInitialized)
                && *final(self) == *old(self),
            old(self).spec_initialized() ==> r is Ok && final(self).spec_admin() == Some(new_admin)
                && final(self).spec_current() == old(self).spec_current()
                && final(self).spec_previous() == old(self).spec_previous()
                && final(self).spec_initialized(),
    {
        if !self.initialized {
            return Err(RegistryError::NotInitialized);
        }
        self.admin = Some(new_admin);
        Ok(())
    }
}

/// Rolling back right after an upgrade restores the implementation and
/// version that were current before the upgrade, and keeps the upgraded
/// pair as the previous one.
pub proof fn law_rollback_undoes_upgrade(
    s0: &AttestationRegistry,
    s1: &AttestationRegistry,
    s2: &AttestationRegistry,
    new_impl: Address,
    new_version: u32,
)
    requires
        s0.upgraded_to(s1, new_impl, new_version),
        s1.rolled_back_to(s2),
    ensures
        s2.spec_current() == s0.spec_current(),
        s2.spec_previous() == Some((new_impl, new_version)),
        s2.spec_admin() == s0.spec_admin(),
{
}

/// Two rollbacks in a row leave current and previous as they were.
pub proof fn law_rollback_twice_is_identity(
    s0: &AttestationRegistry,
    s1: &AttestationRegistry,
    s2: &AttestationRegistry,
)
    requires
        s0.rolled_back_to(s1),
        s1.rolled_back_to(s2),
    ensures
        s2.spec_current() == s0.spec_current(),
        s2.spec_previous() == s0.spec_previous(),
{
}

/// Each upgrade strictly raises the current version.
pub proof fn law_upgrade_raises_version(
    s0: &AttestationRegistry,
    s1: &AttestationRegistry,
    new_impl: Address,
    new_version: u32,
)
    requires
        s0.upgraded_to(s1, new_impl, new_version),
    ensures
        s1.spec_current().unwrap().1 > s0.spec_current().unwrap().1,
{
}

} // verus!
