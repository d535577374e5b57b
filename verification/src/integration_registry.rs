//! Registry of third-party integration providers (payment processors,
//! shops, accounting systems) that attestations may draw on.
//!
//! Provider lifecycle:
//!
//! ```text
//! [Registered] → [Enabled] → [Deprecated] → [Disabled]
//!                    ↑            │
//!                    └────────────┘ (re-enable possible)
//! ```
//!
//! Governance addresses manage providers; the admin manages governance.
use vstd::prelude::*;
use crate::store::Store;
use crate::types::Address;

verus! {

/// Status of an integration provider.
#[derive(Clone, Copy, Debug, PartialEq, Eq, Structural)]
pub enum ProviderStatus {
    /// Registered but not yet enabled.
    Registered,
    /// Active; may be used in attestations.
    Enabled,
    /// Being phased out; still valid but discouraged.
    Deprecated,
    /// May not be used.
    Disabled,
}

/// Descriptive data of a provider.
#[derive(Debug)]
pub struct ProviderMetadata {
    pub name: String,
    pub description: String,
    pub api_version: String,
    pub docs_url: String,
    /// Category such as "payment", "ecommerce", "accounting".
    pub category: String,
}

impl ProviderMetadata {
    pub fn duplicate(&self) -> (r: Self)
        ensures
            r == *self,
    {
        ProviderMetadata {
            name: self.name.clone(),
            description: self.description.clone(),
            api_version: self.api_version.clone(),
            docs_url: self.docs_url.clone(),
            category: self.category.clone(),
        }
    }
}

/// A provider record.
#[derive(Debug)]
pub struct Provider {
    /// Unique identifier such as "stripe".
    pub id: String,
    pub status: ProviderStatus,
    pub metadata: ProviderMetadata,
    /// Ledger sequence at registration.
    pub registered_at: u32,
    /// Ledger sequence at the last change.
    pub updated_at: u32,
    pub registered_by: Address,
}

impl Provider {
    pub fn duplicate(&self) -> (r: Self)
        ensures
            r == *self,
    {
        Provider {
            id: self.id.clone(),
            status: self.status,
            metadata: self.metadata.duplicate(),
            registered_at: self.registered_at,
            updated_at: self.updated_at,
            registered_by: self.registered_by,
        }
    }
}

/// A status change that governance may request.
#[derive(Clone, Copy, Debug, PartialEq, Eq, Structural)]
pub enum StatusAction {
    Enable,
    Deprecate,
    Disable,
}

/// Why a registry call was refused.
#[derive(Clone, Copy, Debug, PartialEq, Eq, Structural)]
pub enum IntegrationError {
    AlreadyInitialized,
    NotInitialized,
    NotAdmin,
    NotGovernance,
    AlreadyRegistered,
    ProviderNotFound,
    CannotEnable,
    NotEnabled,
    AlreadyDisabled,
}

/// The lifecycle: the status an action leads to from `from`, or why it
/// is refused. Enabling works from any status but `Enabled`, deprecating
/// only from `Enabled`, disabling from any status but `Disabled`.
pub open spec fn transition(from: ProviderStatus, action: StatusAction) -> Result<
    ProviderStatus,
    IntegrationError,
> {
    match action {
        StatusAction::Enable => if from != ProviderStatus::Enabled {
            Ok(ProviderStatus::Enabled)
        } else {
            Err(IntegrationError::CannotEnable)
        },
        StatusAction::Deprecate => if from == ProviderStatus::Enabled {
            Ok(ProviderStatus::Deprecated)
        } else {
            Err(IntegrationError::NotEnabled)
        },
        StatusAction::Disable => if from != ProviderStatus::Disabled {
            Ok(ProviderStatus::Disabled)
        } else {
            Err(IntegrationError::AlreadyDisabled)
        },
    }
}

/// Executable form of [`transition`].
pub fn next_status(from: ProviderStatus, action: StatusAction) -> (r: Result<
    ProviderStatus,
    IntegrationError,
>)
    ensures
        r == transition(from, action),
{
    match action {
        StatusAction::Enable => if from != ProviderStatus::Enabled {
            Ok(ProviderStatus::Enabled)
        } else {
            Err(IntegrationError::CannotEnable)
        },
        StatusAction::Deprecate => if from == ProviderStatus::Enabled {
            Ok(ProviderStatus::Deprecated)
        } else {
            Err(IntegrationError::NotEnabled)
        },
        StatusAction::Disable => if from != ProviderStatus::Disabled {
            Ok(ProviderStatus::Disabled)
        } else {
            Err(IntegrationError::AlreadyDisabled)
        },
    }
}

/// A provider in this status may back an attestation.
pub open spec fn usable(s: ProviderStatus) -> bool {
    s == ProviderStatus::Enabled || s == ProviderStatus::Deprecated
}

/// Registry storage.
pub struct IntegrationRegistryContract {
    admin: Option<Address>,
    governance: Store<u64, bool>,
    providers: Store<String, Provider>,
    provider_list: Vec<String>,
}

impl IntegrationRegistryContract {
    pub closed spec fn spec_admin(&self) -> Option<Address> {
        self.admin
    }

    /// Whether `a` holds the governance role.
    pub closed spec fn is_governance(&self, a: Address) -> bool {
        self.governance@.contains_key(a) && self.governance@[a]
    }

    /// The provider registered under `id`.
    pub closed spec fn provider(&self, id: Seq<char>) -> Option<Provider> {
        if self.providers@.contains_key(id) {
            Some(self.providers@[id])
        } else {
            None
        }
    }

    /// Registered identifiers in registration order.
    pub closed spec fn spec_list(&self) -> Seq<String> {
        self.provider_list@
    }

    /// Status of `id`, if registered.
    pub open spec fn status_of(&self, id: Seq<char>) -> Option<ProviderStatus> {
        match self.provider(id) {
            Some(p) => Some(p.status),
            None => None,
        }
    }

    /// Invariant: the list names each registered provider exactly once,
    /// and each record carries its own identifier.
    pub open spec fn wf(&self) -> bool {
        &&& forall|i: int, j: int|
            0 <= i < j < self.spec_list().len() ==> (#[trigger] self.spec_list()[i])@ != (
            #[trigger] self.spec_list()[j])@
        &&& forall|i: int|
            0 <= i < self.spec_list().len() ==> (#[trigger] self.provider(
                self.spec_list()[i]@,
            )) is Some
        &&& forall|id: Seq<char>| #[trigger]
            self.provider(id) is Some ==> exists|i: int|
                0 <= i < self.spec_list().len() && (#[trigger] self.spec_list()[i])@ == id
        &&& forall|id: Seq<char>| #[trigger]
            self.provider(id) is Some ==> self.provider(id).unwrap().id@ == id
    }

    /// Everything but the provider `id` is as in `old`.
    pub open spec fn only_provider_changed(&self, old: &Self, id: Seq<char>) -> bool {
        &&& self.spec_admin() == old.spec_admin()
        &&& forall|a: Address| #[trigger] self.is_governance(a) == old.is_governance(a)
        &&& self.spec_list() == old.spec_list()
        &&& forall|k: Seq<char>| k != id ==> #[trigger] self.provider(k) == old.provider(k)
    }

    /// The governance check of a provider-management call.
    pub open spec fn governance_error(&self, caller: Address) -> Option<IntegrationError> {
        if !self.is_governance(caller) {
            Some(IntegrationError::NotGovernance)
        } else {
            None
        }
    }

    /// The admin check of a governance-management call.
    pub open spec fn admin_error(&self, caller: Address) -> Option<IntegrationError> {
        match self.spec_admin() {
            None => Some(IntegrationError::NotInitialized),
            Some(a) => if a != caller {
                Some(IntegrationError::NotAdmin)
            } else {
                None
            },
        }
    }

    /// The error a status change meets, if any.
    pub open spec fn status_change_error(
        &self,
        caller: Address,
        id: Seq<char>,
        action: StatusAction,
    ) -> Option<IntegrationError> {
        if !self.is_governance(caller) {
            Some(IntegrationError::NotGovernance)
        } else if self.provider(id) is None {
            Some(IntegrationError::ProviderNotFound)
        } else {
            match transition(self.provider(id).unwrap().status, action) {
                Err(e) => Some(e),
                Ok(_) => None,
            }
        }
    }

    /// Empty registry.
    pub fn new() -> (r: Self)
        ensures
            r.wf(),
            r.spec_admin() is None,
            forall|a: Address| !r.is_governance(a),
            forall|id: Seq<char>| r.provider(id) is None,
            r.spec_list().len() == 0,
    {
        IntegrationRegistryContract {
            admin: None,
            governance: Store::new(),
            providers: Store::new(),
            provider_list: Vec::new(),
        }
    }

    proof fn lemma_wf_kept(old: &Self, new: &Self)
        requires
            old.wf(),
            new.spec_list() == old.spec_list(),
            forall|k: Seq<char>| #[trigger] new.provider(k) == old.provider(k),
        ensures
            new.wf(),
    {
        let l = new.spec_list();
        assert forall|i: int| 0 <= i < l.len() implies (#[trigger] new.provider(l[i]@)) is Some by {
            assert(old.provider(l[i]@) is Some);
        }
        assert forall|k: Seq<char>| #[trigger] new.provider(k) is Some implies exists|i: int|
            0 <= i < l.len() && (#[trigger] l[i])@ == k by {
            assert(old.provider(k) is Some);
        }
        assert forall|k: Seq<char>| #[trigger] new.provider(k) is Some implies new.provider(k).unwrap().id@ == k by {
            assert(old.provider(k) is Some);
        }
    }

    /// Set the admin once and give it the governance role.
    pub fn initialize(&mut self, admin: Address) -> (r: Result<(), IntegrationError>)
        requires
            old(self).wf(),
        ensures
            final(self).wf(),
            old(self).spec_admin() is Some ==> r == Err::<(), _>(
                IntegrationError::AlreadyInitialized,
            ) && *final(self) == *old(self),
            old(self).spec_admin() is None ==> {
                &&& r is Ok
                &&& final(self).spec_admin() == Some(admin)
                &&& forall|a: Address| #[trigger]
                    final(self).is_governance(a) == (a == admin || old(self).is_governance(a))
                &&& final(self).spec_list() == old(self).spec_list()
                &&& forall|k: Seq<char>| #[trigger] final(self).provider(k) == old(self).provider(k)
            },
    {
        if self.admin.is_some() {
            return Err(IntegrationError::AlreadyInitialized);
        }
        self.admin = Some(admin);
        self.governance.set(admin, true);
        proof {
            Self::lemma_wf_kept(&*old(self), &*self);
        }
        Ok(())
    }

    fn check_admin(&self, caller: Address) -> (r: Result<(), IntegrationError>)
        ensures
            match self.admin_error(caller) {
                Some(e) => r == Err::<(), _>(e),
                None => r is Ok,
            },
    {
        match self.admin {
            None => Err(IntegrationError::NotInitialized),
            Some(a) => if a != caller {
                Err(IntegrationError::NotAdmin)
            } else {
                Ok(())
            },
        }
    }

    /// Whether `account` holds the governance role.
    pub fn has_governance(&self, account: Address) -> (r: bool)
        ensures
            r == self.is_governance(account),
    {
        match self.governance.get(&account) {
            Some(b) => *b,
            None => false,
        }
    }

    /// Grant (`granted`) or revoke the governance role. Admin only.
    fn set_governance(&mut self, admin: Address, account: Address, granted: bool) -> (r: Result<
        (),
        IntegrationError,
    >)
        requires
            old(self).wf(),
        ensures
            final(self).wf(),
            match old(self).admin_error(admin) {
                Some(e) => r == Err::<(), _>(e) && *final(self) == *old(self),
                None => {
                    &&& r is Ok
                    &&& forall|a: Address| #[trigger]
                        final(self).is_governance(a) == if a == account {
                            granted
                        } else {
                            old(self).is_governance(a)
                        }
                    &&& final(self).spec_admin() == old(self).spec_admin()
                    &&& final(self).spec_list() == old(self).spec_list()
                    &&& forall|k: Seq<char>| #[trigger]
                        final(self).provider(k) == old(self).provider(k)
                },
            },
    {
        self.check_admin(admin)?;
        self.governance.set(account, granted);
        proof {
            Self::lemma_wf_kept(&*old(self), &*self);
        }
        Ok(())
    }

    /// Give `account` the governance role. Admin only.
    pub fn grant_governance(&mut self, admin: Address, account: Address) -> (r: Result<
        (),
        IntegrationError,
    >)
        requires
            old(self).wf(),
        ensures
            final(self).wf(),
            match old(self).admin_error(admin) {
                Some(e) => r == Err::<(), _>(e) && *final(self) == *old(self),
                None => {
                    &&& r is Ok
                    &&& forall|a: Address| #[trigger]
                        final(self).is_governance(a) == (a == account || old(self).is_governance(a))
                    &&& final(self).spec_admin() == old(self).spec_admin()
                    &&& final(self).spec_list() == old(self).spec_list()
                    &&& forall|k: Seq<char>| #[trigger]
                        final(self).provider(k) == old(self).provider(k)
                },
            },
    {
        self.set_governance(admin, account, true)
    }

    /// Take the governance role from `account`. Admin only.
    pub fn revoke_governance(&mut self, admin: Address, account: Address) -> (r: Result<
        (),
        IntegrationError,
    >)
        requires
            old(self).wf(),
        ensures
            final(self).wf(),
            match old(self).admin_error(admin) {
                Some(e) => r == Err::<(), _>(e) && *final(self) == *old(self),
                None => {
                    &&& r is Ok
                    &&& forall|a: Address| #[trigger]
                        final(self).is_governance(a) == (a != account && old(self).is_governance(a))
                    &&& final(self).spec_admin() == old(self).spec_admin()
                    &&& final(self).spec_list() == old(self).spec_list()
                    &&& forall|k: Seq<char>| #[trigger]
                        final(self).provider(k) == old(self).provider(k)
                },
            },
    {
        self.set_governance(admin, account, false)
    }

    /// Register a provider in `Registered` status. Governance only; each
    /// identifier once.
    pub fn register_provider(
        &mut self,
        caller: Address,
        id: String,
        metadata: ProviderMetadata,
        ledger_seq: u32,
    ) -> (r: Result<(), IntegrationError>)
        requires
            old(self).wf(),
        ensures
            final(self).wf(),
            !old(self).is_governance(caller) ==> r == Err::<(), _>(
                IntegrationError::NotGovernance,
            ),
            old(self).is_governance(caller) && old(self).provider(id@) is Some ==> r == Err::<(), _>(
                IntegrationError::AlreadyRegistered,
            ),
            r is Err ==> *final(self) == *old(self),
            old(self).is_governance(caller) && old(self).provider(id@) is None ==> {
                &&& r is Ok
                &&& final(self).provider(id@) == Some(
                    Provider {
                        id,
                        status: ProviderStatus::Registered,
                        metadata,
                        registered_at: ledger_seq,
                        updated_at: ledger_seq,
                        registered_by: caller,
                    },
                )
                &&& final(self).spec_list() == old(self).spec_list().push(id)
                &&& final(self).spec_admin() == old(self).spec_admin()
                &&& forall|a: Address| #[trigger] final(self).is_governance(a) == old(self).is_governance(a)
                &&& forall|k: Seq<char>| k != id@ ==> #[trigger] final(self).provider(k) == old(self).provider(k)
            },
    {
        if !self.has_governance(caller) {
            return Err(IntegrationError::NotGovernance);
        }
        if self.providers.has(&id) {
            return Err(IntegrationError::AlreadyRegistered);
        }
        let key = id.clone();
        let listed = id.clone();
        let provider = Provider {
            id,
            status: ProviderStatus::Registered,
            metadata,
            registered_at: ledger_seq,
            updated_at: ledger_seq,
            registered_by: caller,
        };
        self.providers.set(key, provider);
        self.provider_list.push(listed);
        proof {
            let l = old(self).spec_list();
            let n = self.spec_list();
            assert(n == l.push(listed));
            assert forall|i: int, j: int| 0 <= i < j < n.len() implies (#[trigger] n[i])@ != (
            #[trigger] n[j])@ by {
                if j == l.len() {
                    assert(old(self).provider(l[i]@) is Some);
                    assert(n[i] == l[i]);
                } else {
                    assert(n[i] == l[i] && n[j] == l[j]);
                }
            }
            assert forall|i: int| 0 <= i < n.len() implies (#[trigger] self.provider(n[i]@)) is Some by {
                if i < l.len() {
                    assert(n[i] == l[i]);
                    assert(old(self).provider(l[i]@) is Some);
                }
            }
            assert forall|k: Seq<char>| #[trigger] self.provider(k) is Some implies exists|i: int|
                0 <= i < n.len() && (#[trigger] n[i])@ == k by {
                if k == listed@ {
                    assert(n[l.len() as int]@ == k);
                } else {
                    assert(old(self).provider(k) is Some);
                    let i = choose|i: int| 0 <= i < l.len() && (#[trigger] l[i])@ == k;
                    assert(n[i] == l[i]);
                }
            }
            assert forall|k: Seq<char>| #[trigger] self.provider(k) is Some implies self.provider(
                k,
            ).unwrap().id@ == k by {
                if k != listed@ {
                    assert(old(self).provider(k) is Some);
                }
            }
        }
        Ok(())
    }

    /// The provider after a successful status change.
    pub open spec fn changed(&self, id: Seq<char>, action: StatusAction, ledger_seq: u32) -> Provider {
        Provider {
            status: transition(self.provider(id).unwrap().status, action)->Ok_0,
            updated_at: ledger_seq,
            ..self.provider(id).unwrap()
        }
    }

    fn change_status(&mut self, caller: Address, id: String, action: StatusAction, ledger_seq: u32) -> (r:
        Result<(), IntegrationError>)
        requires
            old(self).wf(),
        ensures
            final(self).wf(),
            match old(self).status_change_error(caller, id@, action) {
                Some(e) => r == Err::<(), _>(e) && *final(self) == *old(self),
                None => {
                    &&& r is Ok
                    &&& final(self).provider(id@) == Some(old(self).changed(id@, action, ledger_seq))
                    &&& final(self).only_provider_changed(&*old(self), id@)
                },
            },
    {
        if !self.has_governance(caller) {
            return Err(IntegrationError::NotGovernance);
        }
        let current = match self.providers.get(&id) {
            Some(p) => p.duplicate(),
            None => {
                return Err(IntegrationError::ProviderNotFound);
            },
        };
        let next = next_status(current.status, action)?;
        let updated = Provider { status: next, updated_at: ledger_seq, ..current };
        self.providers.set(id, updated);
        proof {
            Self::lemma_wf_one_changed(&*old(self), &*self, id@);
        }
        Ok(())
    }

    proof fn lemma_wf_one_changed(old: &Self, new: &Self, id: Seq<char>)
        requires
            old.wf(),
            old.provider(id) is Some,
            new.provider(id) is Some,
            new.provider(id).unwrap().id == old.provider(id).unwrap().id,
            new.spec_list() == old.spec_list(),
            forall|k: Seq<char>| k != id ==> #[trigger] new.provider(k) == old.provider(k),
        ensures
            new.wf(),
    {
        let l = new.spec_list();
        assert forall|i: int| 0 <= i < l.len() implies (#[trigger] new.provider(l[i]@)) is Some by {
            assert(old.provider(l[i]@) is Some);
        }
        assert forall|k: Seq<char>| #[trigger] new.provider(k) is Some implies exists|i: int|
            0 <= i < l.len() && (#[trigger] l[i])@ == k by {
            assert(old.provider(k) is Some);
        }
        assert forall|k: Seq<char>| #[trigger] new.provider(k) is Some implies new.provider(k).unwrap().id@ == k by {
            assert(old.provider(k) is Some);
        }
    }

    /// Enable a provider (from any status but `Enabled`). Governance only.
    pub fn enable_provider(&mut self, caller: Address, id: String, ledger_seq: u32) -> (r: Result<
        (),
        IntegrationError,
    >)
        requires
            old(self).wf(),
        ensures
            final(self).wf(),
            match old(self).status_change_error(caller, id@, StatusAction::Enable) {
                Some(e) => r == Err::<(), _>(e) && *final(self) == *old(self),
                None => {
                    &&& r is Ok
                    &&& final(self).provider(id@) == Some(
                        old(self).changed(id@, StatusAction::Enable, ledger_seq),
                    )
                    &&& final(self).only_provider_changed(&*old(self), id@)
                },
            },
    {
        self.change_status(caller, id, StatusAction::Enable, ledger_seq)
    }

    /// Deprecate an enabled provider. Governance only.
    pub fn deprecate_provider(&mut self, caller: Address, id: String, ledger_seq: u32) -> (r:
        Result<(), IntegrationError>)
        requires
            old(self).wf(),
        ensures
            final(self).wf(),
            match old(self).status_change_error(caller, id@, StatusAction::Deprecate) {
                Some(e) => r == Err::<(), _>(e) && *final(self) == *old(self),
                None => {
                    &&& r is Ok
                    &&& final(self).provider(id@) == Some(
                        old(self).changed(id@, StatusAction::Deprecate, ledger_seq),
                    )
                    &&& final(self).only_provider_changed(&*old(self), id@)
                },
            },
    {
        self.change_status(caller, id, StatusAction::Deprecate, ledger_seq)
    }

    /// Disable a provider (from any status but `Disabled`). Governance only.
    pub fn disable_provider(&mut self, caller: Address, id: String, ledger_seq: u32) -> (r: Result<
        (),
        IntegrationError,
    >)
        requires
            old(self).wf(),
        ensures
            final(self).wf(),
            match old(self).status_change_error(caller, id@, StatusAction::Disable) {
                Some(e) => r == Err::<(), _>(e) && *final(self) == *old(self),
                None => {
                    &&& r is Ok
                    &&& final(self).provider(id@) == Some(
                        old(self).changed(id@, StatusAction::Disable, ledger_seq),
                    )
                    &&& final(self).only_provider_changed(&*old(self), id@)
                },
            },
    {
        self.change_status(caller, id, StatusAction::Disable, ledger_seq)
    }

    /// Replace a provider's metadata, whatever its status. Governance only.
    pub fn update_metadata(
        &mut self,
        caller: Address,
        id: String,
        metadata: ProviderMetadata,
        ledger_seq: u32,
    ) -> (r: Result<(), IntegrationError>)
        requires
            old(self).wf(),
        ensures
            final(self).wf(),
            !old(self).is_governance(caller) ==> r == Err::<(), _>(
                IntegrationError::NotGovernance,
            ),
            old(self).is_governance(caller) && old(self).provider(id@) is None ==> r == Err::<(), _>(
                IntegrationError::ProviderNotFound,
            ),
            r is Err ==> *final(self) == *old(self),
            old(self).is_governance(caller) && old(self).provider(id@) is Some ==> {
                &&& r is Ok
                &&& final(self).provider(id@) == Some(
                    Provider {
                        metadata,
                        updated_at: ledger_seq,
                        ..old(self).provider(id@).unwrap()
                    },
                )
                &&& final(self).only_provider_changed(&*old(self), id@)
            },
    {
        if !self.has_governance(caller) {
            return Err(IntegrationError::NotGovernance);
        }
        let current = match self.providers.get(&id) {
            Some(p) => p.duplicate(),
            None => {
                return Err(IntegrationError::ProviderNotFound);
            },
        };
        let updated = Provider { metadata, updated_at: ledger_seq, ..current };
        self.providers.set(id, updated);
        proof {
            Self::lemma_wf_one_changed(&*old(self), &*self, id@);
        }
        Ok(())
    }

    /// The provider registered under `id`.
    pub fn get_provider(&self, id: String) -> (r: Option<Provider>)
        ensures
            r == self.provider(id@),
    {
        match self.providers.get(&id) {
            Some(p) => Some(p.duplicate()),
            None => None,
        }
    }

    fn status_ref(&self, id: &String) -> (r: Option<ProviderStatus>)
        ensures
            r == self.status_of(id@),
    {
        match self.providers.get(id) {
            Some(p) => Some(p.status),
            None => None,
        }
    }

    /// Status of a provider; `None` when not registered.
    pub fn get_status(&self, id: String) -> (r: Option<ProviderStatus>)
        ensures
            r == self.status_of(id@),
    {
        self.status_ref(&id)
    }

    /// Whether the provider exists and is `Enabled`.
    pub fn is_enabled(&self, id: String) -> (r: bool)
        ensures
            r == (self.status_of(id@) == Some(ProviderStatus::Enabled)),
    {
        match self.status_ref(&id) {
            Some(s) => s == ProviderStatus::Enabled,
            None => false,
        }
    }

    /// Whether the provider exists and is `Deprecated`.
    pub fn is_deprecated(&self, id: String) -> (r: bool)
        ensures
            r == (self.status_of(id@) == Some(ProviderStatus::Deprecated)),
    {
        match self.status_ref(&id) {
            Some(s) => s == ProviderStatus::Deprecated,
            None => false,
        }
    }

    /// Whether the provider may back an attestation: it exists and is
    /// `Enabled` or `Deprecated`.
    pub fn is_valid_for_attestation(&self, id: String) -> (r: bool)
        ensures
            r == match self.status_of(id@) {
                Some(s) => usable(s),
                None => false,
            },
    {
        match self.status_ref(&id) {
            Some(s) => s == ProviderStatus::Enabled || s == ProviderStatus::Deprecated,
            None => false,
        }
    }

    /// Every registered identifier, in registration order.
    pub fn get_all_providers(&self) -> (r: Vec<String>)
        ensures
            r@ == self.spec_list(),
    {
        crate::types::copy_strings(&self.provider_list)
    }

    /// Registered identifiers whose provider has status `st`, in
    /// registration order.
    pub open spec fn ids_with_status(&self, st: ProviderStatus) -> Seq<String> {
        self.spec_list().filter(|s: String| self.status_of(s@) == Some(st))
    }

    fn providers_with_status(&self, st: ProviderStatus) -> (r: Vec<String>)
        ensures
            r@ == self.ids_with_status(st),
    {
        let ghost pred = |s: String| self.status_of(s@) == Some(st);
        let mut out: Vec<String> = Vec::new();
        let mut i: usize = 0;
        while i < self.provider_list.len()
            invariant
                i <= self.spec_list().len(),
                pred == (|s: String| self.status_of(s@) == Some(st)),
                out@ == self.spec_list().subrange(0, i as int).filter(pred),
            decreases self.spec_list().len() - i,
        {
            let id = &self.provider_list[i];
            let hit = match self.status_ref(id) {
                Some(s) => s == st,
                None => false,
            };
            proof {
                let l = self.spec_list();
                assert(l.subrange(0, i + 1) =~= l.subrange(0, i as int).push(l[i as int]));
                l.subrange(0, i as int).lemma_filter_push(l[i as int], pred);
            }
            if hit {
                out.push(id.clone());
            }
            i = i + 1;
        }
        assert(self.spec_list().subrange(0, self.spec_list().len() as int) =~= self.spec_list());
        out
    }

    /// Identifiers of `Enabled` providers, in registration order.
    pub fn get_enabled_providers(&self) -> (r: Vec<String>)
        ensures
            r@ == self.ids_with_status(ProviderStatus::Enabled),
    {
        self.providers_with_status(ProviderStatus::Enabled)
    }

    /// Identifiers of `Deprecated` providers, in registration order.
    pub fn get_deprecated_providers(&self) -> (r: Vec<String>)
        ensures
            r@ == self.ids_with_status(ProviderStatus::Deprecated),
    {
        self.providers_with_status(ProviderStatus::Deprecated)
    }

    /// The admin; refused before initialization.
    pub fn get_admin(&self) -> (r: Result<Address, IntegrationError>)
        ensures
            match self.spec_admin() {
                Some(a) => r == Ok::<Address, IntegrationError>(a),
                None => r == Err::<Address, _>(IntegrationError::NotInitialized),
            },
    {
        match self.admin {
            Some(a) => Ok(a),
            None => Err(IntegrationError::NotInitialized),
        }
    }
}

/// The registry lists each registered provider exactly once, and lists
/// nothing else.
pub proof fn law_list_names_each_provider_once(c: &IntegrationRegistryContract, id: Seq<char>)
    requires
        c.wf(),
    ensures
        c.provider(id) is Some <==> exists|i: int|
            0 <= i < c.spec_list().len() && (#[trigger] c.spec_list()[i])@ == id,
        forall|i: int, j: int|
            0 <= i < c.spec_list().len() && 0 <= j < c.spec_list().len() && i != j ==> (
            #[trigger] c.spec_list()[i])@ != (#[trigger] c.spec_list()[j])@,
{
    assert forall|i: int, j: int|
        0 <= i < c.spec_list().len() && 0 <= j < c.spec_list().len() && i != j implies (
        #[trigger] c.spec_list()[i])@ != (#[trigger] c.spec_list()[j])@ by {
        if i > j {
            assert(c.spec_list()[j]@ != c.spec_list()[i]@);
        }
    }
    if exists|i: int| 0 <= i < c.spec_list().len() && (#[trigger] c.spec_list()[i])@ == id {
        let i = choose|i: int| 0 <= i < c.spec_list().len() && (#[trigger] c.spec_list()[i])@ == id;
        assert(c.provider(c.spec_list()[i]@) is Some);
    }
}

/// The enabled (or deprecated) provider list names exactly the providers
/// in that status.
pub proof fn law_status_list_is_exact(
    c: &IntegrationRegistryContract,
    st: ProviderStatus,
    id: Seq<char>,
)
    requires
        c.wf(),
    ensures
        (exists|i: int|
            0 <= i < c.ids_with_status(st).len() && (#[trigger] c.ids_with_status(st)[i])@ == id)
            <==> c.status_of(id) == Some(st),
{
    let pred = |s: String| c.status_of(s@) == Some(st);
    let l = c.spec_list();
    let f = l.filter(pred);
    assert(f == c.ids_with_status(st));
    broadcast use vstd::seq_lib::group_filter_ensures;
    if c.status_of(id) == Some(st) {
        let i = choose|i: int| 0 <= i < l.len() && (#[trigger] l[i])@ == id;
        assert(pred(l[i]));
        l.lemma_filter_contains(pred, i);
        let j = choose|j: int| 0 <= j < f.len() && f[j] == l[i];
        assert(f[j]@ == id);
    }
    if exists|j: int| 0 <= j < f.len() && (#[trigger] f[j])@ == id {
        let j = choose|j: int| 0 <= j < f.len() && (#[trigger] f[j])@ == id;
        assert(pred(f[j]));
    }
}

/// A newly registered provider is not usable for attestations until it is
/// enabled; enabling it makes it usable.
pub proof fn law_registered_needs_enabling(
    registered: &IntegrationRegistryContract,
    enabled: &IntegrationRegistryContract,
    id: Seq<char>,
    ledger_seq: u32,
)
    requires
        registered.status_of(id) == Some(ProviderStatus::Registered),
        enabled.provider(id) == Some(registered.changed(id, StatusAction::Enable, ledger_seq)),
    ensures
        !usable(registered.status_of(id).unwrap()),
        enabled.status_of(id) == Some(ProviderStatus::Enabled),
        usable(enabled.status_of(id).unwrap()),
{
}

/// Deprecation keeps a provider usable; disabling ends that, and enabling
/// restores it from either state.
pub proof fn law_lifecycle(from: ProviderStatus)
    ensures
        from == ProviderStatus::Enabled ==> transition(from, StatusAction::Deprecate) == Ok::<
            ProviderStatus,
            IntegrationError,
        >(ProviderStatus::Deprecated) && usable(ProviderStatus::Deprecated),
        from != ProviderStatus::Enabled ==> transition(from, StatusAction::Deprecate) == Err::<
            ProviderStatus,
            _,
        >(IntegrationError::NotEnabled),
        from == ProviderStatus::Deprecated || from == ProviderStatus::Disabled ==> transition(
            from,
            StatusAction::Enable,
        ) == Ok::<ProviderStatus, IntegrationError>(ProviderStatus::Enabled),
        transition(from, StatusAction::Disable) is Ok ==> !usable(
            transition(from, StatusAction::Disable)->Ok_0,
        ),
{
}

} // verus!
