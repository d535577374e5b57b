//! Admin key rotation: propose, wait out a timelock, then the new admin
//! confirms within a confirmation window; the current admin may cancel
//! meanwhile. An emergency rotation completes at once. Completed rotations
//! are recorded in a bounded history, and a cooldown separates them.
//!
//! ```text
//! [Idle] ──propose──▶ [Pending] ──confirm──▶ [Completed]
//!                         │
//!                         ├──cancel──▶ [Cancelled]
//!                         └──(window passes)──▶ [Expired]
//! ```
use vstd::prelude::*;
use crate::types::Address;

verus! {

/// Storage slots of the rotation state.
#[derive(Clone, Copy, Debug, PartialEq, Eq, Structural)]
pub enum KeyRotationKey {
    PendingRotation,
    RotationHistory,
    RotationConfig,
    LastRotationLedger,
    RotationCount,
}

#[derive(Clone, Copy, Debug, PartialEq, Eq, Structural)]
pub enum RotationStatus {
    Pending,
    Completed,
    Cancelled,
    Expired,
}

/// A rotation request.
#[derive(Clone, Copy, Debug, PartialEq, Eq, Structural)]
pub struct RotationRequest {
    pub old_admin: Address,
    pub new_admin: Address,
    pub status: RotationStatus,
    /// Ledger of the proposal.
    pub proposed_at: u32,
    /// First ledger at which the new admin may confirm.
    pub timelock_until: u32,
    /// Last ledger at which the new admin may confirm.
    pub expires_at: u32,
    pub is_emergency: bool,
}

/// A completed rotation.
#[derive(Clone, Copy, Debug, PartialEq, Eq, Structural)]
pub struct RotationRecord {
    pub old_admin: Address,
    pub new_admin: Address,
    pub completed_at: u32,
    pub is_emergency: bool,
}

/// Timing rules, in ledgers.
#[derive(Clone, Copy, Debug, PartialEq, Eq, Structural)]
pub struct RotationConfig {
    pub timelock_ledgers: u32,
    pub confirmation_window_ledgers: u32,
    pub cooldown_ledgers: u32,
}

/// Default timelock: about one day.
pub const DEFAULT_TIMELOCK_LEDGERS: u32 = 17280;

/// Default confirmation window: about two days.
pub const DEFAULT_CONFIRMATION_WINDOW: u32 = 34560;

/// Default cooldown between rotations: about half a day.
pub const DEFAULT_COOLDOWN_LEDGERS: u32 = 8640;

/// Number of completed rotations kept in the history.
pub const MAX_ROTATION_HISTORY: u32 = 50;

/// Why a rotation call was refused.
#[derive(Clone, Copy, Debug, PartialEq, Eq, Structural)]
pub enum RotationError {
    ZeroTimelock,
    ZeroWindow,
    SameAdmin,
    AlreadyPending,
    CooldownActive,
    NoPending,
    NotPending,
    NotProposedAdmin,
    TimelockActive,
    WindowExpired,
    NotCurrentAdmin,
    Overflow,
}

/// The default timing rules.
pub open spec fn default_config() -> RotationConfig {
    RotationConfig {
        timelock_ledgers: DEFAULT_TIMELOCK_LEDGERS,
        confirmation_window_ledgers: DEFAULT_CONFIRMATION_WINDOW,
        cooldown_ledgers: DEFAULT_COOLDOWN_LEDGERS,
    }
}

/// The last `MAX_ROTATION_HISTORY` entries of `s`.
pub open spec fn keep_latest(s: Seq<RotationRecord>) -> Seq<RotationRecord> {
    if s.len() > MAX_ROTATION_HISTORY {
        s.subrange(s.len() - MAX_ROTATION_HISTORY, s.len() as int)
    } else {
        s
    }
}

fn copy_records(v: &Vec<RotationRecord>) -> (r: Vec<RotationRecord>)
    ensures
        r@ == v@,
{
    crate::types::copy_vec(v)
}

/// Rotation storage.
pub struct KeyRotationState {
    pending: Option<RotationRequest>,
    history: Vec<RotationRecord>,
    config: Option<RotationConfig>,
    last_rotation_ledger: Option<u32>,
    rotation_count: Option<u32>,
}

impl KeyRotationState {
    pub closed spec fn spec_pending(&self) -> Option<RotationRequest> {
        self.pending
    }

    pub closed spec fn spec_history(&self) -> Seq<RotationRecord> {
        self.history@
    }

    pub closed spec fn stored_config(&self) -> Option<RotationConfig> {
        self.config
    }

    /// Ledger of the last completed rotation (0 if none).
    pub closed spec fn spec_last(&self) -> u32 {
        match self.last_rotation_ledger {
            Some(l) => l,
            None => 0,
        }
    }

    /// Number of completed rotations.
    pub closed spec fn spec_count(&self) -> u32 {
        match self.rotation_count {
            Some(c) => c,
            None => 0,
        }
    }

    /// Whether a storage slot holds a value.
    pub closed spec fn slot_set(&self, key: KeyRotationKey) -> bool {
        match key {
            KeyRotationKey::PendingRotation => self.pending is Some,
            KeyRotationKey::RotationHistory => self.rotation_count is Some,
            KeyRotationKey::RotationConfig => self.config is Some,
            KeyRotationKey::LastRotationLedger => self.last_rotation_ledger is Some,
            KeyRotationKey::RotationCount => self.rotation_count is Some,
        }
    }

    /// Invariant: the history is bounded, stored timing rules have a
    /// timelock and a window of at least one ledger, and a pending request
    /// is always a planned (non-emergency) one.
    pub open spec fn wf(&self) -> bool {
        &&& self.spec_history().len() <= MAX_ROTATION_HISTORY
        &&& self.spec_pending() matches Some(p) ==> !p.is_emergency
        &&& self.stored_config() matches Some(c) ==> c.timelock_ledgers > 0
            && c.confirmation_window_ledgers > 0
    }

    /// The timing rules in force.
    pub open spec fn spec_config(&self) -> RotationConfig {
        match self.stored_config() {
            Some(c) => c,
            None => default_config(),
        }
    }

    /// A rotation is pending and its window has not passed at `ledger_seq`.
    pub open spec fn pending_active(&self, ledger_seq: u32) -> bool {
        match self.spec_pending() {
            Some(r) => r.status == RotationStatus::Pending && ledger_seq <= r.expires_at,
            None => false,
        }
    }

    /// The error a proposal meets, if any.
    pub open spec fn propose_error(&self, current_admin: Address, new_admin: Address, ledger_seq: u32) -> Option<
        RotationError,
    > {
        let c = self.spec_config();
        if current_admin == new_admin {
            Some(RotationError::SameAdmin)
        } else if self.pending_active(ledger_seq) {
            Some(RotationError::AlreadyPending)
        } else if self.spec_last() > 0 && self.spec_last() + c.cooldown_ledgers > u32::MAX {
            Some(RotationError::Overflow)
        } else if self.spec_last() > 0 && ledger_seq < self.spec_last() + c.cooldown_ledgers {
            Some(RotationError::CooldownActive)
        } else if ledger_seq + c.timelock_ledgers + c.confirmation_window_ledgers > u32::MAX {
            Some(RotationError::Overflow)
        } else {
            None
        }
    }

    /// The request a successful proposal stores.
    pub open spec fn proposed(&self, current_admin: Address, new_admin: Address, ledger_seq: u32) -> RotationRequest {
        let c = self.spec_config();
        RotationRequest {
            old_admin: current_admin,
            new_admin,
            status: RotationStatus::Pending,
            proposed_at: ledger_seq,
            timelock_until: (ledger_seq + c.timelock_ledgers) as u32,
            expires_at: (ledger_seq + c.timelock_ledgers + c.confirmation_window_ledgers) as u32,
            is_emergency: false,
        }
    }

    /// The error a confirmation meets, if any.
    pub open spec fn confirm_error(&self, new_admin: Address, ledger_seq: u32) -> Option<RotationError> {
        match self.spec_pending() {
            None => Some(RotationError::NoPending),
            Some(r) => if r.status != RotationStatus::Pending {
                Some(RotationError::NotPending)
            } else if new_admin != r.new_admin {
                Some(RotationError::NotProposedAdmin)
            } else if ledger_seq < r.timelock_until {
                Some(RotationError::TimelockActive)
            } else if ledger_seq > r.expires_at {
                Some(RotationError::WindowExpired)
            } else if self.spec_count() == u32::MAX {
                Some(RotationError::Overflow)
            } else {
                None
            },
        }
    }

    /// The error a cancellation meets, if any.
    pub open spec fn cancel_error(&self, current_admin: Address) -> Option<RotationError> {
        match self.spec_pending() {
            None => Some(RotationError::NoPending),
            Some(r) => if r.status != RotationStatus::Pending {
                Some(RotationError::NotPending)
            } else if current_admin != r.old_admin {
                Some(RotationError::NotCurrentAdmin)
            } else {
                None
            },
        }
    }

    /// `self` is `old` after completing a rotation recorded as `rec` at
    /// `ledger_seq`: history extended (oldest entries dropped beyond the
    /// bound), last-rotation ledger and count updated, nothing pending.
    pub open spec fn finalized(&self, old: &Self, rec: RotationRecord, ledger_seq: u32) -> bool {
        &&& self.spec_history() == keep_latest(old.spec_history().push(rec))
        &&& self.spec_last() == ledger_seq
        &&& self.spec_count() == old.spec_count() + 1
        &&& self.spec_pending() is None
        &&& self.stored_config() == old.stored_config()
    }

    /// Fresh state: defaults, nothing pending, no history.
    pub fn new() -> (r: Self)
        ensures
            r.wf(),
            r.spec_pending() is None,
            r.spec_history().len() == 0,
            r.stored_config() is None,
            r.spec_last() == 0,
            r.spec_count() == 0,
    {
        KeyRotationState {
            pending: None,
            history: Vec::new(),
            config: None,
            last_rotation_ledger: None,
            rotation_count: None,
        }
    }

    /// Whether a storage slot holds a value.
    pub fn is_set(&self, key: KeyRotationKey) -> (r: bool)
        ensures
            r == self.slot_set(key),
    {
        match key {
            KeyRotationKey::PendingRotation => self.pending.is_some(),
            KeyRotationKey::RotationHistory => self.rotation_count.is_some(),
            KeyRotationKey::RotationConfig => self.config.is_some(),
            KeyRotationKey::LastRotationLedger => self.last_rotation_ledger.is_some(),
            KeyRotationKey::RotationCount => self.rotation_count.is_some(),
        }
    }

    /// The timing rules in force (defaults when none are stored).
    pub fn get_rotation_config(&self) -> (r: RotationConfig)
        ensures
            r == self.spec_config(),
    {
        match self.config {
            Some(c) => c,
            None => RotationConfig {
                timelock_ledgers: DEFAULT_TIMELOCK_LEDGERS,
                confirmation_window_ledgers: DEFAULT_CONFIRMATION_WINDOW,
                cooldown_ledgers: DEFAULT_COOLDOWN_LEDGERS,
            },
        }
    }

    /// Store timing rules; timelock and window must be at least one ledger.
    pub fn set_rotation_config(&mut self, config: RotationConfig) -> (r: Result<(), RotationError>)
        requires
            old(self).wf(),
        ensures
            final(self).wf(),
            config.timelock_ledgers == 0 ==> r == Err::<(), _>(RotationError::ZeroTimelock),
            config.timelock_ledgers > 0 && config.confirmation_window_ledgers == 0 ==> r == Err::<
                (),
                _,
            >(RotationError::ZeroWindow),
            r is Err ==> *final(self) == *old(self),
            config.timelock_ledgers > 0 && config.confirmation_window_ledgers > 0 ==> {
                &&& r is Ok
                &&& final(self).stored_config() == Some(config)
                &&& final(self).spec_pending() == old(self).spec_pending()
                &&& final(self).spec_history() == old(self).spec_history()
                &&& final(self).spec_last() == old(self).spec_last()
                &&& final(self).spec_count() == old(self).spec_count()
            },
    {
        if config.timelock_ledgers == 0 {
            return Err(RotationError::ZeroTimelock);
        }
        if config.confirmation_window_ledgers == 0 {
            return Err(RotationError::ZeroWindow);
        }
        self.config = Some(config);
        Ok(())
    }

    /// Whether a rotation is pending and still confirmable at `ledger_seq`.
    pub fn has_pending_rotation(&self, ledger_seq: u32) -> (r: bool)
        ensures
            r == self.pending_active(ledger_seq),
    {
        match self.pending {
            Some(req) => req.status == RotationStatus::Pending && ledger_seq <= req.expires_at,
            None => false,
        }
    }

    /// Begin a rotation from `current_admin` to `new_admin`; the new admin
    /// may confirm once the timelock has passed.
    pub fn propose_rotation(&mut self, current_admin: Address, new_admin: Address, ledger_seq: u32) -> (r:
        Result<RotationRequest, RotationError>)
        requires
            old(self).wf(),
        ensures
            final(self).wf(),
            match old(self).propose_error(current_admin, new_admin, ledger_seq) {
                Some(e) => r == Err::<RotationRequest, _>(e) && *final(self) == *old(self),
                None => {
                    let req = old(self).proposed(current_admin, new_admin, ledger_seq);
                    &&& r == Ok::<RotationRequest, RotationError>(req)
                    &&& final(self).spec_pending() == Some(req)
                    &&& final(self).spec_history() == old(self).spec_history()
                    &&& final(self).stored_config() == old(self).stored_config()
                    &&& final(self).spec_last() == old(self).spec_last()
                    &&& final(self).spec_count() == old(self).spec_count()
                },
            },
    {
        if current_admin == new_admin {
            return Err(RotationError::SameAdmin);
        }
        if self.has_pending_rotation(ledger_seq) {
            return Err(RotationError::AlreadyPending);
        }
        let config = self.get_rotation_config();
        let last = self.get_last_rotation_ledger();
        if last > 0 {
            if last as u64 + config.cooldown_ledgers as u64 > 0xffff_ffffu64 {
                return Err(RotationError::Overflow);
            }
            if ledger_seq < last + config.cooldown_ledgers {
                return Err(RotationError::CooldownActive);
            }
        }
        if ledger_seq as u64 + config.timelock_ledgers as u64 + config.confirmation_window_ledgers as u64
            > 0xffff_ffffu64 {
            return Err(RotationError::Overflow);
        }
        let request = RotationRequest {
            old_admin: current_admin,
            new_admin,
            status: RotationStatus::Pending,
            proposed_at: ledger_seq,
            timelock_until: ledger_seq + config.timelock_ledgers,
            expires_at: ledger_seq + config.timelock_ledgers + config.confirmation_window_ledgers,
            is_emergency: false,
        };
        self.pending = Some(request);
        Ok(request)
    }

    /// Record a completed rotation at `ledger_seq`.
    fn finalize_rotation(&mut self, request: RotationRequest, ledger_seq: u32) -> (r: Result<(), RotationError>)
        requires
            old(self).wf(),
        ensures
            final(self).wf(),
            old(self).spec_count() == u32::MAX ==> r == Err::<(), _>(RotationError::Overflow)
                && *final(self) == *old(self),
            old(self).spec_count() < u32::MAX ==> r is Ok && final(self).finalized(
                &*old(self),
                RotationRecord {
                    old_admin: request.old_admin,
                    new_admin: request.new_admin,
                    completed_at: ledger_seq,
                    is_emergency: request.is_emergency,
                },
                ledger_seq,
            ),
    {
        let count = self.get_rotation_count();
        if count == u32::MAX {
            return Err(RotationError::Overflow);
        }
        let record = RotationRecord {
            old_admin: request.old_admin,
            new_admin: request.new_admin,
            completed_at: ledger_seq,
            is_emergency: request.is_emergency,
        };
        let mut history = copy_records(&self.history);
        history.push(record);
        let ghost full = history@;
        while history.len() > MAX_ROTATION_HISTORY as usize
            invariant
                history@.len() <= full.len(),
                history@ == full.subrange(full.len() - history@.len(), full.len() as int),
                full.len() > MAX_ROTATION_HISTORY ==> history@.len() >= MAX_ROTATION_HISTORY,
                full.len() <= MAX_ROTATION_HISTORY ==> history@.len() == full.len(),
            decreases history@.len(),
        {
            history.remove(0);
            assert(history@ =~= full.subrange(full.len() - history@.len(), full.len() as int));
        }
        assert(full.subrange(0, full.len() as int) =~= full);
        self.history = history;
        self.last_rotation_ledger = Some(ledger_seq);
        self.rotation_count = Some(count + 1);
        self.pending = None;
        Ok(())
    }

    /// The proposed new admin accepts the pending rotation, after the
    /// timelock and within the confirmation window.
    pub fn confirm_rotation(&mut self, new_admin: Address, ledger_seq: u32) -> (r: Result<
        RotationRequest,
        RotationError,
    >)
        requires
            old(self).wf(),
        ensures
            final(self).wf(),
            match old(self).confirm_error(new_admin, ledger_seq) {
                Some(e) => r == Err::<RotationRequest, _>(e) && *final(self) == *old(self),
                None => {
                    let req = old(self).spec_pending().unwrap();
                    &&& r == Ok::<RotationRequest, RotationError>(
                        RotationRequest { status: RotationStatus::Completed, ..req },
                    )
                    &&& final(self).finalized(
                        &*old(self),
                        RotationRecord {
                            old_admin: req.old_admin,
                            new_admin: req.new_admin,
                            completed_at: ledger_seq,
                            is_emergency: false,
                        },
                        ledger_seq,
                    )
                },
            },
    {
        let request = match self.pending {
            Some(r) => r,
            None => {
                return Err(RotationError::NoPending);
            },
        };
        if request.status != RotationStatus::Pending {
            return Err(RotationError::NotPending);
        }
        if new_admin != request.new_admin {
            return Err(RotationError::NotProposedAdmin);
        }
        if ledger_seq < request.timelock_until {
            return Err(RotationError::TimelockActive);
        }
        if ledger_seq > request.expires_at {
            return Err(RotationError::WindowExpired);
        }
        let done = RotationRequest { status: RotationStatus::Completed, ..request };
        self.finalize_rotation(done, ledger_seq)?;
        Ok(done)
    }

    /// The current admin withdraws the pending rotation.
    pub fn cancel_rotation(&mut self, current_admin: Address) -> (r: Result<
        RotationRequest,
        RotationError,
    >)
        requires
            old(self).wf(),
        ensures
            final(self).wf(),
            match old(self).cancel_error(current_admin) {
                Some(e) => r == Err::<RotationRequest, _>(e) && *final(self) == *old(self),
                None => {
                    &&& r == Ok::<RotationRequest, RotationError>(
                        RotationRequest {
                            status: RotationStatus::Cancelled,
                            ..old(self).spec_pending().unwrap()
                        },
                    )
                    &&& final(self).spec_pending() is None
                    &&& final(self).spec_history() == old(self).spec_history()
                    &&& final(self).stored_config() == old(self).stored_config()
                    &&& final(self).spec_last() == old(self).spec_last()
                    &&& final(self).spec_count() == old(self).spec_count()
                },
            },
    {
        let request = match self.pending {
            Some(r) => r,
            None => {
                return Err(RotationError::NoPending);
            },
        };
        if request.status != RotationStatus::Pending {
            return Err(RotationError::NotPending);
        }
        if current_admin != request.old_admin {
            return Err(RotationError::NotCurrentAdmin);
        }
        self.pending = None;
        Ok(RotationRequest { status: RotationStatus::Cancelled, ..request })
    }

    /// Rotate at once, without timelock or cooldown, dropping any pending
    /// rotation.
    pub fn emergency_rotate(&mut self, old_admin: Address, new_admin: Address, ledger_seq: u32) -> (r:
        Result<RotationRequest, RotationError>)
        requires
            old(self).wf(),
        ensures
            final(self).wf(),
            old_admin == new_admin ==> r == Err::<RotationRequest, _>(RotationError::SameAdmin),
            old_admin != new_admin && old(self).spec_count() == u32::MAX ==> r == Err::<
                RotationRequest,
                _,
            >(RotationError::Overflow),
            r is Err ==> *final(self) == *old(self),
            old_admin != new_admin && old(self).spec_count() < u32::MAX ==> {
                &&& r == Ok::<RotationRequest, RotationError>(
                    RotationRequest {
                        old_admin,
                        new_admin,
                        status: RotationStatus::Completed,
                        proposed_at: ledger_seq,
                        timelock_until: ledger_seq,
                        expires_at: ledger_seq,
                        is_emergency: true,
                    },
                )
                &&& final(self).finalized(
                    &*old(self),
                    RotationRecord {
                        old_admin,
                        new_admin,
                        completed_at: ledger_seq,
                        is_emergency: true,
                    },
                    ledger_seq,
                )
            },
    {
        if old_admin == new_admin {
            return Err(RotationError::SameAdmin);
        }
        let request = RotationRequest {
            old_admin,
            new_admin,
            status: RotationStatus::Completed,
            proposed_at: ledger_seq,
            timelock_until: ledger_seq,
            expires_at: ledger_seq,
            is_emergency: true,
        };
        self.finalize_rotation(request, ledger_seq)?;
        Ok(request)
    }

    pub fn get_pending_rotation(&self) -> (r: Option<RotationRequest>)
        ensures
            r == self.spec_pending(),
    {
        self.pending
    }

    /// Completed rotations, oldest first (at most the latest 50).
    pub fn get_rotation_history(&self) -> (r: Vec<RotationRecord>)
        ensures
            r@ == self.spec_history(),
    {
        copy_records(&self.history)
    }

    pub fn get_rotation_count(&self) -> (r: u32)
        ensures
            r == self.spec_count(),
    {
        match self.rotation_count {
            Some(c) => c,
            None => 0,
        }
    }

    /// Ledger of the last completed rotation; 0 if none.
    pub fn get_last_rotation_ledger(&self) -> (r: u32)
        ensures
            r == self.spec_last(),
    {
        match self.last_rotation_ledger {
            Some(l) => l,
            None => 0,
        }
    }
}

/// A freshly proposed rotation cannot be confirmed in the ledger it was
/// proposed in: the timelock ends later, and the window after it.
pub proof fn law_proposal_starts_timelocked(
    s: &KeyRotationState,
    current_admin: Address,
    new_admin: Address,
    ledger_seq: u32,
)
    requires
        s.wf(),
        s.propose_error(current_admin, new_admin, ledger_seq) is None,
    ensures
        s.proposed(current_admin, new_admin, ledger_seq).timelock_until > ledger_seq,
        s.proposed(current_admin, new_admin, ledger_seq).expires_at > s.proposed(
            current_admin,
            new_admin,
            ledger_seq,
        ).timelock_until,
{
}

/// Only the proposed admin confirms, and only between the end of the
/// timelock and the end of the window.
pub proof fn law_confirmation_needs_consent_and_timing(
    s: &KeyRotationState,
    who: Address,
    ledger_seq: u32,
)
    requires
        s.confirm_error(who, ledger_seq) is None,
    ensures
        s.spec_pending() is Some,
        who == s.spec_pending().unwrap().new_admin,
        s.spec_pending().unwrap().timelock_until <= ledger_seq <= s.spec_pending().unwrap().expires_at,
{
}

/// A rotation with nothing pending, such as one just cancelled or
/// completed, cannot be confirmed or cancelled.
pub proof fn law_nothing_pending_nothing_to_confirm(
    s: &KeyRotationState,
    who: Address,
    ledger_seq: u32,
)
    requires
        s.spec_pending() is None,
    ensures
        s.confirm_error(who, ledger_seq) == Some(RotationError::NoPending),
        s.cancel_error(who) == Some(RotationError::NoPending),
{
}

/// Completing a rotation appends its record as the newest history entry,
/// keeps the history within its bound by dropping the oldest entries (the
/// history is the last `min(len + 1, 50)` entries of the old history
/// followed by the new record), counts the rotation once and leaves nothing
/// pending.
pub proof fn law_history_records_newest_last(
    before: &KeyRotationState,
    after: &KeyRotationState,
    rec: RotationRecord,
    ledger_seq: u32,
)
    requires
        before.wf(),
        after.finalized(before, rec, ledger_seq),
    ensures
        after.spec_history().len() <= MAX_ROTATION_HISTORY,
        after.spec_history().len() > 0,
        after.spec_history().last() == rec,
        after.spec_count() == before.spec_count() + 1,
        after.spec_pending() is None,
        after.spec_history().len() == if before.spec_history().len() + 1 > MAX_ROTATION_HISTORY {
            MAX_ROTATION_HISTORY as int
        } else {
            before.spec_history().len() + 1int
        },
        forall|i: int|
            0 <= i < after.spec_history().len() ==> #[trigger] after.spec_history()[i]
                == before.spec_history().push(rec)[before.spec_history().len() + 1
                - after.spec_history().len() + i],
{
}

/// After a rotation completed at ledger `last > 0`, no new rotation can be
/// proposed before the cooldown has passed.
pub proof fn law_cooldown_between_rotations(
    s: &KeyRotationState,
    current_admin: Address,
    new_admin: Address,
    ledger_seq: u32,
)
    requires
        s.spec_last() > 0,
        ledger_seq < s.spec_last() + s.spec_config().cooldown_ledgers,
    ensures
        s.propose_error(current_admin, new_admin, ledger_seq) is Some,
{
}

} // verus!
