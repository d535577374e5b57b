//! Nonce-based replay protection. Each (actor, channel) pair has a counter
//! starting at 0; a call must present exactly the current value, which is
//! then incremented. A nonce is therefore accepted at most once, in order.
use vstd::prelude::*;
use crate::store::Store;
use crate::types::Address;

verus! {

/// Storage slot of a nonce counter.
#[derive(Clone, Copy, Debug, PartialEq, Eq, Structural)]
pub enum ReplayKey {
    Nonce(Address, u32),
}

/// Why a nonce was refused.
#[derive(Clone, Copy, Debug, PartialEq, Eq, Structural)]
pub enum ReplayError {
    NonceMismatch,
    NonceOverflow,
}

/// Nonce counters.
pub struct NonceStore {
    nonces: Store<(u64, u32), u64>,
}

impl NonceStore {
    /// Current nonce of (actor, channel); 0 before any call.
    pub closed spec fn nonce(&self, actor: Address, channel: u32) -> u64 {
        if self.nonces@.contains_key((actor, channel)) {
            self.nonces@[(actor, channel)]
        } else {
            0
        }
    }

    /// The error presenting `provided` meets, if any.
    pub open spec fn nonce_error(&self, actor: Address, channel: u32, provided: u64) -> Option<ReplayError> {
        if provided != self.nonce(actor, channel) {
            Some(ReplayError::NonceMismatch)
        } else if self.nonce(actor, channel) == u64::MAX {
            Some(ReplayError::NonceOverflow)
        } else {
            None
        }
    }

    /// No nonce used yet.
    pub fn new() -> (r: Self)
        ensures
            forall|a: Address, c: u32| r.nonce(a, c) == 0,
    {
        NonceStore { nonces: Store::new() }
    }

    /// Counters restored from storage that holds the single value `nonce`
    /// for (actor, channel); every other pair is still at 0.
    pub fn with_nonce(actor: Address, channel: u32, nonce: u64) -> (r: Self)
        ensures
            forall|a: Address, c: u32| #[trigger]
                r.nonce(a, c) == if a == actor && c == channel {
                    nonce
                } else {
                    0
                },
            forall|k: ReplayKey| #[trigger] r.slot_set(k) <==> k == ReplayKey::Nonce(actor, channel),
    {
        let mut nonces = Store::new();
        nonces.set((actor, channel), nonce);
        NonceStore { nonces }
    }

    /// Whether a storage slot holds a value.
    pub closed spec fn slot_set(&self, key: ReplayKey) -> bool {
        match key {
            ReplayKey::Nonce(actor, channel) => self.nonces@.contains_key((actor, channel)),
        }
    }

    /// Whether a storage slot holds a value.
    pub fn is_set(&self, key: ReplayKey) -> (r: bool)
        ensures
            r == self.slot_set(key),
    {
        match key {
            ReplayKey::Nonce(actor, channel) => self.nonces.has(&(actor, channel)),
        }
    }

    /// Current nonce of (actor, channel).
    pub fn get_nonce(&self, actor: Address, channel: u32) -> (r: u64)
        ensures
            r == self.nonce(actor, channel),
    {
        match self.nonces.get(&(actor, channel)) {
            Some(n) => *n,
            None => 0,
        }
    }

    /// The nonce the next call of (actor, channel) must present.
    pub fn peek_next_nonce(&self, actor: Address, channel: u32) -> (r: u64)
        ensures
            r == self.nonce(actor, channel),
    {
        self.get_nonce(actor, channel)
    }

    /// Accept `provided` if it is the current nonce of (actor, channel),
    /// and advance the counter.
    pub fn verify_and_increment_nonce(&mut self, actor: Address, channel: u32, provided: u64) -> (r:
        Result<(), ReplayError>)
        ensures
            match old(self).nonce_error(actor, channel, provided) {
                Some(e) => r == Err::<(), _>(e) && *final(self) == *old(self),
                None => r is Ok && forall|a: Address, c: u32| #[trigger]
                    final(self).nonce(a, c) == if a == actor && c == channel {
                        (provided + 1) as u64
                    } else {
                        old(self).nonce(a, c)
                    },
            },
    {
        let current = self.get_nonce(actor, channel);
        if provided != current {
            return Err(ReplayError::NonceMismatch);
        }
        if current == u64::MAX {
            return Err(ReplayError::NonceOverflow);
        }
        self.nonces.set((actor, channel), current + 1);
        Ok(())
    }
}

/// A nonce is accepted at most once: after it was accepted, presenting it
/// again is refused, and so is every nonce below the counter.
pub proof fn law_nonce_never_replays(
    before: &NonceStore,
    after: &NonceStore,
    actor: Address,
    channel: u32,
    provided: u64,
    again: u64,
)
    requires
        before.nonce_error(actor, channel, provided) is None,
        forall|a: Address, c: u32| #[trigger]
            after.nonce(a, c) == if a == actor && c == channel {
                (provided + 1) as u64
            } else {
                before.nonce(a, c)
            },
        again <= provided,
    ensures
        after.nonce_error(actor, channel, again) == Some(ReplayError::NonceMismatch),
{
    assert(after.nonce(actor, channel) == provided + 1);
}

/// Nonce streams are independent: accepting a nonce of one (actor,
/// channel) leaves every other pair's counter unchanged.
pub proof fn law_nonce_streams_independent(
    before: &NonceStore,
    after: &NonceStore,
    actor: Address,
    channel: u32,
    provided: u64,
    other_actor: Address,
    other_channel: u32,
)
    requires
        forall|a: Address, c: u32| #[trigger]
            after.nonce(a, c) == if a == actor && c == channel {
                (provided + 1) as u64
            } else {
                before.nonce(a, c)
            },
        other_actor != actor || other_channel != channel,
    ensures
        after.nonce(other_actor, other_channel) == before.nonce(other_actor, other_channel),
{
    assert(after.nonce(other_actor, other_channel) == before.nonce(other_actor, other_channel));
}

} // verus!
