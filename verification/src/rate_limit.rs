//! Per-business rate limiting of attestation submissions over a sliding
//! time window: within any `window_seconds`, a business submits at most
//! `max_submissions` attestations.
//!
//! A submission first passes `check_rate_limit` (which also forgets
//! timestamps that left the window) and, once stored, is recorded with
//! `record_submission`. Without an enabled configuration nothing is
//! limited.
use vstd::prelude::*;
use crate::store::Store;
use crate::types::Address;

verus! {

/// Rate-limit configuration.
#[derive(Clone, Copy, Debug, PartialEq, Eq, Structural)]
pub struct RateLimitConfig {
    /// Submissions allowed within one window (at least 1).
    pub max_submissions: u32,
    /// Window length in seconds (at least 1).
    pub window_seconds: u64,
    /// Master switch.
    pub enabled: bool,
}

/// Why a rate-limit call was refused.
#[derive(Clone, Copy, Debug, PartialEq, Eq, Structural)]
pub enum RateLimitError {
    ZeroMaxSubmissions,
    ZeroWindow,
    RateLimitExceeded,
    Overflow,
}

/// Oldest timestamp that has left the window at `now`.
pub open spec fn cutoff(now: u64, window_seconds: u64) -> u64 {
    if now >= window_seconds {
        (now - window_seconds) as u64
    } else {
        0
    }
}

/// Timestamps of `s` still inside the window, in order.
pub open spec fn in_window(s: Seq<u64>, cut: u64) -> Seq<u64> {
    s.filter(|t: u64| t > cut)
}

/// Rate-limit storage.
pub struct RateLimiter {
    config: Option<RateLimitConfig>,
    timestamps: Store<u64, Vec<u64>>,
}

impl RateLimiter {
    pub closed spec fn spec_config(&self) -> Option<RateLimitConfig> {
        self.config
    }

    /// Recorded submission timestamps of `b`, oldest first.
    pub closed spec fn timestamps_of(&self, b: Address) -> Seq<u64> {
        if self.timestamps@.contains_key(b) {
            self.timestamps@[b]@
        } else {
            Seq::empty()
        }
    }

    /// The enabled configuration, if limiting is on.
    pub open spec fn active_config(&self) -> Option<RateLimitConfig> {
        match self.spec_config() {
            Some(c) => if c.enabled {
                Some(c)
            } else {
                None
            },
            None => None,
        }
    }

    /// Submissions of `b` inside the window at `now` (0 when limiting is
    /// off).
    pub open spec fn count_at(&self, b: Address, now: u64) -> nat {
        match self.active_config() {
            Some(c) => in_window(self.timestamps_of(b), cutoff(now, c.window_seconds)).len(),
            None => 0,
        }
    }

    /// Invariant: a stored configuration is valid and every timestamp
    /// list fits a `u32` count.
    pub open spec fn wf(&self) -> bool {
        &&& self.spec_config() matches Some(c) ==> c.max_submissions > 0 && c.window_seconds > 0
        &&& forall|b: Address| #[trigger] self.timestamps_of(b).len() <= u32::MAX
    }

    /// No configuration, no timestamps.
    pub fn new() -> (r: Self)
        ensures
            r.wf(),
            r.spec_config() is None,
            forall|b: Address| r.timestamps_of(b).len() == 0,
    {
        RateLimiter { config: None, timestamps: Store::new() }
    }

    /// Store a configuration; both limits must be positive.
    pub fn set_rate_limit_config(&mut self, config: RateLimitConfig) -> (r: Result<(), RateLimitError>)
        requires
            old(self).wf(),
        ensures
            final(self).wf(),
            config.max_submissions == 0 ==> r == Err::<(), _>(RateLimitError::ZeroMaxSubmissions),
            config.max_submissions > 0 && config.window_seconds == 0 ==> r == Err::<(), _>(
                RateLimitError::ZeroWindow,
            ),
            r is Err ==> *final(self) == *old(self),
            config.max_submissions > 0 && config.window_seconds > 0 ==> r is Ok && final(self).spec_config()
                == Some(config) && forall|b: Address| #[trigger] final(self).timestamps_of(b) == old(self).timestamps_of(b),
    {
        if config.max_submissions == 0 {
            return Err(RateLimitError::ZeroMaxSubmissions);
        }
        if config.window_seconds == 0 {
            return Err(RateLimitError::ZeroWindow);
        }
        self.config = Some(config);
        proof {
            assert forall|b: Address| #[trigger] self.timestamps_of(b).len() <= u32::MAX by {
                assert(self.timestamps_of(b) == old(self).timestamps_of(b));
            }
        }
        Ok(())
    }

    pub fn get_rate_limit_config(&self) -> (r: Option<RateLimitConfig>)
        ensures
            r == self.spec_config(),
    {
        self.config
    }

    fn active(&self) -> (r: Option<RateLimitConfig>)
        ensures
            r == self.active_config(),
    {
        match self.config {
            Some(c) => if c.enabled {
                Some(c)
            } else {
                None
            },
            None => None,
        }
    }

    /// The timestamps of `business` after `cut`, in order.
    fn pruned(&self, business: Address, cut: u64) -> (r: Vec<u64>)
        ensures
            r@ == in_window(self.timestamps_of(business), cut),
    {
        let ghost pred = |t: u64| t > cut;
        let ghost s = self.timestamps_of(business);
        let stored: Vec<u64> = match self.timestamps.get(&business) {
            Some(v) => crate::types::copy_vec(v),
            None => Vec::new(),
        };
        let mut out: Vec<u64> = Vec::new();
        let mut i: usize = 0;
        while i < stored.len()
            invariant
                i <= stored@.len(),
                stored@ == s,
                pred == (|t: u64| t > cut),
                out@ == s.subrange(0, i as int).filter(pred),
            decreases stored@.len() - i,
        {
            let t = stored[i];
            proof {
                assert(s.subrange(0, i + 1) =~= s.subrange(0, i as int).push(s[i as int]));
                s.subrange(0, i as int).lemma_filter_push(s[i as int], pred);
            }
            if t > cut {
                out.push(t);
            }
            i = i + 1;
        }
        assert(s.subrange(0, s.len() as int) =~= s);
        out
    }

    proof fn lemma_same_timestamps_wf(old: &Self, new: &Self, b: Address)
        requires
            old.wf(),
            new.spec_config() == old.spec_config(),
            new.timestamps_of(b).len() <= u32::MAX,
            forall|x: Address| x != b ==> #[trigger] new.timestamps_of(x) == old.timestamps_of(x),
        ensures
            new.wf(),
    {
        assert forall|x: Address| #[trigger] new.timestamps_of(x).len() <= u32::MAX by {
            if x != b {
                assert(new.timestamps_of(x) == old.timestamps_of(x));
            }
        }
    }

    /// Refuse a submission of `business` at time `now` when the window
    /// already holds `max_submissions` of its submissions; forget the
    /// timestamps that have left the window.
    pub fn check_rate_limit(&mut self, business: Address, now: u64) -> (r: Result<(), RateLimitError>)
        requires
            old(self).wf(),
        ensures
            final(self).wf(),
            match old(self).active_config() {
                None => r is Ok && *final(self) == *old(self),
                Some(c) => {
                    let kept = in_window(old(self).timestamps_of(business), cutoff(now, c.window_seconds));
                    if kept.len() >= c.max_submissions {
                        r == Err::<(), _>(RateLimitError::RateLimitExceeded) && *final(self) == *old(self)
                    } else {
                        &&& r is Ok
                        &&& final(self).timestamps_of(business) == kept
                        &&& forall|x: Address| x != business ==> #[trigger] final(self).timestamps_of(x)
                            == old(self).timestamps_of(x)
                        &&& final(self).spec_config() == old(self).spec_config()
                    }
                },
            },
    {
        let c = match self.active() {
            Some(c) => c,
            None => {
                return Ok(());
            },
        };
        let cut = now.saturating_sub(c.window_seconds);
        let active = self.pruned(business, cut);
        proof {
            lemma_filter_full(self.timestamps_of(business), |t: u64| t > cut);
            self.timestamps_of(business).lemma_filter_len(|t: u64| t > cut);
        }
        if active.len() as u64 >= c.max_submissions as u64 {
            return Err(RateLimitError::RateLimitExceeded);
        }
        self.timestamps.set(business, active);
        proof {
            Self::lemma_same_timestamps_wf(&*old(self), &*self, business);
        }
        Ok(())
    }

    /// Record a submission of `business` at time `now`, forgetting the
    /// timestamps that have left the window.
    pub fn record_submission(&mut self, business: Address, now: u64) -> (r: Result<(), RateLimitError>)
        requires
            old(self).wf(),
        ensures
            final(self).wf(),
            match old(self).active_config() {
                None => r is Ok && *final(self) == *old(self),
                Some(c) => {
                    let kept = in_window(old(self).timestamps_of(business), cutoff(now, c.window_seconds));
                    if kept.len() >= u32::MAX {
                        r == Err::<(), _>(RateLimitError::Overflow) && *final(self) == *old(self)
                    } else {
                        &&& r is Ok
                        &&& final(self).timestamps_of(business) == kept.push(now)
                        &&& forall|x: Address| x != business ==> #[trigger] final(self).timestamps_of(x)
                            == old(self).timestamps_of(x)
                        &&& final(self).spec_config() == old(self).spec_config()
                    }
                },
            },
    {
        let c = match self.active() {
            Some(c) => c,
            None => {
                return Ok(());
            },
        };
        let cut = now.saturating_sub(c.window_seconds);
        let mut updated = self.pruned(business, cut);
        if updated.len() >= 0xffff_ffffusize {
            return Err(RateLimitError::Overflow);
        }
        updated.push(now);
        self.timestamps.set(business, updated);
        proof {
            Self::lemma_same_timestamps_wf(&*old(self), &*self, business);
        }
        Ok(())
    }

    /// Submissions of `business` inside the window at `now`; 0 when
    /// limiting is off.
    pub fn get_submission_count(&self, business: Address, now: u64) -> (r: u32)
        requires
            self.wf(),
        ensures
            r == self.count_at(business, now),
    {
        let c = match self.active() {
            Some(c) => c,
            None => {
                return 0;
            },
        };
        let cut = now.saturating_sub(c.window_seconds);
        let active = self.pruned(business, cut);
        proof {
            self.timestamps_of(business).lemma_filter_len(|t: u64| t > cut);
        }
        active.len() as u32
    }
}

proof fn lemma_filter_full(s: Seq<u64>, p: spec_fn(u64) -> bool)
    ensures
        s.filter(p).len() == s.len() ==> s.filter(p) == s,
    decreases s.len(),
{
    reveal(Seq::filter);
    if s.len() > 0 {
        let t = s.drop_last();
        lemma_filter_full(t, p);
        t.lemma_filter_len(p);
        if s.filter(p).len() == s.len() {
            assert(p(s.last()));
            assert(t.filter(p) == t);
            assert(s =~= t.push(s.last()));
        }
    }
}

/// A submission admitted by the check and then recorded keeps the window
/// within its limit: at most `max_submissions` submissions at `now`.
pub proof fn law_admitted_submission_stays_within_limit(
    before: &RateLimiter,
    after: &RateLimiter,
    b: Address,
    now: u64,
)
    requires
        before.active_config() is Some,
        before.count_at(b, now) < before.active_config().unwrap().max_submissions,
        after.spec_config() == before.spec_config(),
        after.timestamps_of(b) == in_window(
            before.timestamps_of(b),
            cutoff(now, before.active_config().unwrap().window_seconds),
        ).push(now),
    ensures
        after.count_at(b, now) <= after.active_config().unwrap().max_submissions,
{
    let c = before.active_config().unwrap();
    let cut = cutoff(now, c.window_seconds);
    let kept = in_window(before.timestamps_of(b), cut);
    kept.push(now).lemma_filter_len(|t: u64| t > cut);
}

/// Without an enabled configuration no submission is ever counted.
pub proof fn law_no_limit_when_disabled(l: &RateLimiter, b: Address, now: u64)
    requires
        l.spec_config() is None || !l.spec_config().unwrap().enabled,
    ensures
        l.count_at(b, now) == 0,
{
}

} // verus!
