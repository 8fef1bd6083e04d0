//! Rate-limit bookkeeping for the ClickUp API. Times are milliseconds on a
//! monotonic clock that the caller reads; Unix times are seconds.
use vstd::prelude::*;

verus! {

/// Tracks ClickUp API rate-limit state and pauses requests when exhausted.
pub struct RateLimiter {
    remaining: u64,
    reset_at_ms: u64,
}

impl RateLimiter {
    /// The number of requests left in the current window.
    pub closed spec fn spec_remaining(self) -> u64 {
        self.remaining
    }

    /// When the current window resets, in milliseconds on the caller's clock.
    pub closed spec fn reset_at(self) -> u64 {
        self.reset_at_ms
    }

    /// Creates a new rate limiter with a generous initial allowance, its
    /// window resetting now (`now_ms`).
    pub fn new(now_ms: u64) -> (r: Self)
        ensures
            r.spec_remaining() == 100,
            r.reset_at() == now_ms,
    {
        RateLimiter { remaining: 100, reset_at_ms: now_ms }
    }

    /// Returns the current remaining request count.
    pub fn remaining(&self) -> (r: u64)
        ensures
            r == self.spec_remaining(),
    {
        self.remaining
    }

    /// How long to wait before the next request, at `now_ms`: until the window
    /// resets when no requests remain and it has not reset yet; else `None`.
    pub fn wait_time(&self, now_ms: u64) -> (r: Option<u64>)
        ensures
            (self.spec_remaining() == 0 && now_ms < self.reset_at()) ==> r == Some((self.reset_at() - now_ms) as u64),
            !(self.spec_remaining() == 0 && now_ms < self.reset_at()) ==> r is None,
    {
        if self.remaining == 0 && now_ms < self.reset_at_ms {
            Some(self.reset_at_ms - now_ms)
        } else {
            None
        }
    }

    /// After waiting for the window to reset, assume it has: the full
    /// allowance is available again.
    pub fn after_wait(&mut self)
        ensures
            final(self).spec_remaining() == 100,
            final(self).reset_at() == old(self).reset_at(),
    {
        self.remaining = 100;
    }

    /// Updates the limiter from API response headers.
    ///
    /// `remaining` is the value of `X-RateLimit-Remaining`.
    /// `reset_timestamp` is the Unix timestamp from `X-RateLimit-Reset`;
    /// `now_secs` is the current Unix time and `now_ms` the current time on
    /// the caller's clock. The window resets when the header says, or now if
    /// that has passed; a reset beyond what the clock can count is taken as
    /// its last instant.
    pub fn update_from_headers(&mut self, remaining: u64, reset_timestamp: u64, now_secs: u64, now_ms: u64)
        ensures
            final(self).spec_remaining() == remaining,
            final(self).reset_at() == reset_instant(reset_timestamp, now_secs, now_ms),
    {
        self.remaining = remaining;
        let delta: u64 = if reset_timestamp > now_secs { reset_timestamp - now_secs } else { 0 };
        self.reset_at_ms = match delta.checked_mul(1000) {
            Some(d) => now_ms.saturating_add(d),
            None => u64::MAX,
        };
    }
}

/// When a window that the headers say resets at Unix second `reset_timestamp`
/// resets on the caller's clock: `now_ms` plus the seconds still to go (none
/// when the reset has passed), capped at the clock's largest value.
pub open spec fn reset_instant(reset_timestamp: u64, now_secs: u64, now_ms: u64) -> u64 {
    let delta: int = if reset_timestamp > now_secs { reset_timestamp - now_secs } else { 0 };
    let total = now_ms + delta * 1000;
    if total > u64::MAX { u64::MAX } else { total as u64 }
}

} // verus!
