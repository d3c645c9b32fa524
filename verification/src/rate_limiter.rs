//! A token-bucket rate limiter: a bucket of at most `rate` tokens refills
//! at `rate` tokens per minute; each admitted request takes one token.
//!
//! The clock and the lock around the bucket live outside the library: the
//! caller measures the whole seconds since the last admitted request and
//! hands them in.

use vstd::prelude::*;

verus! {

/// The bucket after `elapsed_secs` seconds of refill, capped at `rate`.
pub open spec fn refilled(token: u32, rate: u32, elapsed_secs: u32) -> nat {
    let refill = (token + (elapsed_secs * rate) / 60) as nat;
    if refill > rate {
        rate as nat
    } else {
        refill
    }
}

/// A token-bucket rate limiter.
pub struct RateLimiter {
    rate: u32,
    token: u32,
}

impl RateLimiter {
    /// The configured rate: the bucket's capacity, and its refill per
    /// minute.
    pub closed spec fn rate_of(self) -> u32 {
        self.rate
    }

    /// The tokens left in the bucket.
    pub closed spec fn tokens(self) -> u32 {
        self.token
    }

    /// The bucket never holds more than its capacity.
    pub open spec fn wf(self) -> bool {
        self.tokens() <= self.rate_of()
    }

    /// A full bucket admitting `rate` requests per minute.
    pub fn new(rate: u32) -> (r: RateLimiter)
        ensures
            r.wf(),
            r.rate_of() == rate,
            r.tokens() == rate,
    {
        RateLimiter { rate, token: rate }
    }

    /// The configured rate.
    pub fn rate(&self) -> (r: u32)
        ensures
            r == self.rate_of(),
    {
        self.rate
    }

    /// Decides one request, `elapsed_secs` seconds after the last admitted
    /// one: the bucket refills for the elapsed time, and the request is
    /// admitted exactly when a token is left, taking it.
    pub fn acquire(&mut self, elapsed_secs: u32) -> (granted: bool)
        requires
            old(self).wf(),
        ensures
            final(self).wf(),
            final(self).rate_of() == old(self).rate_of(),
            granted == (refilled(old(self).tokens(), old(self).rate_of(), elapsed_secs) > 0),
            granted ==> final(self).tokens() == refilled(
                old(self).tokens(),
                old(self).rate_of(),
                elapsed_secs,
            ) - 1,
            !granted ==> final(self).tokens() == old(self).tokens(),
    {
        proof {
            assert((elapsed_secs as u64) * (self.rate as u64) <= (u32::MAX as u64) * (
            u32::MAX as u64)) by (nonlinear_arith)
                requires
                    elapsed_secs <= u32::MAX,
                    self.rate <= u32::MAX,
            ;
        }
        let refill_wide: u64 = (self.token as u64) + ((elapsed_secs as u64) * (self.rate as u64))
            / 60;
        let new_token: u32 = if refill_wide > self.rate as u64 {
            self.rate
        } else {
            refill_wide as u32
        };
        proof {
            assert(new_token as nat == refilled(self.token, self.rate, elapsed_secs));
        }
        if new_token > 0 {
            self.token = new_token - 1;
            true
        } else {
            false
        }
    }
}

} // verus!
