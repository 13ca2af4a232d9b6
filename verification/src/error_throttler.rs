//! Exponential backoff for errors that can be retried.
use vstd::prelude::*;

verus! {

/// The smallest delay, in milliseconds.
pub const MIN_BACKOFF: u64 = 1_000;

/// The largest delay, in milliseconds.
pub const MAX_BACKOFF: u64 = 60_000;

/// The factor by which the delay grows.
pub const BACKOFF_MULTIPLIER: u64 = 2;

/// The delay that follows `delay`.
pub open spec fn next_delay(delay: int) -> int {
    if delay * BACKOFF_MULTIPLIER <= MAX_BACKOFF {
        delay * BACKOFF_MULTIPLIER
    } else {
        MAX_BACKOFF as int
    }
}

/// A delay that doubles with every error, from one second up to a minute.
#[derive(Debug, Clone, Copy, PartialEq, Eq, Structural)]
pub struct ErrorThrottler {
    current_delay: u64,
}

impl ErrorThrottler {
    /// The current delay in milliseconds.
    pub closed spec fn delay(self) -> int {
        self.current_delay as int
    }

    #[verifier::type_invariant]
    spec fn inv(self) -> bool {
        MIN_BACKOFF <= self.current_delay <= MAX_BACKOFF
    }

    /// A throttler at the smallest delay.
    pub fn new() -> (r: Self)
        ensures
            r.delay() == MIN_BACKOFF,
    {
        ErrorThrottler { current_delay: MIN_BACKOFF }
    }

    /// Goes back to the smallest delay.
    pub fn reset(&mut self)
        ensures
            final(self).delay() == MIN_BACKOFF,
    {
        self.current_delay = MIN_BACKOFF;
    }

    /// The current delay in milliseconds.
    pub fn current_delay(&self) -> (r: u64)
        ensures
            r == self.delay(),
            MIN_BACKOFF <= r <= MAX_BACKOFF,
    {
        proof {
            use_type_invariant(self);
        }
        self.current_delay
    }

    /// Doubles the delay, up to the largest one.
    pub fn increment(&mut self)
        ensures
            final(self).delay() == next_delay(old(self).delay()),
            MIN_BACKOFF <= final(self).delay() <= MAX_BACKOFF,
    {
        proof {
            use_type_invariant(&*self);
        }
        let doubled: u64 = self.current_delay * BACKOFF_MULTIPLIER;
        self.current_delay = if doubled <= MAX_BACKOFF {
            doubled
        } else {
            MAX_BACKOFF
        };
    }
}

impl Default for ErrorThrottler {
    fn default() -> (r: Self)
        ensures
            r.delay() == MIN_BACKOFF,
    {
        ErrorThrottler::new()
    }
}

/// The delay after `n` errors in a row.
pub open spec fn delay_after(n: nat) -> int
    decreases n,
{
    if n == 0 {
        MIN_BACKOFF as int
    } else {
        next_delay(delay_after((n - 1) as nat))
    }
}

/// Delays never fall below a second, never pass a minute, and never shrink without a reset.
pub proof fn law_delay_bounds(n: nat)
    ensures
        MIN_BACKOFF <= delay_after(n) <= MAX_BACKOFF,
        delay_after(n) <= delay_after(n + 1),
    decreases n,
{
    if n > 0 {
        law_delay_bounds((n - 1) as nat);
    }
}

/// From the sixth error on, the delay is the largest one.
pub proof fn law_delay_saturates(n: nat)
    requires
        n >= 6,
    ensures
        delay_after(n) == MAX_BACKOFF,
    decreases n,
{
    if n > 6 {
        law_delay_saturates((n - 1) as nat);
    } else {
        reveal_with_fuel(delay_after, 7);
    }
}

/// The delay after `n` errors is a second doubled `n` times, unless that is more than a
/// minute.
pub proof fn law_delay_doubles(n: nat)
    ensures
        delay_after(n) == if 1_000 * vstd::arithmetic::power2::pow2(n) <= 60_000 {
            1_000 * vstd::arithmetic::power2::pow2(n)
        } else {
            60_000
        },
    decreases n,
{
    vstd::arithmetic::power2::lemma_pow2_pos(n);
    if n > 0 {
        law_delay_doubles((n - 1) as nat);
        vstd::arithmetic::power2::lemma_pow2_unfold(n);
    } else {
        vstd::arithmetic::power2::lemma2_to64();
    }
}

} // verus!
