//! Exponential backoff for reconnecting a streaming transcription socket.
//!
//! The delay doubles from one second (1s, 2s, 4s, ...) up to a cap, and the
//! backoff gives up after a fixed number of attempts.
use vstd::arithmetic::power2::*;
use vstd::prelude::*;

verus! {

/// Nanoseconds in one second.
pub const NANOS_PER_SEC: u128 = 1_000_000_000;

/// `2^k` saturated at `u64::MAX`: the number of whole seconds of the
/// uncapped `k`-th delay.
pub open spec fn saturated_pow2_secs(k: nat) -> nat {
    if pow2(k) > u64::MAX {
        u64::MAX as nat
    } else {
        pow2(k)
    }
}

/// The delay, in nanoseconds, handed out for the attempt numbered `k`
/// (counted from zero) under a cap of `cap_nanos`.
pub open spec fn backoff_delay_nanos(k: nat, cap_nanos: nat) -> nat {
    let uncapped = saturated_pow2_secs(k) * (NANOS_PER_SEC as nat);
    if uncapped <= cap_nanos {
        uncapped
    } else {
        cap_nanos
    }
}

/// Exponential backoff with a cap on each delay and a limit on attempts.
///
/// Durations are carried as whole nanoseconds.
#[derive(Debug)]
pub struct ExponentialBackoff {
    attempts: u32,
    max_attempts: u32,
    cap_nanos: u128,
}

impl ExponentialBackoff {
    /// Attempts made so far.
    pub closed spec fn spec_attempts(&self) -> nat {
        self.attempts as nat
    }

    /// The attempt limit the backoff was made with.
    pub closed spec fn spec_max_attempts(&self) -> nat {
        self.max_attempts as nat
    }

    /// The cap on a single delay, in nanoseconds.
    pub closed spec fn spec_cap_nanos(&self) -> nat {
        self.cap_nanos as nat
    }

    /// A backoff with `max_attempts` attempts, each delay at most `cap_nanos`.
    pub fn new(max_attempts: u32, cap_nanos: u128) -> (b: Self)
        ensures
            b.spec_attempts() == 0,
            b.spec_max_attempts() == max_attempts,
            b.spec_cap_nanos() == cap_nanos,
    {
        ExponentialBackoff { attempts: 0, max_attempts, cap_nanos }
    }

    /// Computes the next delay and counts the attempt; `None` once the
    /// attempts are used up.
    pub fn next_delay(&mut self) -> (d: Option<u128>)
        ensures
            old(self).spec_attempts() >= old(self).spec_max_attempts() ==> {
                &&& d.is_none()
                &&& final(self).spec_attempts() == old(self).spec_attempts()
                &&& final(self).spec_max_attempts() == old(self).spec_max_attempts()
                &&& final(self).spec_cap_nanos() == old(self).spec_cap_nanos()
            },
            old(self).spec_attempts() < old(self).spec_max_attempts() ==> {
                &&& d == Some(
                    backoff_delay_nanos(old(self).spec_attempts(), old(self).spec_cap_nanos())
                        as u128,
                )
                &&& final(self).spec_attempts() == old(self).spec_attempts() + 1
                &&& final(self).spec_max_attempts() == old(self).spec_max_attempts()
                &&& final(self).spec_cap_nanos() == old(self).spec_cap_nanos()
            },
    {
        if self.attempts >= self.max_attempts {
            return None;
        }
        let secs = saturating_pow2(self.attempts);
        let uncapped: u128 = (secs as u128) * NANOS_PER_SEC;
        let delay = if uncapped <= self.cap_nanos {
            uncapped
        } else {
            self.cap_nanos
        };
        self.attempts = self.attempts + 1;
        Some(delay)
    }

    /// Forgets the attempts made (after a successful reconnect).
    pub fn reset(&mut self)
        ensures
            final(self).spec_attempts() == 0,
            final(self).spec_max_attempts() == old(self).spec_max_attempts(),
            final(self).spec_cap_nanos() == old(self).spec_cap_nanos(),
    {
        self.attempts = 0;
    }

    /// Number of attempts made so far.
    pub fn attempts(&self) -> (n: u32)
        ensures
            n == self.spec_attempts(),
    {
        self.attempts
    }

    /// True when the next call to `next_delay` gives `None`.
    pub fn exhausted(&self) -> (b: bool)
        ensures
            b == (self.spec_attempts() >= self.spec_max_attempts()),
    {
        self.attempts >= self.max_attempts
    }
}

impl Default for ExponentialBackoff {
    /// Three attempts, each delay capped at 30 seconds.
    fn default() -> (b: Self)
        ensures
            b.spec_attempts() == 0,
            b.spec_max_attempts() == 3,
            b.spec_cap_nanos() == 30 * NANOS_PER_SEC,
    {
        Self::new(3, 30 * NANOS_PER_SEC)
    }
}

/// The first delay is one second (or the cap, if smaller); each delay is
/// at most the cap and at least the one before; below the cap and below
/// 64 attempts, each delay is twice the one before.
pub proof fn lemma_backoff_doubles_up_to_cap(k: nat, cap: nat)
    ensures
        backoff_delay_nanos(0, cap) == if (NANOS_PER_SEC as nat) <= cap { NANOS_PER_SEC as nat } else { cap },
        backoff_delay_nanos(k, cap) <= cap,
        backoff_delay_nanos(k, cap) <= backoff_delay_nanos(k + 1, cap),
        k + 1 < 64 && saturated_pow2_secs(k + 1) * (NANOS_PER_SEC as nat) <= cap ==> backoff_delay_nanos(k + 1, cap)
            == 2 * backoff_delay_nanos(k, cap),
{
    lemma2_to64();
    lemma_pow2_unfold(k + 1);
    lemma_pow2_strictly_increases(k, k + 1);
    if k + 1 < 64 {
        lemma_pow2_strictly_increases(k + 1, 64);
    }
    let a = saturated_pow2_secs(k);
    let b = saturated_pow2_secs(k + 1);
    assert(a <= b);
    assert(a * (NANOS_PER_SEC as nat) <= b * (NANOS_PER_SEC as nat)) by (nonlinear_arith)
        requires
            a <= b,
    ;
    if k + 1 < 64 {
        assert(b == 2 * a);
        assert(b * (NANOS_PER_SEC as nat) == 2 * (a * (NANOS_PER_SEC as nat))) by (nonlinear_arith)
            requires
                b == 2 * a,
        ;
    }
}

/// `2^k` saturated at `u64::MAX`.
pub fn saturating_pow2(k: u32) -> (r: u64)
    ensures
        r == saturated_pow2_secs(k as nat),
{
    if k >= 64 {
        proof {
            lemma2_to64();
            if k > 64 {
                lemma_pow2_strictly_increases(64, k as nat);
            }
        }
        return u64::MAX;
    }
    let mut r: u64 = 1;
    let mut i: u32 = 0;
    proof {
        lemma2_to64();
    }
    while i < k
        invariant
            i <= k < 64,
            r == pow2(i as nat),
            pow2(i as nat) <= u64::MAX,
            pow2(64) == 0x10000000000000000,
        decreases k - i,
    {
        proof {
            lemma_pow2_unfold((i + 1) as nat);
            if i + 1 < 64 {
                lemma_pow2_strictly_increases((i + 1) as nat, 64);
            }
        }
        r = r * 2;
        i = i + 1;
    }
    proof {
        lemma_pow2_strictly_increases(k as nat, 64);
    }
    r
}

} // verus!
