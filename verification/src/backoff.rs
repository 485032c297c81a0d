//! Exponential backoff with jitter: each wait is drawn at random below a
//! ceiling that doubles with every attempt until it reaches a cap.

use rand::rngs::OsRng;
use rand::TryRngCore;
use vstd::prelude::*;

verus! {

/// What to do after one look for something that is waited for.
#[derive(Clone, Copy, Debug, PartialEq, Eq, Structural)]
pub enum Wait {
    /// It is there.
    Done,
    /// Look again after a while.
    Retry,
    /// The time is up.
    TimedOut,
}

/// The waits between the attempts of something that is retried.
pub struct RetryBackoff {
    attempt: u32,
    base_ms: u64,
    cap_ms: u64,
}

/// Two to the power of `n`.
pub open spec fn pow2(n: nat) -> nat
    decreases n,
{
    if n == 0 {
        1
    } else {
        2 * pow2((n - 1) as nat)
    }
}

/// The ceiling of the wait before the attempt `attempt`, in
/// milliseconds: the base doubled once for each earlier attempt, at most
/// 63 times and no further than a `u64` holds, and never above the cap.
pub open spec fn ceiling_spec(cap_ms: u64, base_ms: u64, attempt: u32) -> nat {
    let shift = if attempt < 63 {
        attempt as nat
    } else {
        63
    };
    let doubled = base_ms as nat * pow2(shift);
    let held = if doubled <= u64::MAX {
        doubled
    } else {
        u64::MAX as nat
    };
    if cap_ms as nat <= held {
        cap_ms as nat
    } else {
        held
    }
}

/// A power of two is positive and grows with its exponent.
pub proof fn lemma_pow2_grows(n: nat)
    ensures
        0 < pow2(n) <= pow2(n + 1),
    decreases n,
{
    if n > 0 {
        lemma_pow2_grows((n - 1) as nat);
    }
}

/// Backoff monotonicity: the ceiling never falls from one attempt to
/// the next, and never exceeds the cap.
pub proof fn lemma_ceiling_monotone(cap_ms: u64, base_ms: u64, attempt: u32)
    requires
        attempt < u32::MAX,
    ensures
        ceiling_spec(cap_ms, base_ms, attempt) <= ceiling_spec(
            cap_ms,
            base_ms,
            (attempt + 1) as u32,
        ),
        ceiling_spec(cap_ms, base_ms, attempt) <= cap_ms,
{
    if attempt < 63 {
        lemma_pow2_grows(attempt as nat);
        let a = pow2(attempt as nat);
        let b = pow2((attempt + 1) as nat);
        assert(base_ms as nat * a <= base_ms as nat * b) by (nonlinear_arith)
            requires
                a <= b,
        ;
    }
}

/// `1 << n` is two to the power of `n`.
proof fn lemma_shift_is_pow2(n: u64)
    requires
        n <= 63,
    ensures
        (1u64 << n) == pow2(n as nat),
    decreases n,
{
    if n == 0 {
        assert(1u64 << 0u64 == 1) by (bit_vector);
    } else {
        lemma_shift_is_pow2((n - 1) as u64);
        let m = (n - 1) as u64;
        assert((1u64 << (m + 1) as u64) == 2 * (1u64 << m)) by (bit_vector)
            requires
                m < 63,
        ;
    }
}

/// Draws a number from the random source of the operating system with
/// `rand::rngs::OsRng`; 0 stands for a source that fails. Nothing is
/// known of the number.
#[verifier::external_body]
fn random_u64() -> u64 {
    OsRng.try_next_u64().unwrap_or(0)
}

impl RetryBackoff {
    /// A backoff that starts at 100 milliseconds and never waits longer
    /// than `cap_ms` milliseconds.
    pub fn new(cap_ms: u64) -> (r: Self)
        ensures
            r.attempt_spec() == 0,
            r.base_ms_spec() == 100,
            r.cap_ms_spec() == cap_ms,
    {
        Self { attempt: 0, base_ms: 100, cap_ms }
    }

    /// The number of waits so far.
    pub closed spec fn attempt_spec(&self) -> u32 {
        self.attempt
    }

    /// The ceiling of the first wait, in milliseconds.
    pub closed spec fn base_ms_spec(&self) -> u64 {
        self.base_ms
    }

    /// The longest wait, in milliseconds.
    pub closed spec fn cap_ms_spec(&self) -> u64 {
        self.cap_ms
    }

    /// Sets the number of waits so far.
    pub fn set_attempt(&mut self, attempt: u32)
        ensures
            final(self).attempt() == attempt,
            final(self).base_ms() == old(self).base_ms(),
            final(self).cap_ms() == old(self).cap_ms(),
    {
        self.attempt = attempt;
    }

    /// The number of waits so far.
    #[verifier::when_used_as_spec(attempt_spec)]
    pub fn attempt(&self) -> (r: u32)
        ensures
            r == self.attempt_spec(),
    {
        self.attempt
    }

    /// The ceiling of the first wait, in milliseconds.
    #[verifier::when_used_as_spec(base_ms_spec)]
    pub fn base_ms(&self) -> (r: u64)
        ensures
            r == self.base_ms_spec(),
    {
        self.base_ms
    }

    /// The longest wait, in milliseconds.
    #[verifier::when_used_as_spec(cap_ms_spec)]
    pub fn cap_ms(&self) -> (r: u64)
        ensures
            r == self.cap_ms_spec(),
    {
        self.cap_ms
    }

    /// The ceiling of the next wait, in milliseconds.
    pub fn max_wait(&self) -> (r: u64)
        ensures
            r == ceiling_spec(self.cap_ms(), self.base_ms(), self.attempt()),
    {
        let shift: u64 = if self.attempt < 63 {
            self.attempt as u64
        } else {
            63
        };
        proof {
            lemma_shift_is_pow2(shift);
        }
        let factor: u64 = 1u64 << shift;
        let doubled: u64 = match self.base_ms.checked_mul(factor) {
            Some(v) => v,
            None => u64::MAX,
        };
        if self.cap_ms <= doubled {
            self.cap_ms
        } else {
            doubled
        }
    }

    /// The wait that the random number `random` stands for: its
    /// remainder below the ceiling, and nothing when the ceiling is 0.
    pub fn delay_for(&self, random: u64) -> (r: u64)
        ensures
            r == if ceiling_spec(self.cap_ms(), self.base_ms(), self.attempt()) > 0 {
                random as nat % ceiling_spec(self.cap_ms(), self.base_ms(), self.attempt())
            } else {
                0
            },
    {
        let max_wait = self.max_wait();
        if max_wait > 0 {
            random % max_wait
        } else {
            0
        }
    }

    /// Counts one more wait; the count stays at its greatest value once
    /// it is reached.
    pub fn advance(&mut self)
        ensures
            final(self).attempt() == if old(self).attempt() < u32::MAX {
                (old(self).attempt() + 1) as u32
            } else {
                u32::MAX
            },
            final(self).base_ms() == old(self).base_ms(),
            final(self).cap_ms() == old(self).cap_ms(),
    {
        if self.attempt < u32::MAX {
            self.attempt = self.attempt + 1;
        }
    }

    /// Draws the next wait, in milliseconds, and counts it. The wait
    /// lies below the ceiling of this attempt, whatever was drawn.
    pub fn wait(&mut self) -> (r: u64)
        ensures
            r <= ceiling_spec(old(self).cap_ms(), old(self).base_ms(), old(self).attempt()),
            ceiling_spec(old(self).cap_ms(), old(self).base_ms(), old(self).attempt()) > 0 ==> r
                < ceiling_spec(old(self).cap_ms(), old(self).base_ms(), old(self).attempt()),
            final(self).attempt() == if old(self).attempt() < u32::MAX {
                (old(self).attempt() + 1) as u32
            } else {
                u32::MAX
            },
            final(self).base_ms() == old(self).base_ms(),
            final(self).cap_ms() == old(self).cap_ms(),
    {
        let wait_ms = self.delay_for(random_u64());
        self.advance();
        wait_ms
    }
}

} // verus!
