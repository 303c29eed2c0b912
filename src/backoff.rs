//! Idle backoff of the event loop: a tick in which no connection did anything
//! sleeps for the current idle duration, which then grows by a fixed step up to
//! a ceiling; a tick with activity brings it back to the floor.

use vstd::prelude::*;

verus! {

/// The shortest idle sleep, in milliseconds.
pub const IDLE_FLOOR_MS: u64 = 50;

/// The longest idle sleep, in milliseconds.
pub const IDLE_CEILING_MS: u64 = 2000;

/// How much the idle sleep grows after each idle tick, in milliseconds.
pub const IDLE_STEP_MS: u64 = 50;

/// The idle duration after one tick, from the one before it.
pub open spec fn next_idle(idle: nat, worked: bool) -> nat {
    if worked {
        IDLE_FLOOR_MS as nat
    } else if idle + IDLE_STEP_MS <= IDLE_CEILING_MS {
        (idle + IDLE_STEP_MS) as nat
    } else {
        IDLE_CEILING_MS as nat
    }
}

/// The idle duration after `n` idle ticks in a row, starting from the floor.
pub open spec fn idle_after(n: nat) -> nat
    decreases n,
{
    if n == 0 {
        IDLE_FLOOR_MS as nat
    } else {
        next_idle(idle_after((n - 1) as nat), false)
    }
}

/// The idle sleep of the event loop.
pub struct IdleBackoff {
    idle_ms: u64,
}

impl View for IdleBackoff {
    type V = nat;

    /// The duration, in milliseconds, that the next idle tick sleeps.
    closed spec fn view(&self) -> nat {
        self.idle_ms as nat
    }
}

impl IdleBackoff {
    /// The duration lies between the floor and the ceiling.
    #[verifier::type_invariant]
    closed spec fn inv(&self) -> bool {
        IDLE_FLOOR_MS <= self.idle_ms <= IDLE_CEILING_MS
    }

    /// A backoff at the floor.
    pub fn new() -> (r: IdleBackoff)
        ensures
            r@ == IDLE_FLOOR_MS,
    {
        IdleBackoff { idle_ms: IDLE_FLOOR_MS }
    }

    /// The duration, in milliseconds, that the next idle tick sleeps.
    pub fn idle_ms(&self) -> (r: u64)
        ensures
            r == self@,
    {
        self.idle_ms
    }

    /// Ends a tick: after one without activity it returns the sleep to take and
    /// lengthens the next one; after one with activity it returns no sleep and
    /// goes back to the floor.
    pub fn tick(&mut self, worked: bool) -> (sleep: Option<u64>)
        ensures
            final(self)@ == next_idle(old(self)@, worked),
            worked ==> sleep is None,
            !worked ==> sleep == Some(old(self)@ as u64),
    {
        proof {
            use_type_invariant(&*self);
        }
        if worked {
            self.idle_ms = IDLE_FLOOR_MS;
            None
        } else {
            let sleep = self.idle_ms;
            if self.idle_ms + IDLE_STEP_MS <= IDLE_CEILING_MS {
                self.idle_ms = self.idle_ms + IDLE_STEP_MS;
            } else {
                self.idle_ms = IDLE_CEILING_MS;
            }
            Some(sleep)
        }
    }
}

/// After `n` idle ticks in a row from the floor, the idle sleep is the floor
/// plus `n` steps, capped at the ceiling; a tick with activity brings it back
/// to the floor, whatever it was.
pub proof fn lemma_idle_backoff(n: nat, idle: nat)
    ensures
        idle_after(n) == if IDLE_FLOOR_MS + n * IDLE_STEP_MS <= IDLE_CEILING_MS {
            IDLE_FLOOR_MS + n * IDLE_STEP_MS
        } else {
            IDLE_CEILING_MS as int
        },
        next_idle(idle, true) == IDLE_FLOOR_MS,
    decreases n,
{
    if n > 0 {
        lemma_idle_backoff((n - 1) as nat, idle);
        assert(IDLE_FLOOR_MS + n * IDLE_STEP_MS == IDLE_FLOOR_MS + (n - 1) * IDLE_STEP_MS
            + IDLE_STEP_MS) by (nonlinear_arith);
    }
}

} // verus!
