//! The interrupt guard: the first interrupt asks for a graceful shutdown, any
//! later one forces the process to exit with a status of its own.

use vstd::prelude::*;

verus! {

/// The exit status of a forced exit.
pub const FORCE_EXIT_STATUS: i32 = 19937;

/// What the interrupt handler does.
#[derive(Clone, Copy, Debug, PartialEq, Eq, Structural)]
pub enum InterruptAction {
    /// Lower the shared flag and open one loopback connection, so that the
    /// blocked accept returns and the acceptor sees the flag.
    Graceful,
    /// Exit at once with this status, without draining.
    ForceExit(i32),
}

/// The action for an interrupt, by whether one came before.
pub open spec fn interrupt_action(attempted: bool) -> InterruptAction {
    if attempted {
        InterruptAction::ForceExit(FORCE_EXIT_STATUS)
    } else {
        InterruptAction::Graceful
    }
}

/// Whether a graceful shutdown was asked for, after one more interrupt: an
/// interrupt always leaves the guard marked.
pub open spec fn after_interrupt(_attempted: bool) -> bool {
    true
}

/// Remembers whether a graceful shutdown was already asked for.
pub struct InterruptGuard {
    attempted: bool,
}

impl InterruptGuard {
    /// A graceful shutdown was already asked for.
    pub closed spec fn attempted(&self) -> bool {
        self.attempted
    }

    /// A guard before any interrupt.
    pub fn new() -> (r: InterruptGuard)
        ensures
            !r.attempted(),
    {
        InterruptGuard { attempted: false }
    }

    /// Handles one interrupt.
    pub fn on_interrupt(&mut self) -> (r: InterruptAction)
        ensures
            r == interrupt_action(old(self).attempted()),
            final(self).attempted() == after_interrupt(old(self).attempted()),
    {
        if self.attempted {
            InterruptAction::ForceExit(FORCE_EXIT_STATUS)
        } else {
            self.attempted = true;
            InterruptAction::Graceful
        }
    }
}

/// The first interrupt on a fresh guard asks for a graceful shutdown; whatever
/// came before, the interrupt that follows another one forces an exit with a
/// non-zero status.
pub proof fn lemma_second_interrupt_forces_exit(attempted: bool)
    ensures
        interrupt_action(false) == InterruptAction::Graceful,
        interrupt_action(after_interrupt(attempted)) == InterruptAction::ForceExit(
            FORCE_EXIT_STATUS,
        ),
        FORCE_EXIT_STATUS != 0,
{
}

} // verus!
