//! The event loop's decisions. Each tick takes at most one handed-off
//! connection, polls every live connection once, retires at most one of them,
//! and then either ends the loop, sleeps for the idle backoff, or goes on at
//! once. The driver performs the reads, the close frames and the sleeps; these
//! types decide what follows from each result.

use vstd::prelude::*;
use crate::backoff::{next_idle, IdleBackoff, IDLE_FLOOR_MS};

verus! {

/// A live connection: its id and the handle that the driver reads from.
pub struct Conn<H> {
    pub id: usize,
    pub handle: H,
}

/// What one non-blocking read of a connection gave.
#[derive(Clone, Copy, Debug, PartialEq, Eq, Structural)]
pub enum ReadOutcome {
    /// A text or binary message with a payload.
    Payload,
    /// Another protocol message, such as a ping or a pong.
    Control,
    /// Nothing was ready.
    WouldBlock,
    /// The connection was closed, cleanly or already before.
    Closed,
    /// The connection was reset, aborted or refused.
    Reset,
    /// Any other read error.
    Failed,
}

/// What the driver does right after a read.
#[derive(Clone, Copy, Debug, PartialEq, Eq, Structural)]
pub enum ReadAction {
    /// Decode the payload and hand its text to the clipboard.
    Deliver,
    /// Nothing more for this connection in this tick.
    Skip,
    /// Send a close frame, and keep the connection until the peer reports it closed.
    SendClose,
}

/// What a tick has found so far.
#[derive(Clone, Copy, Debug, PartialEq, Eq, Structural)]
pub struct TickState {
    /// The shared flag was down when the tick began: every connection gets a close frame.
    pub closed: bool,
    /// Some connection did something in this tick.
    pub worked: bool,
    /// The connection to retire at the end of the tick, if any.
    pub retire: Option<usize>,
}

/// How a tick ends.
pub struct TickEnd<H> {
    /// The connection that was retired.
    pub retired: Option<Conn<H>>,
    /// The loop is over.
    pub stop: bool,
    /// How long to sleep before the next tick, in milliseconds.
    pub sleep_ms: Option<u64>,
}

/// The state in which a tick begins.
pub open spec fn begin_spec(running: bool) -> TickState {
    TickState { closed: !running, worked: false, retire: None }
}

/// The action that follows a read.
pub open spec fn action_of(outcome: ReadOutcome) -> ReadAction {
    match outcome {
        ReadOutcome::Payload => ReadAction::Deliver,
        ReadOutcome::Failed => ReadAction::SendClose,
        _ => ReadAction::Skip,
    }
}

/// The tick state after the read of the connection at `index`.
pub open spec fn observe_spec(t: TickState, index: usize, outcome: ReadOutcome) -> TickState {
    match outcome {
        ReadOutcome::Payload | ReadOutcome::Control => TickState { worked: true, ..t },
        ReadOutcome::Closed | ReadOutcome::Reset => TickState { retire: Some(index), ..t },
        _ => t,
    }
}

/// The tick state after the reads of the connections, in order from the first.
pub open spec fn scan(t: TickState, outcomes: Seq<ReadOutcome>) -> TickState
    decreases outcomes.len(),
{
    if outcomes.len() == 0 {
        t
    } else {
        let last = (outcomes.len() - 1) as int;
        observe_spec(scan(t, outcomes.subrange(0, last)), last as usize, outcomes[last])
    }
}

/// The connection set after the retirement at the end of a tick: the retired
/// connection's place goes to the last one.
pub open spec fn remaining<H>(conns: Seq<Conn<H>>, retire: Option<usize>) -> Seq<Conn<H>> {
    match retire {
        Some(i) if i < conns.len() => conns.update(i as int, conns.last()).drop_last(),
        _ => conns,
    }
}

/// The loop ends once the set is empty after a tick that began with the flag down.
pub open spec fn ends<H>(conns: Seq<Conn<H>>, t: TickState) -> bool {
    remaining(conns, t.retire).len() == 0 && t.closed
}

/// A read after which the connection is retired.
pub open spec fn is_closing(outcome: ReadOutcome) -> bool {
    outcome == ReadOutcome::Closed || outcome == ReadOutcome::Reset
}

/// A read that counts as activity.
pub open spec fn is_activity(outcome: ReadOutcome) -> bool {
    outcome == ReadOutcome::Payload || outcome == ReadOutcome::Control
}

proof fn lemma_scan(t: TickState, outcomes: Seq<ReadOutcome>)
    requires
        t.retire is None,
        outcomes.len() <= usize::MAX,
    ensures
        scan(t, outcomes).closed == t.closed,
        scan(t, outcomes).worked == (t.worked || exists|i: int|
            0 <= i < outcomes.len() && is_activity(#[trigger] outcomes[i])),
        scan(t, outcomes).retire is Some ==> {
            let i = scan(t, outcomes).retire->0 as int;
            0 <= i < outcomes.len() && is_closing(outcomes[i])
        },
    decreases outcomes.len(),
{
    if outcomes.len() > 0 {
        let last = (outcomes.len() - 1) as int;
        let front = outcomes.subrange(0, last);
        lemma_scan(t, front);
        let prev = scan(t, front);
        if !is_closing(outcomes[last]) && prev.retire is Some {
            let i = prev.retire->0 as int;
            assert(front[i] == outcomes[i]);
        }
        if exists|i: int| 0 <= i < outcomes.len() && is_activity(#[trigger] outcomes[i]) {
            let i = choose|i: int| 0 <= i < outcomes.len() && is_activity(#[trigger] outcomes[i]);
            if i < last {
                assert(front[i] == outcomes[i]);
            }
        }
        if exists|i: int| 0 <= i < front.len() && is_activity(#[trigger] front[i]) {
            let i = choose|i: int| 0 <= i < front.len() && is_activity(#[trigger] front[i]);
            assert(front[i] == outcomes[i]);
        }
    }
}

/// Once the shared flag is down, a tick stays closed through all its reads, and
/// it ends the loop when the set is empty after its retirement: in particular
/// when it begins with an empty set and no handoff, or when the one connection
/// left reports itself closed.
pub proof fn lemma_shutdown_ends_loop<H>(conns: Seq<Conn<H>>, outcomes: Seq<ReadOutcome>)
    requires
        outcomes.len() == conns.len(),
        conns.len() <= usize::MAX,
    ensures
        scan(begin_spec(false), outcomes).closed,
        remaining(conns, scan(begin_spec(false), outcomes).retire).len() == 0 ==> ends(
            conns,
            scan(begin_spec(false), outcomes),
        ),
        conns.len() == 0 ==> ends(conns, scan(begin_spec(false), outcomes)),
        conns.len() == 1 && is_closing(outcomes[0]) ==> ends(
            conns,
            scan(begin_spec(false), outcomes),
        ),
{
    lemma_scan(begin_spec(false), outcomes);
    if conns.len() == 1 && is_closing(outcomes[0]) {
        assert(outcomes.subrange(0, 0) =~= Seq::<ReadOutcome>::empty());
        assert(scan(begin_spec(false), outcomes).retire == Some(0usize));
    }
}

/// Every payload read in a tick is delivered: its action is a delivery, the
/// tick counts as active, and the connection that the tick retires is one whose
/// read reported it closed, never one that delivered.
pub proof fn lemma_tick_delivers_every_payload(running: bool, outcomes: Seq<ReadOutcome>)
    requires
        outcomes.len() <= usize::MAX,
    ensures
        forall|i: int|
            0 <= i < outcomes.len() && outcomes[i] == ReadOutcome::Payload ==> action_of(
                #[trigger] outcomes[i],
            ) == ReadAction::Deliver,
        (exists|i: int| 0 <= i < outcomes.len() && outcomes[i] == ReadOutcome::Payload) ==> scan(
            begin_spec(running),
            outcomes,
        ).worked,
        scan(begin_spec(running), outcomes).retire is Some ==> {
            let i = scan(begin_spec(running), outcomes).retire->0 as int;
            0 <= i < outcomes.len() && is_closing(outcomes[i])
        },
{
    lemma_scan(begin_spec(running), outcomes);
    if exists|i: int| 0 <= i < outcomes.len() && outcomes[i] == ReadOutcome::Payload {
        let i = choose|i: int| 0 <= i < outcomes.len() && outcomes[i] == ReadOutcome::Payload;
        assert(is_activity(outcomes[i]));
    }
}

impl TickState {
    /// Records the read of the connection at `index` and says what to do next.
    pub fn observe(&mut self, index: usize, outcome: ReadOutcome) -> (action: ReadAction)
        ensures
            *final(self) == observe_spec(*old(self), index, outcome),
            action == action_of(outcome),
    {
        match outcome {
            ReadOutcome::Payload => {
                self.worked = true;
                ReadAction::Deliver
            },
            ReadOutcome::Control => {
                self.worked = true;
                ReadAction::Skip
            },
            ReadOutcome::WouldBlock => ReadAction::Skip,
            ReadOutcome::Closed | ReadOutcome::Reset => {
                self.retire = Some(index);
                ReadAction::Skip
            },
            ReadOutcome::Failed => ReadAction::SendClose,
        }
    }
}

/// The live connections and the idle backoff of the event loop.
pub struct Multiplexer<H> {
    conns: Vec<Conn<H>>,
    backoff: IdleBackoff,
}

impl<H> Multiplexer<H> {
    /// The live connections, in set order.
    pub closed spec fn conns(&self) -> Seq<Conn<H>> {
        self.conns@
    }

    /// The duration that the next idle tick sleeps.
    pub closed spec fn idle(&self) -> nat {
        self.backoff@
    }

    /// An empty set, with the backoff at the floor.
    pub fn new() -> (r: Multiplexer<H>)
        ensures
            r.conns() == Seq::<Conn<H>>::empty(),
            r.idle() == IDLE_FLOOR_MS,
    {
        Multiplexer { conns: Vec::new(), backoff: IdleBackoff::new() }
    }

    /// How many connections are live.
    pub fn len(&self) -> (r: usize)
        ensures
            r == self.conns().len(),
    {
        self.conns.len()
    }

    /// The set is empty.
    pub fn is_empty(&self) -> (r: bool)
        ensures
            r == (self.conns().len() == 0),
    {
        self.conns.len() == 0
    }

    /// The id of the connection at `index`.
    pub fn id_at(&self, index: usize) -> (r: usize)
        requires
            index < self.conns().len(),
        ensures
            r == self.conns()[index as int].id,
    {
        self.conns[index].id
    }

    /// The handle of the connection at `index`, to read from or to close.
    pub fn handle_mut(&mut self, index: usize) -> (r: &mut H)
        requires
            index < old(self).conns().len(),
        ensures
            *r == old(self).conns()[index as int].handle,
            final(self).conns() == old(self).conns().update(
                index as int,
                Conn { id: old(self).conns()[index as int].id, handle: *final(r) },
            ),
            final(self).idle() == old(self).idle(),
    {
        &mut self.conns[index].handle
    }

    /// Begins a tick: the handed-off connection, if any, joins the end of the
    /// set, and the tick notes whether the shared flag is down.
    pub fn begin_tick(&mut self, handoff: Option<Conn<H>>, running: bool) -> (t: TickState)
        ensures
            t == begin_spec(running),
            final(self).idle() == old(self).idle(),
            final(self).conns() == match handoff {
                Some(c) => old(self).conns().push(c),
                None => old(self).conns(),
            },
    {
        match handoff {
            Some(c) => self.conns.push(c),
            None => {},
        }
        TickState { closed: !running, worked: false, retire: None }
    }

    /// Ends a tick: retires the marked connection, ends the loop once the set is
    /// empty and the flag was down, and otherwise works out the idle sleep.
    pub fn end_tick(&mut self, tick: TickState) -> (r: TickEnd<H>)
        ensures
            final(self).conns() == remaining(old(self).conns(), tick.retire),
            r.retired == match tick.retire {
                Some(i) if i < old(self).conns().len() => Some(old(self).conns()[i as int]),
                _ => None::<Conn<H>>,
            },
            r.stop == ends(old(self).conns(), tick),
            r.stop ==> r.sleep_ms is None && final(self).idle() == old(self).idle(),
            !r.stop ==> final(self).idle() == next_idle(old(self).idle(), tick.worked),
            !r.stop && tick.worked ==> r.sleep_ms is None,
            !r.stop && !tick.worked ==> r.sleep_ms == Some(old(self).idle() as u64),
    {
        let retired = match tick.retire {
            Some(i) => {
                if i < self.conns.len() {
                    Some(self.conns.swap_remove(i))
                } else {
                    None
                }
            },
            None => None,
        };
        let stop = self.conns.len() == 0 && tick.closed;
        let sleep_ms = if stop {
            None
        } else {
            self.backoff.tick(tick.worked)
        };
        TickEnd { retired, stop, sleep_ms }
    }
}

} // verus!
