use wsclip::acceptor::Acceptor;
use wsclip::backoff::{IdleBackoff, IDLE_CEILING_MS, IDLE_FLOOR_MS, IDLE_STEP_MS};
use wsclip::multiplexer::{Conn, Multiplexer, ReadAction, ReadOutcome};
use wsclip::shutdown::{InterruptAction, InterruptGuard, FORCE_EXIT_STATUS};

fn conn(id: usize) -> Conn<String> {
    Conn { id, handle: format!("peer {id}") }
}

#[test]
fn idle_ticks_grow_linearly_to_the_ceiling() {
    let mut b = IdleBackoff::new();
    for n in 0..60u64 {
        let expected = IDLE_CEILING_MS.min(IDLE_FLOOR_MS + n * IDLE_STEP_MS);
        assert_eq!(b.idle_ms(), expected);
        assert_eq!(b.tick(false), Some(expected));
    }
    assert_eq!(b.idle_ms(), 2000);
}

#[test]
fn activity_resets_backoff() {
    let mut b = IdleBackoff::new();
    assert_eq!(b.tick(false), Some(50));
    assert_eq!(b.tick(false), Some(100));
    assert_eq!(b.tick(false), Some(150));
    assert_eq!(b.tick(true), None);
    assert_eq!(b.tick(false), Some(50));
}

#[test]
fn backoff_constants() {
    assert_eq!(IDLE_FLOOR_MS, 50);
    assert_eq!(IDLE_CEILING_MS, 2000);
    assert_eq!(IDLE_STEP_MS, 50);
}

#[test]
fn every_payload_is_delivered() {
    let mut m: Multiplexer<String> = Multiplexer::new();
    let n = 7;
    for id in 1..=n {
        let t = m.begin_tick(Some(conn(id)), true);
        let end = m.end_tick(t);
        assert!(!end.stop);
    }
    assert_eq!(m.len(), n);
    let mut tick = m.begin_tick(None, true);
    let mut delivered = vec![];
    for i in 0..m.len() {
        if tick.observe(i, ReadOutcome::Payload) == ReadAction::Deliver {
            delivered.push(m.id_at(i));
        }
    }
    assert_eq!(delivered, vec![1, 2, 3, 4, 5, 6, 7]);
    let end = m.end_tick(tick);
    assert!(end.retired.is_none());
    assert_eq!(end.sleep_ms, None);
    assert_eq!(m.len(), n);
}

#[test]
fn handoff_joins_the_end() {
    let mut m: Multiplexer<String> = Multiplexer::new();
    let t = m.begin_tick(Some(conn(1)), true);
    m.end_tick(t);
    let t = m.begin_tick(Some(conn(2)), true);
    m.end_tick(t);
    assert_eq!(m.id_at(0), 1);
    assert_eq!(m.id_at(1), 2);
    assert_eq!(m.handle_mut(1), "peer 2");
}

#[test]
fn at_most_one_retirement_per_tick() {
    let mut m: Multiplexer<String> = Multiplexer::new();
    for id in 1..=3 {
        let t = m.begin_tick(Some(conn(id)), true);
        m.end_tick(t);
    }
    let mut tick = m.begin_tick(None, true);
    assert_eq!(tick.observe(0, ReadOutcome::Closed), ReadAction::Skip);
    assert_eq!(tick.observe(1, ReadOutcome::WouldBlock), ReadAction::Skip);
    assert_eq!(tick.observe(2, ReadOutcome::Reset), ReadAction::Skip);
    let end = m.end_tick(tick);
    assert_eq!(end.retired.map(|c| c.id), Some(3));
    assert_eq!(m.len(), 2);
    // three idle ticks came before this one
    assert_eq!(end.sleep_ms, Some(200));
}

#[test]
fn retirement_moves_last_into_place() {
    let mut m: Multiplexer<String> = Multiplexer::new();
    for id in 1..=3 {
        let t = m.begin_tick(Some(conn(id)), true);
        m.end_tick(t);
    }
    let mut tick = m.begin_tick(None, true);
    tick.observe(0, ReadOutcome::Closed);
    let end = m.end_tick(tick);
    assert_eq!(end.retired.map(|c| c.id), Some(1));
    assert_eq!(m.id_at(0), 3);
    assert_eq!(m.id_at(1), 2);
}

#[test]
fn failed_read_sends_close_without_retiring() {
    let mut m: Multiplexer<String> = Multiplexer::new();
    let t = m.begin_tick(Some(conn(1)), true);
    m.end_tick(t);
    let mut tick = m.begin_tick(None, true);
    assert_eq!(tick.observe(0, ReadOutcome::Failed), ReadAction::SendClose);
    let end = m.end_tick(tick);
    assert!(end.retired.is_none());
    assert_eq!(m.len(), 1);
}

#[test]
fn control_message_counts_as_activity() {
    let mut m: Multiplexer<String> = Multiplexer::new();
    let t = m.begin_tick(Some(conn(1)), true);
    m.end_tick(t);
    let mut tick = m.begin_tick(None, true);
    assert_eq!(tick.observe(0, ReadOutcome::Control), ReadAction::Skip);
    assert!(tick.worked);
    assert_eq!(m.end_tick(tick).sleep_ms, None);
}

#[test]
fn shutdown_with_empty_set_ends_in_one_tick() {
    let mut m: Multiplexer<String> = Multiplexer::new();
    let tick = m.begin_tick(None, false);
    assert!(tick.closed);
    let end = m.end_tick(tick);
    assert!(end.stop);
    assert_eq!(end.sleep_ms, None);
}

#[test]
fn shutdown_ends_once_last_connection_retires() {
    let mut m: Multiplexer<String> = Multiplexer::new();
    let t = m.begin_tick(Some(conn(1)), true);
    m.end_tick(t);
    let tick = m.begin_tick(None, false);
    assert!(tick.closed);
    let end = m.end_tick(tick);
    assert!(!end.stop);
    let mut tick = m.begin_tick(None, false);
    tick.observe(0, ReadOutcome::Closed);
    let end = m.end_tick(tick);
    assert!(end.stop);
    assert!(m.is_empty());
}

#[test]
fn running_empty_set_keeps_going() {
    let mut m: Multiplexer<String> = Multiplexer::new();
    let tick = m.begin_tick(None, true);
    let end = m.end_tick(tick);
    assert!(!end.stop);
    assert_eq!(end.sleep_ms, Some(50));
}

#[test]
fn second_interrupt_forces_exit() {
    let mut g = InterruptGuard::new();
    assert_eq!(g.on_interrupt(), InterruptAction::Graceful);
    assert_eq!(g.on_interrupt(), InterruptAction::ForceExit(19937));
    assert_eq!(g.on_interrupt(), InterruptAction::ForceExit(FORCE_EXIT_STATUS));
    assert_ne!(FORCE_EXIT_STATUS, 0);
}

#[test]
fn ids_start_at_one_and_increase() {
    let mut a = Acceptor::new();
    assert_eq!(a.assign(), Some(1));
    assert_eq!(a.assign(), Some(2));
    assert_eq!(a.assign(), Some(3));
}
