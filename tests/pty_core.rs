use rio::event_loop::{
    poll_timeout, EventAction, EventLoop, Msg, MsgAction, PollAction, Readiness, Source,
    WindowSize,
};
use rio::reader::{ReadCycle, ReadOutcome, ReadStep, MAX_LOCKED_READ, READ_BUFFER_SIZE};
use rio::sink::{State, WriteOutcome, WriteStep, Writing};

/// Runs write cycles against a pty that takes at most `per_call` bytes per
/// write, and returns what reached it.
fn drain(state: &mut State, per_call: usize) -> Vec<u8> {
    let mut out = Vec::new();
    loop {
        state.ensure_next();
        let outcome = match state.current_bytes() {
            None => return out,
            Some(bytes) => {
                let n = bytes.len().min(per_call);
                out.extend_from_slice(&bytes[..n]);
                WriteOutcome::Wrote(n)
            }
        };
        assert_eq!(state.after_write(outcome), WriteStep::Again);
    }
}

#[test]
fn input_reaches_pty_in_order() {
    let mut state = State::new();
    state.enqueue(b"echo ".to_vec());
    state.enqueue(b"hello\n".to_vec());
    assert!(state.needs_write());
    let out = drain(&mut state, 3);
    assert_eq!(out, b"echo hello\n".to_vec());
    assert!(!state.needs_write());
}

#[test]
fn empty_chunk_is_not_owed() {
    let mut state = State::new();
    state.enqueue(Vec::new());
    assert!(!state.needs_write());
    state.ensure_next();
    assert!(state.current_bytes().is_none());
}

#[test]
fn full_pty_keeps_the_chunk() {
    let mut state = State::new();
    state.enqueue(b"abc".to_vec());
    state.ensure_next();
    assert_eq!(state.after_write(WriteOutcome::Wrote(0)), WriteStep::Yield);
    assert_eq!(state.current_bytes().unwrap(), b"abc");
    assert_eq!(state.after_write(WriteOutcome::Wrote(2)), WriteStep::Again);
    assert_eq!(state.current_bytes().unwrap(), b"c");
}

#[test]
fn blocked_and_failed_writes_keep_the_bytes() {
    let mut state = State::new();
    state.enqueue(b"xy".to_vec());
    state.ensure_next();
    assert_eq!(state.after_write(WriteOutcome::Blocked), WriteStep::Yield);
    assert_eq!(state.current_bytes().unwrap(), b"xy");
    assert_eq!(state.after_write(WriteOutcome::Failed), WriteStep::Fail);
    assert_eq!(state.current_bytes().unwrap(), b"xy");
}

#[test]
fn finished_chunk_gives_way_to_the_next() {
    let mut state = State::new();
    state.enqueue(b"ab".to_vec());
    state.enqueue(b"cd".to_vec());
    state.ensure_next();
    assert_eq!(state.after_write(WriteOutcome::Wrote(2)), WriteStep::Again);
    assert_eq!(state.current_bytes().unwrap(), b"cd");
}

#[test]
fn take_and_put_back_the_chunk() {
    let mut state = State::new();
    state.enqueue(b"abc".to_vec());
    state.ensure_next();
    let current = state.take_current();
    assert!(current.is_some());
    assert!(state.current_bytes().is_none());
    state.set_current(current);
    assert_eq!(state.current_bytes().unwrap(), b"abc");
    state.goto_next();
    assert!(!state.needs_write());
}

#[test]
fn writing_counts_what_was_written() {
    let mut w = Writing::new(b"hello".to_vec());
    assert!(!w.finished());
    w.advance(2);
    assert_eq!(w.remaining_bytes(), b"llo");
    w.advance(3);
    assert!(w.finished());
    assert_eq!(w.remaining_bytes(), b"");
}

/// A pty that hands out `total` bytes, `per_read` at most per call, as the
/// sequence 0, 1, 2, ... modulo 251.
struct FakePty {
    sent: usize,
    total: usize,
    per_read: usize,
}

impl FakePty {
    fn read(&mut self, buf: &mut [u8]) -> ReadOutcome {
        if self.sent == self.total {
            return ReadOutcome::Blocked;
        }
        let n = buf.len().min(self.per_read).min(self.total - self.sent);
        for (i, b) in buf[..n].iter_mut().enumerate() {
            *b = ((self.sent + i) % 251) as u8;
        }
        self.sent += n;
        ReadOutcome::Got(n)
    }
}

/// Runs one read cycle; the lock refuses the first `busy` tries. Returns the
/// last step and how many bytes the cycle parsed.
fn read_cycle(pty: &mut FakePty, parsed: &mut Vec<u8>, busy: &mut usize) -> (ReadStep, usize) {
    let mut buf = vec![0u8; READ_BUFFER_SIZE];
    let mut cycle = ReadCycle::new();
    let mut step = ReadStep::Read;
    loop {
        step = match step {
            ReadStep::Read => {
                let from = cycle.read_from();
                let outcome = pty.read(&mut buf[from..]);
                cycle.on_read(outcome)
            }
            ReadStep::TryLock => {
                let acquired = *busy == 0;
                if *busy > 0 {
                    *busy -= 1;
                }
                cycle.on_try_lock(acquired)
            }
            ReadStep::Lock => {
                *busy = 0;
                cycle.on_locked()
            }
            ReadStep::Parse(n) => {
                assert!(cycle.locked());
                parsed.extend_from_slice(&buf[..n]);
                cycle.on_parsed()
            }
            ReadStep::Done | ReadStep::Fail => return (step, cycle.processed()),
        };
    }
}

#[test]
fn backpressure_loses_no_byte() {
    let total = 2 * 1024 * 1024;
    let mut pty = FakePty { sent: 0, total, per_read: 4096 };
    let mut parsed = Vec::new();
    let mut busy = usize::MAX;
    let mut cycles = 0;
    while parsed.len() < total {
        let (step, processed) = read_cycle(&mut pty, &mut parsed, &mut busy);
        assert_eq!(step, ReadStep::Done);
        assert!(processed < MAX_LOCKED_READ + READ_BUFFER_SIZE);
        cycles += 1;
    }
    assert_eq!(cycles, 17);
    assert_eq!(parsed.len(), total);
    assert!(parsed.iter().enumerate().all(|(i, b)| *b == (i % 251) as u8));
}

#[test]
fn lock_is_given_up_after_max_locked_read() {
    let mut pty = FakePty { sent: 0, total: 200_000, per_read: 1000 };
    let mut parsed = Vec::new();
    let mut busy = 0;
    let (step, processed) = read_cycle(&mut pty, &mut parsed, &mut busy);
    assert_eq!(step, ReadStep::Done);
    assert_eq!(processed, 66_000);
    assert_eq!(parsed.len(), 66_000);
}

#[test]
fn read_cycle_ends_when_nothing_comes() {
    let mut cycle = ReadCycle::new();
    assert_eq!(cycle.on_read(ReadOutcome::Got(0)), ReadStep::Done);
    assert!(!cycle.needs_wakeup(0));
    let mut cycle = ReadCycle::new();
    assert_eq!(cycle.on_read(ReadOutcome::Blocked), ReadStep::Done);
}

#[test]
fn read_cycle_fails_on_error() {
    let mut cycle = ReadCycle::new();
    assert_eq!(cycle.on_read(ReadOutcome::Got(5)), ReadStep::TryLock);
    assert_eq!(cycle.on_try_lock(false), ReadStep::Read);
    assert_eq!(cycle.on_read(ReadOutcome::Failed), ReadStep::Fail);
}

#[test]
fn blocked_read_parses_what_waits() {
    let mut cycle = ReadCycle::new();
    assert_eq!(cycle.on_read(ReadOutcome::Got(7)), ReadStep::TryLock);
    assert_eq!(cycle.on_try_lock(false), ReadStep::Read);
    assert_eq!(cycle.on_read(ReadOutcome::Blocked), ReadStep::TryLock);
    assert_eq!(cycle.on_try_lock(true), ReadStep::Parse(7));
    assert_eq!(cycle.on_parsed(), ReadStep::Read);
    assert_eq!(cycle.on_read(ReadOutcome::Got(3)), ReadStep::Parse(3));
    assert_eq!(cycle.on_parsed(), ReadStep::Read);
    assert_eq!(cycle.on_read(ReadOutcome::Blocked), ReadStep::Done);
    assert_eq!(cycle.processed(), 10);
}

#[test]
fn wakeup_unless_all_bytes_were_synchronized() {
    let mut cycle = ReadCycle::new();
    cycle.on_read(ReadOutcome::Got(10));
    cycle.on_try_lock(true);
    cycle.on_parsed();
    assert!(cycle.needs_wakeup(0));
    assert!(cycle.needs_wakeup(9));
    assert!(!cycle.needs_wakeup(10));
}

#[test]
fn sync_timeout_never_goes_below_zero() {
    let ms = 1_000_000u64;
    assert_eq!(poll_timeout(Some(100 * ms), 0), Some(100 * ms));
    assert_eq!(poll_timeout(Some(100 * ms), 30 * ms), Some(70 * ms));
    assert_eq!(poll_timeout(Some(100 * ms), 250 * ms), Some(0));
    assert_eq!(poll_timeout(None, 250 * ms), None);
}

#[test]
fn repeated_shutdown_is_a_no_op() {
    let mut lp = EventLoop::new();
    let mut state = State::new();
    assert_eq!(lp.on_message(&mut state, Msg::Shutdown), MsgAction::Stop);
    assert!(!lp.is_running());
    assert_eq!(lp.on_message(&mut state, Msg::Shutdown), MsgAction::Ignored);
    assert!(!lp.is_running());
    assert_eq!(lp.on_message(&mut state, Msg::Input(b"late".to_vec())), MsgAction::Ignored);
    assert!(!state.needs_write());
}

#[test]
fn messages_queue_input_and_hand_back_resizes() {
    let mut lp = EventLoop::new();
    let mut state = State::new();
    assert_eq!(lp.on_message(&mut state, Msg::Input(b"echo hello\n".to_vec())), MsgAction::Continue);
    let size = WindowSize { cols: 80, rows: 24, width: 800, height: 480 };
    assert_eq!(lp.on_message(&mut state, Msg::Resize(size)), MsgAction::Resize(size));
    assert!(lp.is_running());
    assert_eq!(drain(&mut state, 4), b"echo hello\n".to_vec());
}

fn ready(source: Source, readable: bool, writable: bool, read_closed: bool) -> Readiness {
    Readiness { source, readable, writable, read_closed }
}

#[test]
fn events_are_dispatched_by_source() {
    let mut lp = EventLoop::new();
    assert_eq!(lp.on_event(ready(Source::Inbound, true, false, false)), EventAction::Drain);
    assert_eq!(
        lp.on_event(ready(Source::Pty, true, true, false)),
        EventAction::Io { read: true, write: true }
    );
    assert_eq!(lp.on_event(ready(Source::Other, true, false, false)), EventAction::Ignore);
    assert!(lp.is_running());
    assert_eq!(lp.on_event(ready(Source::Inbound, true, false, true)), EventAction::Exit);
    assert!(!lp.is_running());
}

#[test]
fn child_exit_reads_once_more_and_stops() {
    let mut lp = EventLoop::new();
    assert_eq!(lp.on_event(ready(Source::ChildExit, true, false, false)), EventAction::FinalRead);
    assert!(!lp.is_running());
}

#[test]
fn eio_keeps_the_loop_other_errors_stop_it() {
    let mut lp = EventLoop::new();
    assert!(lp.on_read_error(true));
    assert!(lp.is_running());
    assert!(!lp.on_read_error(false));
    assert!(!lp.is_running());
    let mut lp = EventLoop::new();
    lp.on_write_error();
    assert!(!lp.is_running());
}

#[test]
fn shutdown_waits_for_owed_input() {
    let mut lp = EventLoop::new();
    let mut state = State::new();
    lp.on_message(&mut state, Msg::Input(b"echo hello\n".to_vec()));
    assert_eq!(lp.on_message(&mut state, Msg::Shutdown), MsgAction::Stop);
    assert!(!lp.may_exit(&state));
    assert_eq!(drain(&mut state, 5), b"echo hello\n".to_vec());
    assert!(lp.may_exit(&state));
}

#[test]
fn running_loop_may_not_exit() {
    let lp = EventLoop::new();
    let state = State::new();
    assert!(!lp.may_exit(&state));
}

#[test]
fn empty_poll_is_a_sync_timeout() {
    let lp = EventLoop::new();
    assert_eq!(lp.after_poll(0), PollAction::SyncTimeout);
    assert_eq!(lp.after_poll(3), PollAction::Dispatch);
}

#[test]
fn resize_keeps_the_half_written_chunk() {
    let mut lp = EventLoop::new();
    let mut state = State::new();
    state.enqueue(b"abcd".to_vec());
    state.enqueue(b"ef".to_vec());
    state.ensure_next();
    state.after_write(WriteOutcome::Wrote(1));
    let size = WindowSize { cols: 100, rows: 30, width: 1000, height: 600 };
    assert_eq!(lp.on_message(&mut state, Msg::Resize(size)), MsgAction::Resize(size));
    assert_eq!(state.current_bytes().unwrap(), b"bcd");
    assert_eq!(drain(&mut state, 10), b"bcdef".to_vec());
}

#[test]
fn ensure_next_promotes_the_head_only_once() {
    let mut state = State::new();
    state.enqueue(b"first".to_vec());
    state.enqueue(b"second".to_vec());
    state.ensure_next();
    assert_eq!(state.current_bytes().unwrap(), b"first");
    state.after_write(WriteOutcome::Wrote(2));
    state.ensure_next();
    assert_eq!(state.current_bytes().unwrap(), b"rst");
}
