use vstd::prelude::*;
use crate::sink::State;

verus! {

/// A new size for the terminal: cells and pixels.
#[derive(PartialEq, Eq, Structural, Debug, Clone, Copy)]
pub struct WindowSize {
    pub cols: u16,
    pub rows: u16,
    pub width: u32,
    pub height: u32,
}

/// A message from the front end to an event loop.
pub enum Msg {
    /// Bytes to write to the pty.
    Input(Vec<u8>),
    Resize(WindowSize),
    /// Stop the loop.
    Shutdown,
}

/// What the loop does after taking in a message.
#[derive(PartialEq, Eq, Structural, Debug, Clone, Copy)]
pub enum MsgAction {
    /// Go on draining.
    Continue,
    /// Resize the grid under its lock and the pty, then go on draining.
    Resize(WindowSize),
    /// Take no more messages; the loop ends once nothing is owed to the pty
    /// (see `may_exit`).
    Stop,
    /// The loop was already stopped: the message is dropped.
    Ignored,
}

/// Where a readiness event came from.
#[derive(PartialEq, Eq, Structural, Debug, Clone, Copy)]
pub enum Source {
    /// The pipe that the inbound channel signals.
    Inbound,
    /// The child process changed state.
    ChildExit,
    /// The pty can be read or written.
    Pty,
    Other,
}

/// One readiness event of the poller.
#[derive(PartialEq, Eq, Structural, Debug, Clone, Copy)]
pub struct Readiness {
    pub source: Source,
    pub readable: bool,
    pub writable: bool,
    pub read_closed: bool,
}

/// What the loop does for one readiness event.
#[derive(PartialEq, Eq, Structural, Debug, Clone, Copy)]
pub enum EventAction {
    /// Leave the loop: the inbound channel's senders are gone.
    Exit,
    /// Take in every waiting message.
    Drain,
    /// Read what the child left on the pty, wake the renderer and leave.
    FinalRead,
    /// Run a read cycle when `read`, then a write cycle when `write`.
    Io { read: bool, write: bool },
    Ignore,
}

/// What the loop does once a poll returns.
#[derive(PartialEq, Eq, Structural, Debug, Clone, Copy)]
pub enum PollAction {
    /// No event came: the synchronized update timed out. End it under the grid
    /// lock, then wake the renderer once.
    SyncTimeout,
    /// Handle each event.
    Dispatch,
}

/// What a message does to a loop that is `running` and owes `pending` bytes to
/// the pty: the loop's state after it, the bytes owed after it, and the action.
pub open spec fn message_effect(running: bool, pending: Seq<u8>, msg: Msg) -> (
    bool,
    Seq<u8>,
    MsgAction,
) {
    if !running {
        (running, pending, MsgAction::Ignored)
    } else {
        match msg {
            Msg::Input(bytes) => (true, pending + bytes@, MsgAction::Continue),
            Msg::Resize(size) => (true, pending, MsgAction::Resize(size)),
            Msg::Shutdown => (false, pending, MsgAction::Stop),
        }
    }
}

pub open spec fn event_action(ev: Readiness) -> EventAction {
    match ev.source {
        Source::Inbound => if ev.read_closed {
            EventAction::Exit
        } else {
            EventAction::Drain
        },
        Source::ChildExit => EventAction::FinalRead,
        Source::Pty => EventAction::Io { read: ev.readable, write: ev.writable },
        Source::Other => EventAction::Ignore,
    }
}

/// The decisions of one event loop, between polls of its readiness sources.
pub struct EventLoop {
    running: bool,
}

impl EventLoop {
    pub closed spec fn running_spec(&self) -> bool {
        self.running
    }

    pub fn new() -> (r: EventLoop)
        ensures
            r.running_spec(),
    {
        EventLoop { running: true }
    }

    pub fn is_running(&self) -> (r: bool)
        ensures
            r == self.running_spec(),
    {
        self.running
    }

    /// Takes in one message from the inbound channel: input is queued for the
    /// pty, a resize is handed back, a shutdown stops the loop. Once stopped the
    /// loop takes nothing in.
    pub fn on_message(&mut self, sink: &mut State, msg: Msg) -> (r: MsgAction)
        requires
            old(sink).wf(),
        ensures
            final(sink).wf(),
            (final(self).running_spec(), final(sink).pending(), r) == message_effect(
                old(self).running_spec(),
                old(sink).pending(),
                msg,
            ),
            final(sink).in_flight() == old(sink).in_flight(),
            !(old(self).running_spec() && msg is Input) ==> final(sink).queued() == old(sink).queued(),
    {
        if !self.running {
            return MsgAction::Ignored;
        }
        match msg {
            Msg::Input(bytes) => {
                sink.enqueue(bytes);
                MsgAction::Continue
            },
            Msg::Resize(size) => MsgAction::Resize(size),
            Msg::Shutdown => {
                self.running = false;
                MsgAction::Stop
            },
        }
    }

    /// Decides what one readiness event calls for. Events that end the loop
    /// stop it.
    pub fn on_event(&mut self, ev: Readiness) -> (r: EventAction)
        ensures
            r == event_action(ev),
            final(self).running_spec() == (old(self).running_spec() && r != EventAction::Exit
                && r != EventAction::FinalRead),
    {
        let r = match ev.source {
            Source::Inbound => if ev.read_closed {
                EventAction::Exit
            } else {
                EventAction::Drain
            },
            Source::ChildExit => EventAction::FinalRead,
            Source::Pty => EventAction::Io { read: ev.readable, write: ev.writable },
            Source::Other => EventAction::Ignore,
        };
        if r == EventAction::Exit || r == EventAction::FinalRead {
            self.running = false;
        }
        r
    }

    /// A read cycle failed. `EIO` means the other side of the pty hung up: the
    /// loop goes on and waits for the child's exit. Any other error stops it.
    /// Says whether the loop goes on.
    pub fn on_read_error(&mut self, is_eio: bool) -> (r: bool)
        ensures
            r == is_eio,
            final(self).running_spec() == (old(self).running_spec() && is_eio),
    {
        if !is_eio {
            self.running = false;
        }
        is_eio
    }

    /// Whether a loop that was asked to shut down may end after this poll
    /// iteration: it is stopped and nothing is owed to the pty, so the input
    /// taken in before the shutdown has all been written.
    pub fn may_exit(&self, sink: &State) -> (r: bool)
        requires
            sink.wf(),
        ensures
            r == (!self.running_spec() && sink.pending().len() == 0),
    {
        !self.running && !sink.needs_write()
    }

    /// Decides what follows a poll that returned `events` events.
    pub fn after_poll(&self, events: usize) -> (r: PollAction)
        ensures
            r == if events == 0 {
                PollAction::SyncTimeout
            } else {
                PollAction::Dispatch
            },
    {
        if events == 0 {
            PollAction::SyncTimeout
        } else {
            PollAction::Dispatch
        }
    }

    /// A write cycle failed: the loop stops.
    pub fn on_write_error(&mut self)
        ensures
            !final(self).running_spec(),
    {
        self.running = false;
    }
}

/// How long the poller may wait for a synchronized update that ends at
/// `deadline`, at time `now` (both in nanoseconds from one origin): never
/// below zero; without a deadline, as long as it takes.
pub fn poll_timeout(deadline: Option<u64>, now: u64) -> (r: Option<u64>)
    ensures
        deadline is None ==> r is None,
        deadline is Some ==> r is Some && r->Some_0 == if deadline->Some_0 > now {
            deadline->Some_0 - now
        } else {
            0
        },
{
    match deadline {
        Some(d) => Some(d.saturating_sub(now)),
        None => None,
    }
}

/// A shutdown after the first one changes nothing: the loop stays stopped,
/// nothing more is owed to the pty, and the message is dropped.
pub proof fn lemma_shutdown_twice(running: bool, pending: Seq<u8>)
    ensures
        ({
            let (r1, p1, _) = message_effect(running, pending, Msg::Shutdown);
            let (r2, p2, a2) = message_effect(r1, p1, Msg::Shutdown);
            &&& !r1
            &&& r2 == r1
            &&& p2 == p1
            &&& a2 == MsgAction::Ignored
        }),
{
}

/// Input taken in before a shutdown is owed to the pty in the order it came,
/// behind what was owed before.
pub proof fn lemma_inputs_in_order(pending: Seq<u8>, a: Vec<u8>, b: Vec<u8>)
    ensures
        ({
            let (r1, p1, _) = message_effect(true, pending, Msg::Input(a));
            let (_, p2, _) = message_effect(r1, p1, Msg::Input(b));
            p2 == pending + a@ + b@
        }),
{
}

} // verus!
