use vstd::prelude::*;

verus! {

/// Size of the buffer the pty is read into.
pub const READ_BUFFER_SIZE: usize = 0x10_0000;

/// Bytes to feed the parser before the grid lock is given up.
pub const MAX_LOCKED_READ: usize = 65535;

/// What the pty made of one `read` call into the buffer from `read_from` on.
pub enum ReadOutcome {
    /// `Ok(n)`: `n` bytes came.
    Got(usize),
    /// `WouldBlock` or `Interrupted`.
    Blocked,
    /// Any other error.
    Failed,
}

/// What the driver of a read cycle does next.
#[derive(PartialEq, Eq, Structural, Debug, Clone, Copy)]
pub enum ReadStep {
    /// Read from the pty into the buffer from `read_from` on.
    Read,
    /// Try to take the grid lock without waiting.
    TryLock,
    /// Wait for the grid lock: the buffer is full.
    Lock,
    /// Feed the first `n` bytes of the buffer to the parser, in order.
    Parse(usize),
    /// The cycle is over; the lock, if taken, is given up.
    Done,
    /// The read failed: the cycle is over and the error goes to the caller.
    Fail,
}

/// Which call a read cycle waits for.
#[derive(PartialEq, Eq, Structural, Debug, Clone, Copy)]
pub enum Phase {
    Reading,
    Locking,
    Waiting,
    Parsing,
    Finished,
    Failed,
}

pub struct ReadCycleView {
    /// Bytes at the front of the buffer not yet fed to the parser.
    pub unprocessed: nat,
    /// Bytes fed to the parser in this cycle.
    pub processed: nat,
    pub locked: bool,
    pub phase: Phase,
}

/// One read cycle: read the pty and feed the parser until the pty would block
/// with nothing left to parse, or until `MAX_LOCKED_READ` bytes were parsed,
/// taking the grid lock only when there is something to parse.
pub struct ReadCycle {
    unprocessed: usize,
    processed: usize,
    locked: bool,
    phase: Phase,
}

impl View for ReadCycle {
    type V = ReadCycleView;

    closed spec fn view(&self) -> ReadCycleView {
        ReadCycleView {
            unprocessed: self.unprocessed as nat,
            processed: self.processed as nat,
            locked: self.locked,
            phase: self.phase,
        }
    }
}

/// The step that comes once bytes wait in the buffer: parse them when the lock
/// is held, else ask for it.
pub open spec fn step_with_bytes(unprocessed: nat, locked: bool) -> ReadStep {
    if locked {
        ReadStep::Parse(unprocessed as usize)
    } else {
        ReadStep::TryLock
    }
}

pub open spec fn phase_of(step: ReadStep) -> Phase {
    match step {
        ReadStep::Read => Phase::Reading,
        ReadStep::TryLock => Phase::Locking,
        ReadStep::Lock => Phase::Waiting,
        ReadStep::Parse(_) => Phase::Parsing,
        ReadStep::Done => Phase::Finished,
        ReadStep::Fail => Phase::Failed,
    }
}

impl ReadCycle {
    pub open spec fn wf(&self) -> bool {
        &&& self@.unprocessed <= READ_BUFFER_SIZE
        &&& self@.phase != Phase::Finished && self@.phase != Phase::Failed ==> self@.processed
            < MAX_LOCKED_READ
        &&& self@.phase == Phase::Finished ==> self@.unprocessed == 0
        &&& self@.processed < MAX_LOCKED_READ + READ_BUFFER_SIZE
        &&& self@.phase == Phase::Parsing ==> self@.locked && self@.unprocessed > 0
        &&& (self@.phase == Phase::Locking || self@.phase == Phase::Waiting) ==> !self@.locked
            && self@.unprocessed > 0
        &&& self@.phase == Phase::Waiting ==> self@.unprocessed == READ_BUFFER_SIZE
    }

    pub fn new() -> (r: ReadCycle)
        ensures
            r.wf(),
            r@ == (ReadCycleView { unprocessed: 0, processed: 0, locked: false, phase: Phase::Reading }),
    {
        ReadCycle { unprocessed: 0, processed: 0, locked: false, phase: Phase::Reading }
    }

    /// Where in the buffer the next read goes: after the bytes not yet parsed.
    pub fn read_from(&self) -> (r: usize)
        ensures
            r == self@.unprocessed,
    {
        self.unprocessed
    }

    /// Bytes fed to the parser in this cycle.
    pub fn processed(&self) -> (r: usize)
        ensures
            r == self@.processed,
    {
        self.processed
    }

    pub fn locked(&self) -> (r: bool)
        ensures
            r == self@.locked,
    {
        self.locked
    }

    fn go(&mut self, step: ReadStep) -> (r: ReadStep)
        ensures
            r == step,
            final(self)@ == (ReadCycleView { phase: phase_of(step), ..old(self)@ }),
    {
        self.phase = match step {
            ReadStep::Read => Phase::Reading,
            ReadStep::TryLock => Phase::Locking,
            ReadStep::Lock => Phase::Waiting,
            ReadStep::Parse(_) => Phase::Parsing,
            ReadStep::Done => Phase::Finished,
            ReadStep::Fail => Phase::Failed,
        };
        step
    }

    /// Takes in what a read of the pty gave. The cycle ends when nothing came
    /// and nothing waits to be parsed; new bytes go behind those that wait.
    pub fn on_read(&mut self, outcome: ReadOutcome) -> (r: ReadStep)
        requires
            old(self).wf(),
            old(self)@.phase == Phase::Reading,
            outcome matches ReadOutcome::Got(n) ==> old(self)@.unprocessed + n <= READ_BUFFER_SIZE,
        ensures
            final(self).wf(),
            final(self)@.phase == phase_of(r),
            final(self)@.processed == old(self)@.processed,
            final(self)@.locked == old(self)@.locked,
            match outcome {
                ReadOutcome::Got(n) => {
                    &&& final(self)@.unprocessed == old(self)@.unprocessed + n
                    &&& r == if old(self)@.unprocessed + n == 0 {
                        ReadStep::Done
                    } else {
                        step_with_bytes((old(self)@.unprocessed + n) as nat, old(self)@.locked)
                    }
                },
                ReadOutcome::Blocked => {
                    &&& final(self)@.unprocessed == old(self)@.unprocessed
                    &&& r == if old(self)@.unprocessed == 0 {
                        ReadStep::Done
                    } else {
                        step_with_bytes(old(self)@.unprocessed, old(self)@.locked)
                    }
                },
                ReadOutcome::Failed => {
                    &&& final(self)@.unprocessed == old(self)@.unprocessed
                    &&& r == ReadStep::Fail
                },
            },
    {
        match outcome {
            ReadOutcome::Got(n) => {
                self.unprocessed = self.unprocessed + n;
            },
            ReadOutcome::Blocked => {},
            ReadOutcome::Failed => {
                return self.go(ReadStep::Fail);
            },
        }
        if self.unprocessed == 0 {
            self.go(ReadStep::Done)
        } else if self.locked {
            self.go(ReadStep::Parse(self.unprocessed))
        } else {
            self.go(ReadStep::TryLock)
        }
    }

    /// Takes in whether the lock was taken without waiting. When it was not,
    /// read on while the buffer has room, and wait for it once the buffer is
    /// full.
    pub fn on_try_lock(&mut self, acquired: bool) -> (r: ReadStep)
        requires
            old(self).wf(),
            old(self)@.phase == Phase::Locking,
        ensures
            final(self).wf(),
            final(self)@.phase == phase_of(r),
            final(self)@.processed == old(self)@.processed,
            final(self)@.unprocessed == old(self)@.unprocessed,
            final(self)@.locked == acquired,
            r == if acquired {
                ReadStep::Parse(old(self)@.unprocessed as usize)
            } else if old(self)@.unprocessed < READ_BUFFER_SIZE {
                ReadStep::Read
            } else {
                ReadStep::Lock
            },
    {
        if acquired {
            self.locked = true;
            self.go(ReadStep::Parse(self.unprocessed))
        } else if self.unprocessed < READ_BUFFER_SIZE {
            self.go(ReadStep::Read)
        } else {
            self.go(ReadStep::Lock)
        }
    }

    /// The lock was taken after waiting for it: parse what waits.
    pub fn on_locked(&mut self) -> (r: ReadStep)
        requires
            old(self).wf(),
            old(self)@.phase == Phase::Waiting,
        ensures
            final(self).wf(),
            final(self)@.phase == Phase::Parsing,
            final(self)@.processed == old(self)@.processed,
            final(self)@.unprocessed == old(self)@.unprocessed,
            final(self)@.locked,
            r == ReadStep::Parse(old(self)@.unprocessed as usize),
    {
        self.locked = true;
        self.go(ReadStep::Parse(self.unprocessed))
    }

    /// The bytes handed out by `Parse` were fed to the parser. The cycle ends
    /// once `MAX_LOCKED_READ` bytes were parsed; else it reads on.
    pub fn on_parsed(&mut self) -> (r: ReadStep)
        requires
            old(self).wf(),
            old(self)@.phase == Phase::Parsing,
        ensures
            final(self).wf(),
            final(self)@.phase == phase_of(r),
            final(self)@.processed == old(self)@.processed + old(self)@.unprocessed,
            final(self)@.unprocessed == 0,
            final(self)@.locked,
            r == if final(self)@.processed >= MAX_LOCKED_READ {
                ReadStep::Done
            } else {
                ReadStep::Read
            },
    {
        self.processed = self.processed + self.unprocessed;
        self.unprocessed = 0;
        if self.processed >= MAX_LOCKED_READ {
            self.go(ReadStep::Done)
        } else {
            self.go(ReadStep::Read)
        }
    }

    /// Whether the renderer is to be woken once the cycle is over: some bytes
    /// were parsed, and not all of them went into a synchronized update.
    pub fn needs_wakeup(&self, sync_bytes: usize) -> (r: bool)
        ensures
            r == (sync_bytes < self@.processed && self@.processed > 0),
    {
        sync_bytes < self.processed && self.processed > 0
    }
}

/// A cycle that ended without an error has fed every byte it read to the
/// parser: none waits in the buffer.
pub proof fn lemma_finished_parsed_all(c: ReadCycle)
    requires
        c.wf(),
        c@.phase == Phase::Finished,
    ensures
        c@.unprocessed == 0,
{
}

/// Bytes are fed to the parser, which changes the grid, only while the cycle
/// holds the grid lock.
pub proof fn lemma_parse_under_lock(c: ReadCycle)
    requires
        c.wf(),
        c@.phase == Phase::Parsing,
    ensures
        c@.locked,
{
}

/// No parse starts once `MAX_LOCKED_READ` bytes were parsed in the cycle, so
/// what the cycle feeds the parser under the lock stays below
/// `MAX_LOCKED_READ` bytes and one buffer.
pub proof fn lemma_lock_bounded(c: ReadCycle)
    requires
        c.wf(),
        c@.phase == Phase::Parsing,
    ensures
        c@.processed < MAX_LOCKED_READ,
        c@.processed + c@.unprocessed < MAX_LOCKED_READ + READ_BUFFER_SIZE,
{
}

} // verus!
