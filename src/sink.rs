use vstd::prelude::*;

verus! {

/// The bytes of `chunks`, one chunk after the other.
pub open spec fn concat(chunks: Seq<Seq<u8>>) -> Seq<u8>
    decreases chunks.len(),
{
    if chunks.len() == 0 {
        seq![]
    } else {
        concat(chunks.drop_last()) + chunks.last()
    }
}

proof fn lemma_concat_front(chunks: Seq<Seq<u8>>)
    requires
        chunks.len() > 0,
    ensures
        concat(chunks) == chunks[0] + concat(chunks.subrange(1, chunks.len() as int)),
    decreases chunks.len(),
{
    if chunks.len() == 1 {
        assert(chunks.drop_last() =~= seq![]);
        assert(concat(chunks.drop_last()) =~= Seq::<u8>::empty());
        assert(chunks.subrange(1, 1) =~= seq![]);
        assert(concat(chunks) =~= chunks[0]);
    } else {
        let rest = chunks.subrange(1, chunks.len() as int);
        lemma_concat_front(chunks.drop_last());
        assert(chunks.drop_last().subrange(1, chunks.len() - 1) =~= rest.drop_last());
        assert(rest.last() == chunks.last());
        assert(concat(chunks) =~= chunks[0] + concat(rest));
    }
}

/// A chunk on its way to the pty, with how much of it was written.
pub struct Writing {
    source: Vec<u8>,
    written: usize,
}

impl Writing {
    pub closed spec fn source_spec(&self) -> Seq<u8> {
        self.source@
    }

    pub closed spec fn written_spec(&self) -> nat {
        self.written as nat
    }

    /// What is left to write.
    pub open spec fn remaining(&self) -> Seq<u8> {
        self.source_spec().skip(self.written_spec() as int)
    }

    pub open spec fn wf(&self) -> bool {
        self.written_spec() <= self.source_spec().len()
    }

    pub fn new(c: Vec<u8>) -> (r: Writing)
        ensures
            r.wf(),
            r.source_spec() == c@,
            r.written_spec() == 0,
            r.remaining() == c@,
    {
        let r = Writing { source: c, written: 0 };
        assert(r.remaining() =~= c@);
        r
    }

    /// Counts `n` more bytes as written.
    pub fn advance(&mut self, n: usize)
        requires
            old(self).wf(),
            n <= old(self).remaining().len(),
        ensures
            final(self).wf(),
            final(self).source_spec() == old(self).source_spec(),
            final(self).written_spec() == old(self).written_spec() + n,
            final(self).remaining() == old(self).remaining().skip(n as int),
    {
        let len = self.source.len();
        assert(self.written + n <= len);
        self.written = self.written + n;
        assert(self.remaining() =~= old(self).remaining().skip(n as int));
    }

    pub fn remaining_bytes(&self) -> (r: &[u8])
        requires
            self.wf(),
        ensures
            r@ == self.remaining(),
    {
        vstd::slice::slice_subrange(self.source.as_slice(), self.written, self.source.len())
    }

    pub fn finished(&self) -> (r: bool)
        requires
            self.wf(),
        ensures
            r == (self.remaining().len() == 0),
    {
        self.written >= self.source.len()
    }
}

/// What the pty made of one `write` call.
pub enum WriteOutcome {
    /// `Ok(n)`: `n` bytes were taken (`0`: the pty is full).
    Wrote(usize),
    /// `WouldBlock` or `Interrupted`.
    Blocked,
    /// Any other error.
    Failed,
}

/// What the write cycle does next.
#[derive(PartialEq, Eq, Structural, Debug, Clone, Copy)]
pub enum WriteStep {
    /// Write again: what `current_bytes` gives, if anything.
    Again,
    /// Stop for now and wait for the pty to be writable.
    Yield,
    /// Stop: the error is fatal to the loop.
    Fail,
}

/// `in_flight` and `after` are what promoting the head of the queue `before`
/// gives: the head goes in flight with nothing written and leaves the queue; an
/// empty queue puts nothing in flight.
pub open spec fn promotes_head(
    before: Seq<Seq<u8>>,
    in_flight: Option<Writing>,
    after: Seq<Seq<u8>>,
) -> bool {
    if before.len() > 0 {
        &&& in_flight is Some
        &&& in_flight->Some_0.source_spec() == before[0]
        &&& in_flight->Some_0.written_spec() == 0
        &&& after == before.subrange(1, before.len() as int)
    } else {
        &&& in_flight is None
        &&& after == before
    }
}

/// The write queue of one event loop: chunks waiting for the pty, in order, and
/// the one being written.
pub struct State {
    write_list: std::collections::VecDeque<Vec<u8>>,
    writing: Option<Writing>,
}

impl State {
    /// The chunks waiting behind the one being written.
    pub closed spec fn queued(&self) -> Seq<Seq<u8>> {
        self.write_list@.map_values(|v: Vec<u8>| v@)
    }

    pub closed spec fn in_flight(&self) -> Option<Writing> {
        self.writing
    }

    /// What is left of the chunk being written.
    pub open spec fn in_flight_bytes(&self) -> Seq<u8> {
        match self.in_flight() {
            Some(w) => w.remaining(),
            None => seq![],
        }
    }

    /// Every byte still owed to the pty, in the order it is to be written.
    pub open spec fn pending(&self) -> Seq<u8> {
        self.in_flight_bytes() + concat(self.queued())
    }

    pub open spec fn wf(&self) -> bool {
        &&& forall|i: int| 0 <= i < self.queued().len() ==> #[trigger] self.queued()[i].len() > 0
        &&& self.in_flight() is Some ==> {
            &&& self.in_flight()->Some_0.wf()
            &&& self.in_flight_bytes().len() > 0
        }
    }

    pub fn new() -> (r: State)
        ensures
            r.wf(),
            r.pending() == Seq::<u8>::empty(),
            r.in_flight() is None,
            r.queued() == Seq::<Seq<u8>>::empty(),
    {
        let r = State { write_list: std::collections::VecDeque::new(), writing: None };
        assert(r.queued() =~= Seq::<Seq<u8>>::empty());
        assert(r.pending() =~= Seq::<u8>::empty());
        r
    }

    /// Queues `chunk` behind everything already pending; an empty chunk owes
    /// nothing and is not queued.
    pub fn enqueue(&mut self, chunk: Vec<u8>)
        requires
            old(self).wf(),
        ensures
            final(self).wf(),
            final(self).pending() == old(self).pending() + chunk@,
            final(self).in_flight() == old(self).in_flight(),
            final(self).queued() == if chunk@.len() == 0 {
                old(self).queued()
            } else {
                old(self).queued().push(chunk@)
            },
    {
        if chunk.len() == 0 {
            assert(old(self).pending() + chunk@ =~= old(self).pending());
            return;
        }
        let ghost q = self.queued();
        let ghost c = chunk@;
        self.write_list.push_back(chunk);
        assert(self.queued() =~= q.push(c));
        assert(self.queued().drop_last() =~= q);
        assert(self.pending() =~= old(self).pending() + c);
    }

    /// Makes the head of the queue the chunk being written, unless one is
    /// already being written.
    pub fn ensure_next(&mut self)
        requires
            old(self).wf(),
        ensures
            final(self).wf(),
            final(self).pending() == old(self).pending(),
            final(self).in_flight() is Some <==> final(self).pending().len() > 0,
            old(self).in_flight() is Some ==> {
                &&& final(self).in_flight() == old(self).in_flight()
                &&& final(self).queued() == old(self).queued()
            },
            old(self).in_flight() is None ==> promotes_head(
                old(self).queued(),
                final(self).in_flight(),
                final(self).queued(),
            ),
    {
        if self.writing.is_none() {
            self.goto_next();
        }
        proof {
            if self.in_flight() is None {
                assert(self.queued().len() == 0);
                assert(self.pending() =~= Seq::<u8>::empty());
            }
        }
    }

    /// Drops the chunk being written and makes the head of the queue the next
    /// one.
    pub fn goto_next(&mut self)
        requires
            old(self).wf(),
        ensures
            final(self).wf(),
            final(self).pending() == concat(old(self).queued()),
            promotes_head(old(self).queued(), final(self).in_flight(), final(self).queued()),
    {
        let ghost q = self.queued();
        match self.write_list.pop_front() {
            Some(c) => {
                proof {
                    lemma_concat_front(q);
                    assert(q[0] == c@);
                }
                self.writing = Some(Writing::new(c));
                assert(self.queued() =~= q.subrange(1, q.len() as int));
                assert forall|i: int| 0 <= i < self.queued().len() implies #[trigger] self.queued()[i].len() > 0 by {
                    assert(self.queued()[i] == q[i + 1]);
                }
                assert(self.pending() =~= concat(q));
            },
            None => {
                self.writing = None;
                assert(q.len() == 0);
                assert(self.pending() =~= concat(q));
            },
        }
    }

    /// Detaches the chunk being written.
    pub fn take_current(&mut self) -> (r: Option<Writing>)
        requires
            old(self).wf(),
        ensures
            r == old(self).in_flight(),
            final(self).in_flight() is None,
            final(self).queued() == old(self).queued(),
            final(self).wf(),
    {
        self.writing.take()
    }

    /// Puts back `new` as the chunk being written.
    pub fn set_current(&mut self, new: Option<Writing>)
        requires
            old(self).wf(),
            new is Some ==> new->Some_0.wf() && new->Some_0.remaining().len() > 0,
        ensures
            final(self).in_flight() == new,
            final(self).queued() == old(self).queued(),
            final(self).wf(),
    {
        self.writing = new;
    }

    /// Whether any byte is owed to the pty.
    pub fn needs_write(&self) -> (r: bool)
        requires
            self.wf(),
        ensures
            r == (self.pending().len() > 0),
    {
        let r = self.writing.is_some() || self.write_list.len() > 0;
        proof {
            if self.queued().len() > 0 {
                lemma_concat_front(self.queued());
            } else {
                assert(concat(self.queued()) =~= Seq::<u8>::empty());
            }
        }
        r
    }

    /// What is left of the chunk being written: the next bytes owed to the pty.
    pub fn current_bytes(&self) -> (r: Option<&[u8]>)
        requires
            self.wf(),
        ensures
            r is None <==> self.in_flight() is None,
            r is Some ==> {
                &&& r->Some_0@ == self.in_flight_bytes()
                &&& r->Some_0@.len() > 0
                &&& r->Some_0@ == self.pending().take(r->Some_0@.len() as int)
            },
    {
        match &self.writing {
            Some(w) => {
                let b = w.remaining_bytes();
                assert(b@ =~= self.pending().take(b@.len() as int));
                Some(b)
            },
            None => None,
        }
    }

    /// Takes in what the pty made of writing `current_bytes`, and says what the
    /// write cycle does next. What was written leaves the front of `pending`; a
    /// finished chunk gives way to the next one.
    pub fn after_write(&mut self, outcome: WriteOutcome) -> (r: WriteStep)
        requires
            old(self).wf(),
            old(self).in_flight() is Some,
            outcome matches WriteOutcome::Wrote(n) ==> n <= old(self).in_flight_bytes().len(),
        ensures
            final(self).wf(),
            match outcome {
                WriteOutcome::Wrote(n) => {
                    &&& final(self).pending() == old(self).pending().skip(n as int)
                    &&& r == if n == 0 {
                        WriteStep::Yield
                    } else {
                        WriteStep::Again
                    }
                },
                WriteOutcome::Blocked => {
                    &&& final(self).pending() == old(self).pending()
                    &&& r == WriteStep::Yield
                },
                WriteOutcome::Failed => {
                    &&& final(self).pending() == old(self).pending()
                    &&& r == WriteStep::Fail
                },
            },
            r == WriteStep::Again ==> (final(self).in_flight() is Some <==> final(self).pending().len() > 0),
            r != WriteStep::Again ==> {
                &&& final(self).in_flight() == old(self).in_flight()
                &&& final(self).queued() == old(self).queued()
            },
            outcome matches WriteOutcome::Wrote(n) ==> n > 0 ==> {
                let w = old(self).in_flight()->Some_0;
                if n < w.remaining().len() {
                    &&& final(self).in_flight() is Some
                    &&& final(self).in_flight()->Some_0.source_spec() == w.source_spec()
                    &&& final(self).in_flight()->Some_0.written_spec() == w.written_spec() + n
                    &&& final(self).queued() == old(self).queued()
                } else {
                    promotes_head(old(self).queued(), final(self).in_flight(), final(self).queued())
                }
            },
    {
        match outcome {
            WriteOutcome::Wrote(n) => {
                if n == 0 {
                    assert(old(self).pending().skip(0) =~= old(self).pending());
                    return WriteStep::Yield;
                }
                let ghost p = self.pending();
                let ghost rest = concat(self.queued());
                let mut current = self.writing.take().unwrap();
                current.advance(n);
                if current.finished() {
                    self.goto_next();
                    assert(p.skip(n as int) =~= rest);
                    self.ensure_next();
                } else {
                    self.writing = Some(current);
                    assert(self.pending() =~= p.skip(n as int));
                }
                WriteStep::Again
            },
            WriteOutcome::Blocked => WriteStep::Yield,
            WriteOutcome::Failed => WriteStep::Fail,
        }
    }
}

/// Bytes reach the pty in the order they were queued: writing `a` bytes and then
/// `b` more hands over the first `a + b` bytes of what was pending, and leaves
/// the rest.
pub proof fn lemma_writes_in_order(pending: Seq<u8>, a: nat, b: nat)
    requires
        a + b <= pending.len(),
    ensures
        pending.take(a as int) + pending.skip(a as int).take(b as int) == pending.take(
            (a + b) as int,
        ),
        pending.skip(a as int).skip(b as int) == pending.skip((a + b) as int),
{
    assert(pending.take(a as int) + pending.skip(a as int).take(b as int) =~= pending.take(
        (a + b) as int,
    ));
    assert(pending.skip(a as int).skip(b as int) =~= pending.skip((a + b) as int));
}

/// A chunk queued while earlier bytes are partly written is written after all
/// of them: writing `a` of what was pending before the chunk came leaves the
/// rest of it, then the chunk.
pub proof fn lemma_queued_after_pending(pending: Seq<u8>, chunk: Seq<u8>, a: nat)
    requires
        a <= pending.len(),
    ensures
        (pending + chunk).skip(a as int) == pending.skip(a as int) + chunk,
        (pending + chunk).take(a as int) == pending.take(a as int),
{
    assert((pending + chunk).skip(a as int) =~= pending.skip(a as int) + chunk);
    assert((pending + chunk).take(a as int) =~= pending.take(a as int));
}

} // verus!
