//! The two-stage copy pipeline core.
//!
//! A copy run has two concurrent stages: a reader that produces records and
//! a writer that persists them.  They share exactly one bounded FIFO queue
//! and a few counters, modelled here as the state machine [`PipeModel`] with
//! atomic steps [`PipeEvent`].  The executable [`CopyPipeline`] performs each
//! step and is proved to follow the model; the blocking loops around it (one
//! thread per stage, sleeping and retrying) live outside the library and
//! only ever call these step functions.
//!
//! The invariant [`pipe_inv`] carries the ordering guarantee: what was
//! written, what is in flight, and what is still queued, concatenated in
//! that order, is exactly the sequence of records pushed by the reader.

use vstd::prelude::*;

use crate::message::Message;
use crate::message::MessageV;
use crate::message::msgs_view;

verus! {

/// The externally observable phase of a copy run.
///
/// The run starts `Reading`; when the source is exhausted the reader closes
/// its end of the queue (`Draining`); when the queue is drained the writer
/// flushes the sink (`Flushing`); a successful flush ends the run (`Done`).
#[derive(Clone, Copy, PartialEq, Eq, Structural, Debug)]
pub enum Phase {
    Reading,
    Draining,
    Flushing,
    Done,
}

/// Tuning for a copy run: the bounded queue capacity, the per-operation
/// poll timeout and the fixed delay between write retries.
#[derive(Clone, Copy, PartialEq, Eq, Structural, Debug)]
pub struct PipelineConfig {
    pub buffer: usize,
    pub timeout_ms: u64,
    pub retry_delay_ms: u64,
}

impl PipelineConfig {
    /// The queue between the stages must be able to hold a record.
    pub open spec fn wf(self) -> bool {
        self.buffer >= 1
    }

    /// Build a configuration; the buffer capacity must be at least one.
    pub fn new(buffer: usize, timeout_ms: u64, retry_delay_ms: u64) -> (r: Self)
        requires
            buffer >= 1,
        ensures
            r == (PipelineConfig { buffer, timeout_ms, retry_delay_ms }),
            r.wf(),
    {
        PipelineConfig { buffer, timeout_ms, retry_delay_ms }
    }
}

/// The mathematical state of a copy run.
#[verifier::ext_equal]
pub struct PipeModel {
    pub phase: Phase,
    /// Queue capacity; pushes block (are not enabled) at this length.
    pub cap: nat,
    /// Records pushed by the reader and not yet taken by the writer, FIFO.
    pub queued: Seq<MessageV>,
    /// The record the writer has taken and not yet written successfully.
    pub taken: Option<MessageV>,
    /// Every record the reader has pushed, in source order.
    pub pushed: Seq<MessageV>,
    /// Every record the writer has written successfully, in write order.
    pub written: Seq<MessageV>,
    /// Successful writes, as reported to progress display.
    pub transferred: nat,
    /// Failed write attempts; each is reported and retried, never dropped.
    pub write_errors: nat,
    /// Failed flush attempts.
    pub flush_errors: nat,
}

/// The in-flight record as a (zero- or one-element) sequence.
pub open spec fn taken_seq(t: Option<MessageV>) -> Seq<MessageV> {
    match t {
        Option::Some(m) => seq![m],
        Option::None => Seq::empty(),
    }
}

/// The pipeline invariant.
///
/// Its heart is the conservation equation: `written + taken + queued ==
/// pushed`.  No record is lost, duplicated or reordered anywhere between
/// the two stages.
pub open spec fn pipe_inv(m: PipeModel) -> bool {
    &&& m.cap >= 1
    &&& m.queued.len() <= m.cap
    &&& m.pushed == m.written + taken_seq(m.taken) + m.queued
    &&& m.transferred == m.written.len()
    &&& (m.phase == Phase::Flushing || m.phase == Phase::Done) ==> m.queued.len() == 0
        && m.taken is None
}

/// One atomic step of either stage.
pub enum PipeEvent {
    /// Reader: enqueue a record read from the source.
    Push(MessageV),
    /// Reader: the source is exhausted; close the queue.
    Close,
    /// Writer: dequeue the next record to write.
    Take,
    /// Writer: the sink accepted the in-flight record.
    WriteOk,
    /// Writer: the sink rejected the in-flight record; it stays in flight.
    WriteErr,
    /// Writer: queue closed and drained; start flushing the sink.
    BeginFlush,
    /// Writer: the flush failed and will be retried.
    FlushErr,
    /// Writer: the flush succeeded; the run is complete.
    FlushOk,
}

/// When a step may happen.  A `Push` on a full queue is not enabled: that
/// is the backpressure that bounds memory use.
pub open spec fn enabled(m: PipeModel, ev: PipeEvent) -> bool {
    match ev {
        PipeEvent::Push(_) => m.phase == Phase::Reading && m.queued.len() < m.cap,
        PipeEvent::Close => m.phase == Phase::Reading,
        PipeEvent::Take => m.taken is None && m.queued.len() > 0,
        PipeEvent::WriteOk => m.taken is Some,
        PipeEvent::WriteErr => m.taken is Some,
        PipeEvent::BeginFlush => m.phase == Phase::Draining && m.queued.len() == 0
            && m.taken is None,
        PipeEvent::FlushErr => m.phase == Phase::Flushing,
        PipeEvent::FlushOk => m.phase == Phase::Flushing,
    }
}

/// The transition function of the pipeline.
pub open spec fn step(m: PipeModel, ev: PipeEvent) -> PipeModel {
    match ev {
        PipeEvent::Push(v) => PipeModel { queued: m.queued.push(v), pushed: m.pushed.push(v), ..m },
        PipeEvent::Close => PipeModel { phase: Phase::Draining, ..m },
        PipeEvent::Take => PipeModel {
            taken: Option::Some(m.queued[0]),
            queued: m.queued.drop_first(),
            ..m
        },
        PipeEvent::WriteOk => PipeModel {
            written: m.written + taken_seq(m.taken),
            taken: Option::None,
            transferred: m.transferred + 1,
            ..m
        },
        PipeEvent::WriteErr => PipeModel { write_errors: m.write_errors + 1, ..m },
        PipeEvent::BeginFlush => PipeModel { phase: Phase::Flushing, ..m },
        PipeEvent::FlushErr => PipeModel { flush_errors: m.flush_errors + 1, ..m },
        PipeEvent::FlushOk => PipeModel { phase: Phase::Done, ..m },
    }
}

/// Whether a whole sequence of steps is enabled from a state.
pub open spec fn trace_enabled(m: PipeModel, evs: Seq<PipeEvent>) -> bool
    decreases evs.len(),
{
    evs.len() == 0 || (enabled(m, evs[0]) && trace_enabled(step(m, evs[0]), evs.drop_first()))
}

/// The state after a whole sequence of steps.
pub open spec fn run(m: PipeModel, evs: Seq<PipeEvent>) -> PipeModel
    decreases evs.len(),
{
    if evs.len() == 0 {
        m
    } else {
        run(step(m, evs[0]), evs.drop_first())
    }
}

/// Any enabled step preserves the pipeline invariant.
pub proof fn lemma_step_preserves_inv(m: PipeModel, ev: PipeEvent)
    requires
        pipe_inv(m),
        enabled(m, ev),
    ensures
        pipe_inv(step(m, ev)),
{
    match ev {
        PipeEvent::Push(v) => {
            assert(m.written + taken_seq(m.taken) + m.queued.push(v) =~= (m.written + taken_seq(
                m.taken,
            ) + m.queued).push(v));
        },
        PipeEvent::Take => {
            assert(m.written + taken_seq(Option::Some(m.queued[0])) + m.queued.drop_first()
                =~= m.written + taken_seq(Option::None) + m.queued);
        },
        PipeEvent::WriteOk => {
            assert((m.written + taken_seq(m.taken)) + taken_seq(Option::None) + m.queued
                =~= m.written + taken_seq(m.taken) + m.queued);
        },
        _ => {},
    }
}

/// The invariant is preserved along any enabled trace: it holds in every
/// state a run of the two stages can reach.
pub proof fn lemma_run_preserves_inv(m: PipeModel, evs: Seq<PipeEvent>)
    requires
        pipe_inv(m),
        trace_enabled(m, evs),
    ensures
        pipe_inv(run(m, evs)),
    decreases evs.len(),
{
    if evs.len() > 0 {
        lemma_step_preserves_inv(m, evs[0]);
        lemma_run_preserves_inv(step(m, evs[0]), evs.drop_first());
    }
}

/// Ordering: in every reachable state the records written so far are
/// exactly the first records the reader pushed, in the same order —
/// whatever the buffer capacity.
pub proof fn lemma_writes_in_order(m: PipeModel)
    requires
        pipe_inv(m),
    ensures
        m.written == m.pushed.take(m.written.len() as int),
{
    assert(m.written =~= (m.written + taken_seq(m.taken) + m.queued).take(m.written.len() as int));
}

/// Completion: when the run is done, the sink received every record the
/// source produced, in order, and the transfer count is exact.
pub proof fn lemma_done_all_written(m: PipeModel)
    requires
        pipe_inv(m),
        m.phase == Phase::Done,
    ensures
        m.written == m.pushed,
        m.transferred == m.pushed.len(),
{
    assert(m.written + taken_seq(m.taken) + m.queued =~= m.written);
}

/// Backpressure: a full queue disables every push, so with capacity one
/// the reader blocks as soon as one unconsumed record is ahead of the
/// writer's current item.
pub proof fn lemma_backpressure(m: PipeModel, v: MessageV)
    requires
        pipe_inv(m),
        m.queued.len() == m.cap,
    ensures
        !enabled(m, PipeEvent::Push(v)),
{
}

/// Retry accounting: a write that fails twice and then succeeds moves the
/// in-flight record to the written sequence exactly once, counts exactly
/// one transfer and logs exactly two write errors.
pub proof fn lemma_retry_counts(m: PipeModel)
    requires
        pipe_inv(m),
        m.taken is Some,
    ensures
        ({
            let evs = seq![PipeEvent::WriteErr, PipeEvent::WriteErr, PipeEvent::WriteOk];
            let m3 = run(m, evs);
            &&& trace_enabled(m, evs)
            &&& m3.transferred == m.transferred + 1
            &&& m3.write_errors == m.write_errors + 2
            &&& m3.written == m.written + taken_seq(m.taken)
            &&& m3.taken is None
            &&& pipe_inv(m3)
        }),
{
    let evs = seq![PipeEvent::WriteErr, PipeEvent::WriteErr, PipeEvent::WriteOk];
    let m1 = step(m, PipeEvent::WriteErr);
    let m2 = step(m1, PipeEvent::WriteErr);
    let m3 = step(m2, PipeEvent::WriteOk);
    lemma_step_preserves_inv(m, PipeEvent::WriteErr);
    lemma_step_preserves_inv(m1, PipeEvent::WriteErr);
    lemma_step_preserves_inv(m2, PipeEvent::WriteOk);
    let e1 = evs.drop_first();
    let e2 = e1.drop_first();
    let e3 = e2.drop_first();
    assert(evs[0] == PipeEvent::WriteErr);
    assert(e1 =~= seq![PipeEvent::WriteErr, PipeEvent::WriteOk]);
    assert(e2 =~= seq![PipeEvent::WriteOk]);
    assert(e3 =~= Seq::<PipeEvent>::empty());
    assert(run(m, evs) == run(m1, e1));
    assert(run(m1, e1) == run(m2, e2));
    assert(run(m2, e2) == run(m3, e3));
    assert(run(m3, e3) == m3);
    assert(trace_enabled(m3, e3));
    assert(trace_enabled(m2, e2));
    assert(trace_enabled(m1, e1));
    assert(trace_enabled(m, evs));
}

/// The executable pipeline state shared by the two stages.
///
/// `pushed`, `written` and `taken` are ghost history: they record what
/// flowed through the queue so the contracts can speak about order and
/// completeness without keeping the records themselves.
pub struct CopyPipeline {
    phase: Phase,
    capacity: usize,
    queue: Vec<Message>,
    transferred: u64,
    write_errors: u64,
    flush_errors: u64,
    taken: Ghost<Option<MessageV>>,
    pushed: Ghost<Seq<MessageV>>,
    written: Ghost<Seq<MessageV>>,
}

impl View for CopyPipeline {
    type V = PipeModel;

    closed spec fn view(&self) -> PipeModel {
        PipeModel {
            phase: self.phase,
            cap: self.capacity as nat,
            queued: msgs_view(self.queue@),
            taken: self.taken@,
            pushed: self.pushed@,
            written: self.written@,
            transferred: self.transferred as nat,
            write_errors: self.write_errors as nat,
            flush_errors: self.flush_errors as nat,
        }
    }
}

impl CopyPipeline {
    /// The pipeline's state satisfies the invariant.
    pub open spec fn wf(&self) -> bool {
        pipe_inv(self@)
    }

    /// Start a run: phase `Reading`, empty queue, zero counters.
    pub fn new(config: &PipelineConfig) -> (r: CopyPipeline)
        requires
            config.wf(),
        ensures
            r.wf(),
            r@ == (PipeModel {
                phase: Phase::Reading,
                cap: config.buffer as nat,
                queued: Seq::empty(),
                taken: Option::None,
                pushed: Seq::empty(),
                written: Seq::empty(),
                transferred: 0,
                write_errors: 0,
                flush_errors: 0,
            }),
    {
        let r = CopyPipeline {
            phase: Phase::Reading,
            capacity: config.buffer,
            queue: Vec::new(),
            transferred: 0,
            write_errors: 0,
            flush_errors: 0,
            taken: Ghost(Option::None),
            pushed: Ghost(Seq::empty()),
            written: Ghost(Seq::empty()),
        };
        proof {
            assert(r@.queued =~= Seq::<MessageV>::empty());
            assert(r@.pushed =~= r@.written + taken_seq(r@.taken) + r@.queued);
        }
        r
    }

    /// The current phase.
    pub fn phase(&self) -> (r: Phase)
        ensures
            r == self@.phase,
    {
        self.phase
    }

    /// Successful writes so far.
    pub fn transferred(&self) -> (r: u64)
        ensures
            r == self@.transferred,
    {
        self.transferred
    }

    /// Failed write attempts so far.
    pub fn write_errors(&self) -> (r: u64)
        ensures
            r == self@.write_errors,
    {
        self.write_errors
    }

    /// Failed flush attempts so far.
    pub fn flush_errors(&self) -> (r: u64)
        ensures
            r == self@.flush_errors,
    {
        self.flush_errors
    }

    /// True when the reader may hand over another record without blocking.
    pub fn can_push(&self) -> (r: bool)
        ensures
            r == (self@.phase == Phase::Reading && self@.queued.len() < self@.cap),
    {
        match self.phase {
            Phase::Reading => self.queue.len() < self.capacity,
            _ => false,
        }
    }

    /// Reader: enqueue a record read from the source.  The caller blocks
    /// (does not call) while the queue is full: that is the backpressure
    /// point.
    pub fn push(&mut self, msg: Message)
        requires
            old(self).wf(),
            enabled(old(self)@, PipeEvent::Push(msg@)),
        ensures
            final(self).wf(),
            final(self)@ == step(old(self)@, PipeEvent::Push(msg@)),
    {
        proof {
            lemma_step_preserves_inv(self@, PipeEvent::Push(msg@));
        }
        let ghost v = msg@;
        self.queue.push(msg);
        self.pushed = Ghost(self.pushed@.push(v));
        proof {
            assert(final(self)@.queued =~= step(old(self)@, PipeEvent::Push(v)).queued);
            assert(final(self)@ =~= step(old(self)@, PipeEvent::Push(v)));
        }
    }

    /// Reader: the source is exhausted; close the queue.
    pub fn close_input(&mut self)
        requires
            old(self).wf(),
            enabled(old(self)@, PipeEvent::Close),
        ensures
            final(self).wf(),
            final(self)@ == step(old(self)@, PipeEvent::Close),
    {
        proof {
            lemma_step_preserves_inv(self@, PipeEvent::Close);
        }
        self.phase = Phase::Draining;
        proof {
            assert(final(self)@ =~= step(old(self)@, PipeEvent::Close));
        }
    }

    /// Writer: take the next record to write, in FIFO order, or learn that
    /// the queue is currently empty.
    pub fn take_next(&mut self) -> (r: Option<Message>)
        requires
            old(self).wf(),
            old(self)@.taken is None,
        ensures
            final(self).wf(),
            old(self)@.queued.len() == 0 ==> r is None && final(self)@ == old(self)@,
            old(self)@.queued.len() > 0 ==> ({
                &&& r matches Some(msg) && msg@ == old(self)@.queued[0]
                &&& final(self)@ == step(old(self)@, PipeEvent::Take)
            }),
    {
        if self.queue.len() == 0 {
            proof {
                assert(final(self)@ =~= old(self)@);
            }
            return None;
        }
        proof {
            lemma_step_preserves_inv(self@, PipeEvent::Take);
        }
        let msg = self.queue.remove(0);
        self.taken = Ghost(Option::Some(msg@));
        proof {
            assert(final(self)@.queued =~= step(old(self)@, PipeEvent::Take).queued);
            assert(final(self)@ =~= step(old(self)@, PipeEvent::Take));
        }
        Some(msg)
    }

    /// Writer: the sink accepted the in-flight record.
    pub fn write_ok(&mut self)
        requires
            old(self).wf(),
            old(self)@.taken is Some,
            old(self)@.transferred < u64::MAX,
        ensures
            final(self).wf(),
            final(self)@ == step(old(self)@, PipeEvent::WriteOk),
    {
        proof {
            lemma_step_preserves_inv(self@, PipeEvent::WriteOk);
        }
        self.transferred = self.transferred + 1;
        self.written = Ghost(self.written@ + taken_seq(self.taken@));
        self.taken = Ghost(Option::None);
        proof {
            assert(final(self)@ =~= step(old(self)@, PipeEvent::WriteOk));
        }
    }

    /// Writer: the sink rejected the in-flight record.  It stays in
    /// flight; the caller waits the retry delay and tries again.
    pub fn write_failed(&mut self)
        requires
            old(self).wf(),
            old(self)@.taken is Some,
            old(self)@.write_errors < u64::MAX,
        ensures
            final(self).wf(),
            final(self)@ == step(old(self)@, PipeEvent::WriteErr),
    {
        proof {
            lemma_step_preserves_inv(self@, PipeEvent::WriteErr);
        }
        self.write_errors = self.write_errors + 1;
        proof {
            assert(final(self)@ =~= step(old(self)@, PipeEvent::WriteErr));
        }
    }

    /// Writer: the queue is closed and drained; move to flushing.
    pub fn begin_flush(&mut self)
        requires
            old(self).wf(),
            enabled(old(self)@, PipeEvent::BeginFlush),
        ensures
            final(self).wf(),
            final(self)@ == step(old(self)@, PipeEvent::BeginFlush),
    {
        proof {
            lemma_step_preserves_inv(self@, PipeEvent::BeginFlush);
        }
        self.phase = Phase::Flushing;
        proof {
            assert(final(self)@ =~= step(old(self)@, PipeEvent::BeginFlush));
        }
    }

    /// Writer: the flush failed and will be retried after the delay.
    pub fn flush_failed(&mut self)
        requires
            old(self).wf(),
            old(self)@.phase == Phase::Flushing,
            old(self)@.flush_errors < u64::MAX,
        ensures
            final(self).wf(),
            final(self)@ == step(old(self)@, PipeEvent::FlushErr),
    {
        proof {
            lemma_step_preserves_inv(self@, PipeEvent::FlushErr);
        }
        self.flush_errors = self.flush_errors + 1;
        proof {
            assert(final(self)@ =~= step(old(self)@, PipeEvent::FlushErr));
        }
    }

    /// Writer: the flush succeeded; the run is complete.  From here the
    /// conservation invariant says every pushed record was written.
    pub fn flush_ok(&mut self)
        requires
            old(self).wf(),
            old(self)@.phase == Phase::Flushing,
        ensures
            final(self).wf(),
            final(self)@ == step(old(self)@, PipeEvent::FlushOk),
            final(self)@.written == final(self)@.pushed,
    {
        proof {
            lemma_step_preserves_inv(self@, PipeEvent::FlushOk);
        }
        self.phase = Phase::Done;
        proof {
            assert(final(self)@ =~= step(old(self)@, PipeEvent::FlushOk));
            lemma_done_all_written(final(self)@);
        }
    }
}

} // verus!
