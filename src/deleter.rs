//! The batch acknowledger: buffers acknowledgment entries and decides when to
//! flush them, under a size threshold, a periodic tick and shutdown.
use vstd::prelude::*;

use crate::ack::{flush_chunk, has_duplicate_ids, has_id, is_flush_of, AckEntry, FlushBatch, MAX_BATCH};

verus! {

/// `b` is the flush of `chunk`, its duplicate flag included.
pub open spec fn flush_of(b: FlushBatch, chunk: Seq<AckEntry>) -> bool {
    is_flush_of(b.entries@, chunk) && b.duplicates_removed == has_duplicate_ids(chunk)
}

/// The `i`-th slice of at most `MAX_BATCH` entries of `s`.
pub open spec fn chunk_at(s: Seq<AckEntry>, i: int) -> Seq<AckEntry> {
    let lo = i * MAX_BATCH as int;
    let hi = if lo + MAX_BATCH as int <= s.len() { lo + MAX_BATCH as int } else { s.len() as int };
    s.subrange(lo, hi)
}

/// `batches` flush all of `s`, front to back, `MAX_BATCH` entries at a time.
pub open spec fn flushes_all(batches: Seq<FlushBatch>, s: Seq<AckEntry>) -> bool {
    &&& s.len() <= batches.len() * MAX_BATCH
    &&& batches.len() == 0 || (batches.len() - 1) * MAX_BATCH < s.len()
    &&& forall|i: int| 0 <= i < batches.len() ==> flush_of(#[trigger] batches[i], chunk_at(s, i))
}

/// On the arrival of `e`: it is appended, and a buffer that reaches `MAX_BATCH`
/// entries is flushed at once.
pub open spec fn arrival(
    before: Seq<AckEntry>,
    e: AckEntry,
    after: Seq<AckEntry>,
    batches: Seq<FlushBatch>,
) -> bool {
    let p = before.push(e);
    if p.len() >= MAX_BATCH {
        &&& batches.len() == 1
        &&& flush_of(batches[0], p.subrange(0, MAX_BATCH as int))
        &&& after == p.subrange(MAX_BATCH as int, p.len() as int)
    } else {
        batches.len() == 0 && after == p
    }
}

/// One step of the acknowledger: from `o`, on `ev`, to `f`, sending `batches` in order.
pub open spec fn step_spec(o: DeleterView, ev: AckEvent, f: DeleterView, batches: Seq<FlushBatch>) -> bool {
    match o.phase {
        AckPhase::Finished => f == o && batches.len() == 0,
        AckPhase::Running => match ev {
            AckEvent::Tick => {
                &&& f.phase == AckPhase::Running
                &&& f.pending.len() == 0
                &&& flushes_all(batches, o.pending)
            },
            AckEvent::Received(e) => f.phase == AckPhase::Running && arrival(o.pending, e, f.pending, batches),
            AckEvent::Cancelled => {
                &&& f.phase == AckPhase::Draining
                &&& f.pending == o.pending
                &&& batches.len() == 0
            },
            AckEvent::Closed => f == o && batches.len() == 0,
        },
        AckPhase::Draining => match ev {
            AckEvent::Received(e) => f.phase == AckPhase::Draining && arrival(o.pending, e, f.pending, batches),
            AckEvent::Closed => {
                &&& f.phase == AckPhase::Finished
                &&& f.pending.len() == 0
                &&& flushes_all(batches, o.pending)
            },
            _ => f == o && batches.len() == 0,
        },
    }
}

/// Flushing nothing sends nothing: no batch flushes an empty buffer.
pub proof fn lemma_flush_empty_sends_nothing(batches: Seq<FlushBatch>)
    requires
        flushes_all(batches, Seq::<AckEntry>::empty()),
    ensures
        batches.len() == 0,
{
}

/// A full flush attempts every entry: each id of `s` is in the batch of its slice.
pub proof fn lemma_flush_all_attempts_every_entry(batches: Seq<FlushBatch>, s: Seq<AckEntry>, m: int)
    requires
        flushes_all(batches, s),
        0 <= m < s.len(),
    ensures
        0 <= m / (MAX_BATCH as int) < batches.len(),
        has_id(batches[m / (MAX_BATCH as int)].entries@, s[m].id@),
{
    let i = m / 10;
    assert(i * 10 <= m < i * 10 + 10);
    let c = chunk_at(s, i);
    assert(c[m - i * 10] == s[m]);
    assert(flush_of(batches[i], c));
}

/// Once finished, the acknowledger holds no entry.
pub proof fn lemma_finished_holds_nothing(d: BatchDeleter)
    requires
        d.wf(),
        d@.phase == AckPhase::Finished,
    ensures
        d@.pending.len() == 0,
{
}

/// `states`, `events` and `sent` form a run of the acknowledger: step `t` goes from
/// `states[t]` on `events[t]` to `states[t + 1]`, sending `sent[t]`.
pub open spec fn is_run(states: Seq<DeleterView>, events: Seq<AckEvent>, sent: Seq<Seq<FlushBatch>>) -> bool {
    &&& states.len() == events.len() + 1
    &&& sent.len() == events.len()
    &&& forall|t: int|
        0 <= t < events.len() ==> step_spec(states[t], #[trigger] events[t], states[t + 1], sent[t])
}

/// Some batch sent at step `t` or later carries `id`.
pub open spec fn sent_from(sent: Seq<Seq<FlushBatch>>, t: int, id: Seq<char>) -> bool {
    exists|u: int, i: int|
        t <= u < sent.len() && 0 <= i < sent[u].len() && has_id(#[trigger] sent[u][i].entries@, id)
}

/// Some batch of `batches` carries `id`.
pub open spec fn sent_in(batches: Seq<FlushBatch>, id: Seq<char>) -> bool {
    exists|i: int| 0 <= i < batches.len() && has_id(#[trigger] batches[i].entries@, id)
}

proof fn lemma_chunk_sent(b: FlushBatch, chunk: Seq<AckEntry>, m: int)
    requires
        flush_of(b, chunk),
        0 <= m < chunk.len(),
    ensures
        sent_in(seq![b], chunk[m].id@),
{
    assert(has_id(b.entries@, chunk[m].id@));
    assert(seq![b][0] == b);
}

/// One step either keeps `x` buffered or sends a batch that carries its id.
proof fn lemma_step_keeps_or_sends(o: DeleterView, ev: AckEvent, f: DeleterView, batches: Seq<FlushBatch>, x: AckEntry)
    requires
        step_spec(o, ev, f, batches),
        o.pending.contains(x) || (ev == AckEvent::Received(x) && o.phase != AckPhase::Finished),
    ensures
        f.pending.contains(x) || sent_in(batches, x.id@),
{
    let flushing = match o.phase {
        AckPhase::Running => ev is Tick,
        AckPhase::Draining => ev is Closed,
        AckPhase::Finished => false,
    };
    let arriving = o.phase != AckPhase::Finished && ev is Received;
    if flushing {
        let m = choose|m: int| 0 <= m < o.pending.len() && o.pending[m] == x;
        lemma_flush_all_attempts_every_entry(batches, o.pending, m);
    } else if arriving {
        let e = ev->Received_0;
        let p = o.pending.push(e);
        let m = if o.pending.contains(x) {
            choose|m: int| 0 <= m < o.pending.len() && o.pending[m] == x
        } else {
            o.pending.len() as int
        };
        assert(p[m] == x);
        if p.len() >= MAX_BATCH {
            if m < MAX_BATCH {
                let c = p.subrange(0, MAX_BATCH as int);
                assert(c[m] == x);
                lemma_chunk_sent(batches[0], c, m);
                assert(batches =~= seq![batches[0]]);
            } else {
                assert(f.pending[m - MAX_BATCH] == x);
            }
        } else {
            assert(f.pending[m] == x);
        }
    }
}

proof fn lemma_run_sends_pending(
    states: Seq<DeleterView>,
    events: Seq<AckEvent>,
    sent: Seq<Seq<FlushBatch>>,
    t: int,
    x: AckEntry,
)
    requires
        is_run(states, events, sent),
        states.last().pending.len() == 0,
        0 <= t <= events.len(),
        states[t].pending.contains(x),
    ensures
        sent_from(sent, t, x.id@),
    decreases events.len() - t,
{
    if t == events.len() {
        assert(states[t] == states.last());
    } else {
        assert(step_spec(states[t], events[t], states[t + 1], sent[t]));
        lemma_step_keeps_or_sends(states[t], events[t], states[t + 1], sent[t], x);
        if sent_in(sent[t], x.id@) {
            let i = choose|i: int| 0 <= i < sent[t].len() && has_id(#[trigger] sent[t][i].entries@, x.id@);
            assert(has_id(sent[t][i].entries@, x.id@));
        } else {
            lemma_run_sends_pending(states, events, sent, t + 1, x);
            let (u, i) = choose|u: int, i: int|
                t + 1 <= u < sent.len() && 0 <= i < sent[u].len() && has_id(#[trigger] sent[u][i].entries@, x.id@);
            assert(has_id(sent[u][i].entries@, x.id@));
        }
    }
}

/// A run that ends with nothing buffered (as a finished acknowledger does) has sent
/// every entry it received, at the step it arrived or later.
pub proof fn lemma_received_entry_is_sent(
    states: Seq<DeleterView>,
    events: Seq<AckEvent>,
    sent: Seq<Seq<FlushBatch>>,
    t: int,
    x: AckEntry,
)
    requires
        is_run(states, events, sent),
        states.last().pending.len() == 0,
        0 <= t < events.len(),
        events[t] == AckEvent::Received(x),
        states[t].phase != AckPhase::Finished,
    ensures
        sent_from(sent, t, x.id@),
{
    assert(step_spec(states[t], events[t], states[t + 1], sent[t]));
    lemma_step_keeps_or_sends(states[t], events[t], states[t + 1], sent[t], x);
    if sent_in(sent[t], x.id@) {
        let i = choose|i: int| 0 <= i < sent[t].len() && has_id(#[trigger] sent[t][i].entries@, x.id@);
        assert(has_id(sent[t][i].entries@, x.id@));
    } else {
        lemma_run_sends_pending(states, events, sent, t + 1, x);
        let (u, i) = choose|u: int, i: int|
            t + 1 <= u < sent.len() && 0 <= i < sent[u].len() && has_id(#[trigger] sent[u][i].entries@, x.id@);
        assert(has_id(sent[u][i].entries@, x.id@));
    }
}

/// Where the acknowledger stands in its life.
#[derive(PartialEq, Eq, Structural, Clone, Copy, Debug)]
pub enum AckPhase {
    /// Racing cancellation, the tick and the channel.
    Running,
    /// Cancelled: reading the channel until it closes.
    Draining,
    /// The channel closed after cancellation and everything was flushed.
    Finished,
}

/// What the acknowledger's loop observed.
pub enum AckEvent {
    Tick,
    Received(AckEntry),
    Cancelled,
    Closed,
}

pub struct DeleterView {
    pub pending: Seq<AckEntry>,
    pub phase: AckPhase,
}

/// The acknowledger's buffer and phase.
pub struct BatchDeleter {
    buffer: Vec<AckEntry>,
    phase: AckPhase,
}

impl View for BatchDeleter {
    type V = DeleterView;

    closed spec fn view(&self) -> DeleterView {
        DeleterView { pending: self.buffer@, phase: self.phase }
    }
}

/// Splits `v` into its first `n` entries and the rest.
fn split_front(v: &Vec<AckEntry>, n: usize) -> (r: (Vec<AckEntry>, Vec<AckEntry>))
    requires
        n <= v.len(),
    ensures
        r.0@ == v@.subrange(0, n as int),
        r.1@ == v@.subrange(n as int, v.len() as int),
{
    let mut front: Vec<AckEntry> = Vec::new();
    let mut rest: Vec<AckEntry> = Vec::new();
    let mut i: usize = 0;
    while i < v.len()
        invariant
            0 <= i <= v.len(),
            n <= v.len(),
            front@ == v@.subrange(0, if i < n { i as int } else { n as int }),
            rest@ == v@.subrange(n as int, if i < n { n as int } else { i as int }),
        decreases v.len() - i,
    {
        if i < n {
            front.push(v[i].duplicate());
        } else {
            rest.push(v[i].duplicate());
        }
        proof {
            assert(front@ =~= v@.subrange(0, if i + 1 < n { i + 1 } else { n as int }));
            assert(rest@ =~= v@.subrange(n as int, if i + 1 < n { n as int } else { i + 1 }));
        }
        i = i + 1;
    }
    (front, rest)
}

impl BatchDeleter {
    /// The acknowledger's invariant: between events fewer than `MAX_BATCH` entries
    /// wait, and none once it has finished.
    pub open spec fn wf(&self) -> bool {
        &&& self@.pending.len() < MAX_BATCH
        &&& self@.phase == AckPhase::Finished ==> self@.pending.len() == 0
    }

    pub fn new() -> (d: BatchDeleter)
        ensures
            d.wf(),
            d@.pending == Seq::<AckEntry>::empty(),
            d@.phase == AckPhase::Running,
    {
        BatchDeleter { buffer: Vec::new(), phase: AckPhase::Running }
    }

    pub fn pending_len(&self) -> (n: usize)
        ensures
            n == self@.pending.len(),
    {
        self.buffer.len()
    }

    pub fn phase(&self) -> (p: AckPhase)
        ensures
            p == self@.phase,
    {
        self.phase
    }

    /// Takes up to `MAX_BATCH` entries from the front of the buffer and returns
    /// their flush; an empty buffer gives `None` and stays as it is.
    pub fn flush_once(&mut self) -> (r: Option<FlushBatch>)
        ensures
            final(self)@.phase == old(self)@.phase,
            old(self)@.pending.len() == 0 ==> r.is_none() && final(self)@ == old(self)@,
            old(self)@.pending.len() > 0 ==> {
                let n = if old(self)@.pending.len() < MAX_BATCH {
                    old(self)@.pending.len() as int
                } else {
                    MAX_BATCH as int
                };
                &&& r.is_some()
                &&& r.unwrap().entries.len() <= MAX_BATCH
                &&& flush_of(r.unwrap(), old(self)@.pending.subrange(0, n))
                &&& final(self)@.pending == old(self)@.pending.subrange(n, old(self)@.pending.len() as int)
            },
    {
        if self.buffer.len() == 0 {
            return None;
        }
        let n = if self.buffer.len() < MAX_BATCH {
            self.buffer.len()
        } else {
            MAX_BATCH
        };
        let (front, rest) = split_front(&self.buffer, n);
        self.buffer = rest;
        Some(flush_chunk(front))
    }

    /// Flushes the whole buffer, `MAX_BATCH` entries at a time, front to back.
    pub fn flush_all(&mut self) -> (batches: Vec<FlushBatch>)
        ensures
            final(self)@.phase == old(self)@.phase,
            final(self)@.pending == Seq::<AckEntry>::empty(),
            flushes_all(batches@, old(self)@.pending),
    {
        let ghost orig = self.buffer@;
        let mut batches: Vec<FlushBatch> = Vec::new();
        while self.buffer.len() > 0
            invariant
                self.phase == old(self).phase,
                orig == old(self).buffer@,
                self.buffer.len() <= orig.len(),
                self.buffer@ == orig.subrange(orig.len() - self.buffer.len(), orig.len() as int),
                orig.len() - self.buffer.len() == if batches.len() * 10 <= orig.len() {
                    batches.len() * 10
                } else {
                    orig.len() as int
                },
                batches.len() == 0 || (batches.len() - 1) * 10 < orig.len(),
                forall|i: int| 0 <= i < batches.len() ==> flush_of(#[trigger] batches@[i], chunk_at(orig, i)),
            decreases self.buffer.len(),
        {
            let ghost k = batches.len() as int;
            let ghost c = orig.len() - self.buffer.len();
            let ghost before = self.buffer@;
            let ghost done = batches@;
            let b = self.flush_once();
            proof {
                let n = if before.len() < 10 { before.len() as int } else { 10int };
                assert(before.subrange(0, n) =~= chunk_at(orig, k));
                assert(self.buffer@ =~= orig.subrange(c + n, orig.len() as int));
            }
            match b {
                Some(b) => batches.push(b),
                None => {},
            }
            proof {
                assert forall|i: int| 0 <= i < batches.len() implies flush_of(
                    #[trigger] batches@[i],
                    chunk_at(orig, i),
                ) by {
                    if i < k {
                        assert(batches@[i] == done[i]);
                    }
                }
            }
        }
        batches
    }

    /// Appends `e`, flushing at once when the buffer reaches `MAX_BATCH` entries.
    fn receive(&mut self, e: AckEntry) -> (batches: Vec<FlushBatch>)
        requires
            old(self).wf(),
            old(self).phase != AckPhase::Finished,
        ensures
            final(self).wf(),
            final(self).phase == old(self).phase,
            arrival(old(self)@.pending, e, final(self)@.pending, batches@),
    {
        self.buffer.push(e);
        let mut batches: Vec<FlushBatch> = Vec::new();
        if self.buffer.len() >= MAX_BATCH {
            let ghost p = self.buffer@;
            let b = self.flush_once();
            proof {
                assert(self.buffer@ =~= p.subrange(MAX_BATCH as int, p.len() as int));
            }
            match b {
                Some(b) => batches.push(b),
                None => {},
            }
            proof {
                assert(batches@[0] == b.unwrap());
            }
        }
        batches
    }

    /// Decides what the acknowledger does on `ev`: the batches to send, in order.
    pub fn step(&mut self, ev: AckEvent) -> (batches: Vec<FlushBatch>)
        requires
            old(self).wf(),
        ensures
            final(self).wf(),
            step_spec(old(self)@, ev, final(self)@, batches@),
    {
        match self.phase {
            AckPhase::Finished => Vec::new(),
            AckPhase::Running => match ev {
                AckEvent::Tick => self.flush_all(),
                AckEvent::Received(e) => self.receive(e),
                AckEvent::Cancelled => {
                    self.phase = AckPhase::Draining;
                    Vec::new()
                },
                AckEvent::Closed => Vec::new(),
            },
            AckPhase::Draining => match ev {
                AckEvent::Received(e) => self.receive(e),
                AckEvent::Closed => {
                    let batches = self.flush_all();
                    self.phase = AckPhase::Finished;
                    batches
                },
                _ => Vec::new(),
            },
        }
    }
}

} // verus!
