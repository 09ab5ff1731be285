//! Decisions of a per-source streaming task: numbering and parsing each
//! line, reacting to the outcome of a non-blocking delivery, and the drop
//! accounting shared by all tasks. The task loop itself (awaiting lines,
//! cancellation and the channel) runs outside the library.

use vstd::prelude::*;
use crate::entry::LogEntry;
use crate::parser::LogParser;

verus! {

/// What a source task observed at one scheduling point.
pub enum SourceEvent {
    /// The next line of the source.
    Line(String),
    /// The source ended.
    EndOfStream,
    /// Reading the source failed.
    StreamError,
    /// The manager asked every task to stop.
    Cancelled,
}

/// The outcome of a non-blocking send on the delivery channel.
#[derive(Clone, Copy, Debug, PartialEq, Eq, Structural)]
pub enum Delivery {
    Delivered,
    Full,
    Closed,
}

/// What a task does next.
pub enum TaskStep {
    /// Try to deliver this entry.
    Send(LogEntry),
    /// Terminate the task.
    Finish,
}

/// Per-source task state: the source's name and how many lines it has
/// numbered so far.
pub struct SourceTask {
    pub source_name: String,
    pub lines_seen: u64,
}

impl SourceTask {
    /// A task for `source_name` that has seen no line.
    pub fn new(source_name: String) -> (r: Self)
        ensures
            r.source_name == source_name,
            r.lines_seen == 0,
    {
        SourceTask { source_name, lines_seen: 0 }
    }

    /// Reacts to one event: a line is numbered (1-based, per source) and
    /// parsed; anything else ends the task. A source whose line numbers are
    /// exhausted ends too.
    pub fn on_event(&mut self, event: SourceEvent) -> (r: TaskStep)
        ensures
            final(self).source_name == old(self).source_name,
            match event {
                SourceEvent::Line(line) => if old(self).lines_seen < u64::MAX {
                    &&& final(self).lines_seen == old(self).lines_seen + 1
                    &&& r matches TaskStep::Send(e) && crate::parser::parsed_from(
                        e,
                        line@,
                        old(self).source_name@,
                        final(self).lines_seen,
                    )
                } else {
                    r is Finish && final(self).lines_seen == old(self).lines_seen
                },
                _ => r is Finish && final(self).lines_seen == old(self).lines_seen,
            },
    {
        match event {
            SourceEvent::Line(line) => {
                if self.lines_seen == u64::MAX {
                    return TaskStep::Finish;
                }
                self.lines_seen = self.lines_seen + 1;
                let entry = LogParser::parse(line.as_str(), self.source_name.as_str(), self.lines_seen);
                TaskStep::Send(entry)
            },
            _ => TaskStep::Finish,
        }
    }
}

/// Whether a task goes on after a delivery attempt: only a closed channel
/// stops it.
pub fn continue_after(outcome: Delivery) -> (r: bool)
    ensures
        r == (outcome != Delivery::Closed),
{
    match outcome {
        Delivery::Closed => false,
        _ => true,
    }
}

/// Delivery accounting shared by all tasks.
#[derive(Clone, Copy, Debug)]
pub struct DeliveryStats {
    /// Entries handed to the channel, delivered or dropped.
    pub produced: u64,
    pub delivered: u64,
    /// Entries discarded because the channel was full.
    pub dropped: u64,
}

/// The counters after `outcome`: a full channel drops the entry, a closed
/// one counts nothing (the task is ending).
pub open spec fn record_model(s: DeliveryStats, outcome: Delivery) -> DeliveryStats {
    match outcome {
        Delivery::Delivered => DeliveryStats { produced: (s.produced + 1) as u64, delivered: (s.delivered + 1) as u64, ..s },
        Delivery::Full => DeliveryStats { produced: (s.produced + 1) as u64, dropped: (s.dropped + 1) as u64, ..s },
        Delivery::Closed => s,
    }
}

/// The counters after a sequence of outcomes.
pub open spec fn record_all(s: DeliveryStats, outcomes: Seq<Delivery>) -> DeliveryStats
    decreases outcomes.len(),
{
    if outcomes.len() == 0 {
        s
    } else {
        record_model(record_all(s, outcomes.drop_last()), outcomes.last())
    }
}

/// How many of `outcomes` are not `Closed`.
pub open spec fn attempts(outcomes: Seq<Delivery>) -> nat
    decreases outcomes.len(),
{
    if outcomes.len() == 0 {
        0
    } else {
        attempts(outcomes.drop_last()) + if outcomes.last() == Delivery::Closed {
            0nat
        } else {
            1nat
        }
    }
}

/// How many of `outcomes` found the channel full.
pub open spec fn fulls(outcomes: Seq<Delivery>) -> nat
    decreases outcomes.len(),
{
    if outcomes.len() == 0 {
        0
    } else {
        fulls(outcomes.drop_last()) + if outcomes.last() == Delivery::Full {
            1nat
        } else {
            0nat
        }
    }
}

proof fn lemma_fulls_split(o: Seq<Delivery>, k: int)
    requires
        0 <= k <= o.len(),
    ensures
        fulls(o) == fulls(o.subrange(0, k)) + fulls(o.subrange(k, o.len() as int)),
    decreases o.len(),
{
    if o.len() > k {
        lemma_fulls_split(o.drop_last(), k);
        assert(o.drop_last().subrange(0, k) =~= o.subrange(0, k));
        let t = o.subrange(k, o.len() as int);
        assert(t.drop_last() =~= o.drop_last().subrange(k, o.len() - 1));
        assert(t.last() == o.last());
    } else {
        assert(o.subrange(0, k) =~= o);
        assert(o.subrange(k, o.len() as int).len() == 0);
    }
}

impl DeliveryStats {
    /// Delivered and dropped entries add up to the produced ones.
    pub open spec fn wf(&self) -> bool {
        self.delivered + self.dropped == self.produced
    }

    /// All counters at zero.
    pub fn new() -> (r: Self)
        ensures
            r.wf(),
            r.produced == 0 && r.delivered == 0 && r.dropped == 0,
    {
        DeliveryStats { produced: 0, delivered: 0, dropped: 0 }
    }

    /// Accounts for one delivery attempt.
    pub fn record(&mut self, outcome: Delivery)
        requires
            old(self).wf(),
            old(self).produced < u64::MAX,
        ensures
            final(self).wf(),
            *final(self) == record_model(*old(self), outcome),
            final(self).dropped >= old(self).dropped,
    {
        match outcome {
            Delivery::Delivered => {
                self.produced = self.produced + 1;
                self.delivered = self.delivered + 1;
            },
            Delivery::Full => {
                self.produced = self.produced + 1;
                self.dropped = self.dropped + 1;
            },
            Delivery::Closed => {},
        }
    }
}

/// Whatever the outcomes of a run of delivery attempts (for instance a
/// channel of small capacity fed faster than it is drained), delivered plus
/// dropped entries equal the entries produced, and between any earlier point
/// `k` and the end the dropped counter grows by exactly the number of
/// attempts that found the channel full (so it never decreases).
pub proof fn lemma_drop_accounting(outcomes: Seq<Delivery>, k: int)
    requires
        0 <= k <= outcomes.len(),
        attempts(outcomes) < u64::MAX,
    ensures
        ({
            let zero = DeliveryStats { produced: 0, delivered: 0, dropped: 0 };
            let s = record_all(zero, outcomes);
            &&& s.wf()
            &&& s.produced == attempts(outcomes)
            &&& s.dropped == fulls(outcomes)
            &&& s.dropped == record_all(zero, outcomes.subrange(0, k)).dropped + fulls(
                outcomes.subrange(k, outcomes.len() as int),
            )
            &&& record_all(zero, outcomes.subrange(0, k)).dropped <= s.dropped
        }),
{
    lemma_counters(outcomes);
    lemma_attempts_prefix(outcomes, k);
    lemma_counters(outcomes.subrange(0, k));
    lemma_fulls_split(outcomes, k);
}

proof fn lemma_attempts_prefix(o: Seq<Delivery>, k: int)
    requires
        0 <= k <= o.len(),
    ensures
        attempts(o.subrange(0, k)) <= attempts(o),
    decreases o.len(),
{
    if o.len() > k {
        lemma_attempts_prefix(o.drop_last(), k);
        assert(o.drop_last().subrange(0, k) =~= o.subrange(0, k));
    } else {
        assert(o.subrange(0, k) =~= o);
    }
}

proof fn lemma_counters(o: Seq<Delivery>)
    requires
        attempts(o) < u64::MAX,
    ensures
        ({
            let s = record_all(DeliveryStats { produced: 0, delivered: 0, dropped: 0 }, o);
            &&& s.wf()
            &&& s.produced == attempts(o)
            &&& s.dropped == fulls(o)
        }),
    decreases o.len(),
{
    if o.len() > 0 {
        lemma_counters(o.drop_last());
    }
}

/// The historical window a stream is opened with: `since_seconds`, when
/// given, takes precedence and `tail_lines` is then not used.
pub fn log_window(tail_lines: Option<i64>, since_seconds: Option<i64>) -> (r: (Option<i64>, Option<i64>))
    ensures
        r.1 == since_seconds,
        r.0 == if since_seconds is Some { None } else { tail_lines },
{
    if since_seconds.is_some() {
        (None, since_seconds)
    } else {
        (tail_lines, since_seconds)
    }
}

} // verus!
