//! A bounded FIFO buffer of log entries with a staging area, O(1) per-level
//! statistics and the set of structured field names seen.

use vstd::prelude::*;
use std::collections::VecDeque;
use std::sync::Arc;
use crate::entry::LogEntry;
use crate::level::{level_ordinal, ordinal, LevelCounts, LogLevel};
use crate::keyset::{ascending, KeySet};

verus! {

/// Staged entries are moved into the ring once this many are waiting.
pub const BATCH_FLUSH_SIZE: usize = 100;

/// The last `n` elements of `s` (all of `s` when it is shorter).
pub open spec fn last_n<A>(s: Seq<A>, n: nat) -> Seq<A> {
    if s.len() <= n {
        s
    } else {
        s.subrange(s.len() - n, s.len() as int)
    }
}

/// `e` with its id set to `id`.
pub open spec fn with_id(e: LogEntry, id: int) -> LogEntry {
    LogEntry { id: id as u64, ..e }
}

/// `es` numbered consecutively from `first`.
pub open spec fn stamp(es: Seq<LogEntry>, first: int) -> Seq<LogEntry> {
    Seq::new(es.len(), |i: int| with_id(es[i], first + i))
}

/// How many entries of `s` have level `l`.
pub open spec fn count_level(s: Seq<LogEntry>, l: LogLevel) -> nat
    decreases s.len(),
{
    if s.len() == 0 {
        0
    } else {
        count_level(s.drop_last(), l) + if s.last().level == l {
            1nat
        } else {
            0nat
        }
    }
}

/// The structured field names of an entry.
pub open spec fn entry_keys(e: LogEntry) -> Set<Seq<char>> {
    e.field_seq().map_values(|p: (Seq<char>, crate::entry::FieldView)| p.0).to_set()
}

/// The entries of `s` whose level ranks at least as high as `min`.
pub open spec fn at_least(s: Seq<LogEntry>, min: LogLevel) -> Seq<LogEntry>
    decreases s.len(),
{
    if s.len() == 0 {
        s
    } else if ordinal(s.last().level) >= ordinal(min) {
        at_least(s.drop_last(), min).push(s.last())
    } else {
        at_least(s.drop_last(), min)
    }
}

/// The raw lines of `s`, joined by newlines.
pub open spec fn joined_raw(s: Seq<LogEntry>) -> Seq<char>
    decreases s.len(),
{
    if s.len() == 0 {
        Seq::empty()
    } else if s.len() == 1 {
        s[0].raw@
    } else {
        joined_raw(s.drop_last()) + "\n"@ + s.last().raw@
    }
}

/// The observable state of a buffer.
pub struct BufferView {
    /// Entries in the ring, oldest first.
    pub ring: Seq<LogEntry>,
    /// Entries staged and not yet in the ring, oldest first.
    pub pending: Seq<LogEntry>,
    /// The id the next entry moved into the ring receives.
    pub next_id: nat,
    pub capacity: nat,
    /// Structured field names seen since creation or the last clear.
    pub keys: Set<Seq<char>>,
}

/// The state after moving every staged entry into the ring: each receives
/// the next id, and the oldest entries are evicted to keep the ring within
/// its capacity.
pub open spec fn flush_model(v: BufferView) -> BufferView {
    BufferView {
        ring: last_n(v.ring + stamp(v.pending, v.next_id as int), v.capacity),
        pending: Seq::empty(),
        next_id: v.next_id + v.pending.len(),
        ..v
    }
}

/// The state after pushing `e`: it is staged, its field names are recorded,
/// and a full stage is flushed.
pub open spec fn push_model(v: BufferView, e: LogEntry) -> BufferView {
    let staged = BufferView { pending: v.pending.push(e), keys: v.keys + entry_keys(e), ..v };
    if staged.pending.len() >= BATCH_FLUSH_SIZE {
        flush_model(staged)
    } else {
        staged
    }
}

/// Flushing a buffer whose stage is empty changes nothing.
pub proof fn lemma_flush_idempotent(v: BufferView)
    requires
        v.ring.len() <= v.capacity,
    ensures
        flush_model(flush_model(v)) == flush_model(v),
{
    let f = flush_model(v);
    assert(f.ring.len() <= v.capacity);
    assert(stamp(f.pending, f.next_id as int) =~= Seq::<LogEntry>::empty());
    assert(f.ring + Seq::<LogEntry>::empty() =~= f.ring);
    assert(flush_model(f) =~= f);
}

/// The state of a new or cleared buffer.
pub open spec fn empty_view(capacity: nat) -> BufferView {
    BufferView {
        ring: Seq::empty(),
        pending: Seq::empty(),
        next_id: 0,
        capacity,
        keys: Set::empty(),
    }
}

/// The state after pushing every entry of `s` in order.
pub open spec fn push_all(v: BufferView, s: Seq<LogEntry>) -> BufferView
    decreases s.len(),
{
    if s.len() == 0 {
        v
    } else {
        push_model(push_all(v, s.drop_last()), s.last())
    }
}

/// The number of entries of `s`, summed over all levels.
pub open spec fn level_population(s: Seq<LogEntry>) -> nat {
    count_level(s, LogLevel::Trace) + count_level(s, LogLevel::Debug) + count_level(s, LogLevel::Info)
        + count_level(s, LogLevel::Warn) + count_level(s, LogLevel::Error) + count_level(
        s,
        LogLevel::Fatal,
    ) + count_level(s, LogLevel::Unknown)
}

proof fn lemma_last_n_absorb(a: Seq<LogEntry>, b: Seq<LogEntry>, k: nat)
    ensures
        last_n(last_n(a, k) + b, k) == last_n(a + b, k),
{
    if a.len() > k {
        let c = last_n(a, k) + b;
        if b.len() >= k {
            assert(last_n(c, k) =~= last_n(a + b, k));
        } else {
            assert(last_n(c, k) =~= last_n(a + b, k));
        }
    }
}

proof fn lemma_stamp_split(s: Seq<LogEntry>, m: int, n: int)
    requires
        0 <= m <= n <= s.len(),
    ensures
        stamp(s.subrange(0, m), 0) + stamp(s.subrange(m, n), m) == stamp(s.subrange(0, n), 0),
{
    assert(stamp(s.subrange(0, m), 0) + stamp(s.subrange(m, n), m) =~= stamp(s.subrange(0, n), 0));
}

proof fn lemma_push_all_state(cap: nat, s: Seq<LogEntry>)
    ensures
        ({
            let v = push_all(empty_view(cap), s);
            &&& v.capacity == cap
            &&& v.next_id + v.pending.len() == s.len()
            &&& v.pending == s.subrange(v.next_id as int, s.len() as int)
            &&& v.ring == last_n(stamp(s.subrange(0, v.next_id as int), 0), cap)
        }),
    decreases s.len(),
{
    if s.len() == 0 {
        assert(stamp(s.subrange(0, 0), 0) =~= Seq::<LogEntry>::empty());
        assert(s.subrange(0, 0) =~= Seq::<LogEntry>::empty());
    } else {
        let p = s.drop_last();
        lemma_push_all_state(cap, p);
        let v = push_all(empty_view(cap), p);
        let m = v.next_id as int;
        assert(v.pending.push(s.last()) =~= s.subrange(m, s.len() as int));
        assert(p.subrange(0, m) =~= s.subrange(0, m));
        let staged = v.pending.push(s.last());
        if staged.len() >= BATCH_FLUSH_SIZE {
            lemma_last_n_absorb(stamp(s.subrange(0, m), 0), stamp(staged, m), cap);
            lemma_stamp_split(s, m, s.len() as int);
            assert(s.subrange(m, s.len() as int) == staged);
            assert(s.subrange(s.len() as int, s.len() as int) =~= Seq::<LogEntry>::empty());
        }
    }
}

/// Pushing any sequence of entries into a new (or cleared) buffer and then
/// flushing leaves exactly the most recent `capacity` of them in the ring,
/// in arrival order, numbered by arrival from zero.
pub proof fn lemma_fifo_retention(cap: nat, s: Seq<LogEntry>)
    ensures
        flush_model(push_all(empty_view(cap), s)).ring == last_n(stamp(s, 0), cap),
        flush_model(push_all(empty_view(cap), s)).pending.len() == 0,
{
    lemma_push_all_state(cap, s);
    let v = push_all(empty_view(cap), s);
    let m = v.next_id as int;
    lemma_last_n_absorb(stamp(s.subrange(0, m), 0), stamp(v.pending, m), cap);
    lemma_stamp_split(s, m, s.len() as int);
    assert(s.subrange(0, s.len() as int) =~= s);
}

/// The first entry pushed after a clear receives id zero.
pub proof fn lemma_first_id_after_clear(cap: nat, e: LogEntry)
    requires
        cap > 0,
    ensures
        flush_model(push_model(empty_view(cap), e)).ring == seq![with_id(e, 0)],
{
    let v = push_model(empty_view(cap), e);
    assert(push_all(empty_view(cap), seq![e]) == v) by {
        assert(seq![e].drop_last() =~= Seq::<LogEntry>::empty());
        assert(push_all(empty_view(cap), Seq::<LogEntry>::empty()) == empty_view(cap));
        assert(seq![e].last() == e);
    }
    lemma_fifo_retention(cap, seq![e]);
    assert(stamp(seq![e], 0) =~= seq![with_id(e, 0)]);
}

proof fn lemma_population(s: Seq<LogEntry>)
    ensures
        level_population(s) == s.len(),
    decreases s.len(),
{
    if s.len() > 0 {
        lemma_population(s.drop_last());
    }
}

/// A bounded buffer of log entries.
pub struct LogBuffer {
    entries: VecDeque<Arc<LogEntry>>,
    capacity: usize,
    next_id: u64,
    total_count: usize,
    level_counts: LevelCounts,
    pending: VecDeque<LogEntry>,
    json_keys: KeySet,
}

proof fn lemma_count_drop_first(s: Seq<LogEntry>, l: LogLevel)
    requires
        s.len() > 0,
    ensures
        count_level(s, l) == count_level(s.drop_first(), l) + if s[0].level == l {
            1nat
        } else {
            0nat
        },
    decreases s.len(),
{
    if s.len() > 1 {
        lemma_count_drop_first(s.drop_last(), l);
        assert(s.drop_last().drop_first() =~= s.drop_first().drop_last());
        assert(s.drop_first().last() == s.last());
        assert(s.drop_last()[0] == s[0]);
    } else {
        assert(count_level(s.drop_first(), l) == 0);
        assert(count_level(s.drop_last(), l) == 0);
        assert(s.last() == s[0]);
    }
}

/// The ring after taking in `x`: the oldest entry leaves when the ring is
/// full, and a ring of capacity zero takes in nothing.
pub open spec fn window_step(r: Seq<LogEntry>, x: LogEntry, cap: nat) -> Seq<LogEntry> {
    if cap == 0 {
        r
    } else if r.len() >= cap {
        r.drop_first().push(x)
    } else {
        r.push(x)
    }
}

proof fn lemma_window_step(a: Seq<LogEntry>, x: LogEntry, cap: nat)
    ensures
        window_step(last_n(a, cap), x, cap) == last_n(a.push(x), cap),
{
    let r = last_n(a, cap);
    if cap == 0 {
        assert(r =~= Seq::<LogEntry>::empty());
        assert(last_n(a.push(x), cap) =~= Seq::<LogEntry>::empty());
    } else if a.len() < cap {
        assert(r == a);
        assert(window_step(r, x, cap) == a.push(x));
    } else {
        assert(r.len() == cap);
        assert(r.drop_first().push(x) =~= a.push(x).subrange(a.push(x).len() - cap, a.push(x).len() as int));
    }
}

impl LogBuffer {
    pub closed spec fn ring_view(&self) -> Seq<LogEntry> {
        self.entries@.map_values(|a: Arc<LogEntry>| *a)
    }

    pub closed spec fn view(&self) -> BufferView {
        BufferView {
            ring: self.ring_view(),
            pending: self.pending@,
            next_id: self.next_id as nat,
            capacity: self.capacity as nat,
            keys: self.json_keys.view(),
        }
    }

    /// The buffer's internal invariant.
    pub closed spec fn wf(&self) -> bool {
        &&& self.entries@.len() <= self.capacity as nat
        &&& self.json_keys.wf()
        &&& self.capacity < usize::MAX - BATCH_FLUSH_SIZE
        &&& self.pending@.len() < BATCH_FLUSH_SIZE
        &&& self.next_id + self.pending@.len() <= u64::MAX
        &&& self.total_count == self.entries@.len() + self.pending@.len()
        &&& self.level_counts.spec_total() == self.entries@.len()
        &&& forall|l: LogLevel| self.level_counts.count(l) == count_level(self.ring_view(), l)
    }

    /// The per-level counts of the ring's entries.
    pub closed spec fn counts(&self) -> LevelCounts {
        self.level_counts
    }

    /// The ring never holds more than the capacity.
    pub proof fn lemma_ring_within_capacity(&self)
        requires
            self.wf(),
        ensures
            self.view().ring.len() <= self.view().capacity,
    {
    }

    /// Once the stage is flushed, the level counts' total equals the number
    /// of entries held, and each count is the true number of held entries of
    /// its level.
    pub proof fn lemma_counts_total_is_len(&self)
        requires
            self.wf(),
            self.view().pending.len() == 0,
        ensures
            self.counts().spec_total() == self.view().ring.len() + self.view().pending.len(),
            forall|l: LogLevel| self.counts().count(l) == count_level(self.view().ring, l),
            level_population(self.view().ring) == self.view().ring.len(),
    {
        lemma_population(self.view().ring);
    }

    /// An empty buffer holding at most `capacity` entries.
    pub fn new(capacity: usize) -> (r: Self)
        requires
            capacity < usize::MAX - BATCH_FLUSH_SIZE,
        ensures
            r.wf(),
            r.view() == empty_view(capacity as nat),
    {
        let r = LogBuffer {
            entries: VecDeque::new(),
            capacity,
            next_id: 0,
            total_count: 0,
            level_counts: LevelCounts::zero(),
            pending: VecDeque::new(),
            json_keys: KeySet::new(),
        };
        assert(r.ring_view() =~= Seq::<LogEntry>::empty());
        r
    }

    /// The id the next flushed entry receives.
    pub fn next_id(&self) -> (r: u64)
        ensures
            r == self.view().next_id,
    {
        self.next_id
    }

    /// How many entries are staged.
    pub fn pending_len(&self) -> (r: usize)
        ensures
            r == self.view().pending.len(),
    {
        self.pending.len()
    }

    /// Stages `entry`; the stage is flushed into the ring once it is full.
    pub fn push(&mut self, entry: LogEntry)
        requires
            old(self).wf(),
            old(self).view().next_id + old(self).view().pending.len() < u64::MAX,
        ensures
            final(self).wf(),
            final(self).view() == push_model(old(self).view(), entry),
    {
        self.total_count = self.total_count + 1;
        self.record_keys(&entry);
        self.pending.push_back(entry);
        if self.pending.len() >= BATCH_FLUSH_SIZE {
            self.flush_pending_locked();
        }
    }

    /// Adds the field names of `entry` to the recorded set.
    fn record_keys(&mut self, entry: &LogEntry)
        requires
            old(self).json_keys.wf(),
        ensures
            final(self).entries == old(self).entries,
            final(self).pending == old(self).pending,
            final(self).capacity == old(self).capacity,
            final(self).next_id == old(self).next_id,
            final(self).total_count == old(self).total_count,
            final(self).level_counts == old(self).level_counts,
            final(self).json_keys.wf(),
            final(self).view().keys == old(self).view().keys + entry_keys(*entry),
    {
        if let Some(fields) = &entry.fields {
            let ghost names = entry.field_seq().map_values(|p: (Seq<char>, crate::entry::FieldView)| p.0);
            let ghost start = self.view().keys;
            assert(names.subrange(0, 0).to_set() =~= Set::<Seq<char>>::empty());
            assert(start + Set::<Seq<char>>::empty() =~= start);
            let mut i: usize = 0;
            while i < fields.len()
                invariant
                    entry.fields == Some(*fields),
                    names == entry.field_seq().map_values(|p: (Seq<char>, crate::entry::FieldView)| p.0),
                    names.len() == fields@.len(),
                    forall|k: int| 0 <= k < fields@.len() ==> names[k] == #[trigger] fields@[k].0@,
                    i <= fields@.len(),
                    self.entries == old(self).entries,
                    self.pending == old(self).pending,
                    self.capacity == old(self).capacity,
                    self.next_id == old(self).next_id,
                    self.total_count == old(self).total_count,
                    self.level_counts == old(self).level_counts,
                    self.json_keys.wf(),
                    start == old(self).view().keys,
                    self.view().keys == start + names.subrange(0, i as int).to_set(),
                decreases fields@.len() - i,
            {
                self.json_keys.insert(fields[i].0.as_str());
                proof {
                    assert(names.subrange(0, i + 1) =~= names.subrange(0, i as int).push(names[i as int]));
                    names.subrange(0, i as int).lemma_push_to_set_commute(names[i as int]);
                    assert(self.view().keys =~= start + names.subrange(0, i + 1).to_set());
                }
                i = i + 1;
            }
            assert(names.subrange(0, fields@.len() as int) =~= names);
        } else {
            assert(entry_keys(*entry) =~= Set::<Seq<char>>::empty());
            assert(self.view().keys =~= old(self).view().keys + entry_keys(*entry));
        }
    }

    /// Moves every staged entry into the ring, oldest first, giving each the
    /// next id and evicting the oldest ring entries beyond capacity.
    fn flush_pending_locked(&mut self)
        requires
            old(self).total_count == old(self).entries@.len() + old(self).pending@.len(),
            old(self).entries@.len() <= old(self).capacity as nat,
            old(self).capacity < usize::MAX - BATCH_FLUSH_SIZE,
            old(self).pending@.len() <= BATCH_FLUSH_SIZE,
            old(self).level_counts.spec_total() == old(self).entries@.len(),
            forall|l: LogLevel| old(self).level_counts.count(l) == count_level(old(self).ring_view(), l),
            old(self).next_id + old(self).pending@.len() <= u64::MAX,
            old(self).json_keys.wf(),
        ensures
            final(self).wf(),
            final(self).view() == flush_model(old(self).view()),
    {
        let ghost ring0 = self.ring_view();
        let ghost pend0 = self.pending@;
        let ghost id0 = self.next_id as int;
        let ghost k = self.capacity as nat;
        assert(stamp(pend0.subrange(0, 0), id0) =~= Seq::<LogEntry>::empty());
        assert(ring0 + Seq::<LogEntry>::empty() =~= ring0);
        assert(ring0.len() <= k);
        while self.pending.len() > 0
            invariant
                k == self.capacity as nat,
                self.capacity == old(self).capacity,
                self.capacity < usize::MAX - BATCH_FLUSH_SIZE,
                self.json_keys == old(self).json_keys,
                ring0 == old(self).ring_view(),
                pend0 == old(self).pending@,
                id0 == old(self).next_id,
                id0 + pend0.len() <= u64::MAX,
                self.pending@.len() <= pend0.len(),
                self.pending@ == pend0.subrange(pend0.len() - self.pending@.len(), pend0.len() as int),
                self.next_id == id0 + (pend0.len() - self.pending@.len()),
                self.entries@.len() <= k,
                self.ring_view() == last_n(
                    ring0 + stamp(pend0.subrange(0, pend0.len() - self.pending@.len()), id0),
                    k,
                ),
                self.total_count == self.entries@.len() + self.pending@.len(),
                self.level_counts.spec_total() == self.entries@.len(),
                forall|l: LogLevel| self.level_counts.count(l) == count_level(self.ring_view(), l),
            decreases self.pending@.len(),
        {
            let ghost done = (pend0.len() - self.pending@.len()) as int;
            let mut entry = match self.pending.pop_front() {
                Some(e) => e,
                None => {
                    return;
                },
            };
            proof {
                assert(entry == pend0[done]);
                assert(self.pending@ =~= pend0.subrange(done + 1, pend0.len() as int));
            }
            entry.id = self.next_id;
            self.next_id = self.next_id + 1;
            proof {
                let all_prev = ring0 + stamp(pend0.subrange(0, done), id0);
                let all_next = ring0 + stamp(pend0.subrange(0, done + 1), id0);
                assert(entry == with_id(pend0[done], id0 + done));
                assert(all_next =~= all_prev.push(entry));
                lemma_window_step(all_prev, entry, self.capacity as nat);
            }
            self.append_to_ring(entry);
        }
        proof {
            assert(pend0.subrange(0, pend0.len() as int) =~= pend0);
            assert(self.pending@ =~= Seq::<LogEntry>::empty());
        }
    }

    /// Appends one entry to the ring, evicting the oldest when the ring is
    /// full, and keeps the counters in step.
    fn append_to_ring(&mut self, entry: LogEntry)
        requires
            old(self).entries@.len() <= old(self).capacity as nat,
            old(self).capacity < usize::MAX - BATCH_FLUSH_SIZE,
            old(self).total_count == old(self).entries@.len() + old(self).pending@.len() + 1,
            old(self).level_counts.spec_total() == old(self).entries@.len(),
            forall|l: LogLevel| old(self).level_counts.count(l) == count_level(old(self).ring_view(), l),
        ensures
            final(self).ring_view() == window_step(old(self).ring_view(), entry, old(self).capacity as nat),
            final(self).entries@.len() <= final(self).capacity as nat,
            final(self).total_count == final(self).entries@.len() + final(self).pending@.len(),
            final(self).level_counts.spec_total() == final(self).entries@.len(),
            forall|l: LogLevel| final(self).level_counts.count(l) == count_level(final(self).ring_view(), l),
            final(self).capacity == old(self).capacity,
            final(self).pending == old(self).pending,
            final(self).next_id == old(self).next_id,
            final(self).json_keys == old(self).json_keys,
    {
        let ghost r0 = self.ring_view();
        if self.capacity == 0 {
            self.total_count = self.total_count - 1;
            return;
        }
        self.level_counts.increment(entry.level);
        if self.entries.len() >= self.capacity {
            match self.entries.pop_front() {
                Some(evicted) => {
                    proof {
                        assert forall|l: LogLevel|
                            count_level(r0, l) == count_level(r0.drop_first(), l) + if r0[0].level == l {
                                1nat
                            } else {
                                0nat
                            } by {
                            lemma_count_drop_first(r0, l);
                        }
                        assert(self.ring_view() =~= r0.drop_first());
                        assert(*evicted == r0[0]);
                    }
                    self.level_counts.decrement(evicted.level);
                    self.total_count = self.total_count - 1;
                },
                None => {},
            }
        }
        let ghost r1 = self.ring_view();
        self.entries.push_back(Arc::new(entry));
        proof {
            assert(self.ring_view() =~= r1.push(entry));
            assert(r1.push(entry).drop_last() =~= r1);
        }
    }

    /// Moves every staged entry into the ring.
    pub fn flush(&mut self)
        requires
            old(self).wf(),
        ensures
            final(self).wf(),
            final(self).view() == flush_model(old(self).view()),
    {
        self.flush_pending_locked();
    }

    /// The recorded structured field names, ascending.
    pub fn json_keys(&self) -> (r: Vec<String>)
        requires
            self.wf(),
        ensures
            ascending(r@.map_values(|s: String| s@)),
            r@.map_values(|s: String| s@).to_set() == self.view().keys,
    {
        self.json_keys.to_vec()
    }

    /// Ring entries `start .. end`, shared.
    fn slice(&self, start: usize, end: usize) -> (r: Vec<Arc<LogEntry>>)
        requires
            start <= end <= self.entries@.len(),
        ensures
            r@.map_values(|a: Arc<LogEntry>| *a) == self.ring_view().subrange(start as int, end as int),
    {
        let mut r: Vec<Arc<LogEntry>> = Vec::new();
        let mut i: usize = start;
        while i < end
            invariant
                start <= i <= end <= self.entries@.len(),
                r@.map_values(|a: Arc<LogEntry>| *a) == self.ring_view().subrange(start as int, i as int),
            decreases end - i,
        {
            let a = self.entries[i].clone();
            assert(*a == self.ring_view()[i as int]);
            let ghost prev = r@;
            r.push(a);
            proof {
                assert(r@ == prev.push(a));
                assert(r@.map_values(|a: Arc<LogEntry>| *a) =~= prev.map_values(|a: Arc<LogEntry>| *a).push(*a));
                assert(self.ring_view().subrange(start as int, i + 1) =~= self.ring_view().subrange(start as int, i as int).push(self.ring_view()[i as int]));
            }
            i = i + 1;
        }
        r
    }

    /// Every entry, oldest first, after flushing the stage.
    pub fn all(&mut self) -> (r: Vec<Arc<LogEntry>>)
        requires
            old(self).wf(),
        ensures
            final(self).wf(),
            final(self).view() == flush_model(old(self).view()),
            r@.map_values(|a: Arc<LogEntry>| *a) == final(self).view().ring,
    {
        self.flush();
        let n = self.entries.len();
        let r = self.slice(0, n);
        assert(self.ring_view().subrange(0, n as int) =~= self.ring_view());
        r
    }

    /// The entries for which `predicate` holds, oldest first, after flushing
    /// the stage.
    pub fn filtered<F: Fn(&LogEntry) -> bool>(&mut self, predicate: F) -> (r: Vec<Arc<LogEntry>>)
        requires
            old(self).wf(),
            forall|e: &LogEntry| predicate.requires((e,)),
        ensures
            final(self).wf(),
            final(self).view() == flush_model(old(self).view()),
            exists|keep_it: Seq<bool>|
                keep_it.len() == final(self).view().ring.len() && (forall|i: int|
                    0 <= i < keep_it.len() ==> predicate.ensures((&final(self).view().ring[i],), #[trigger] keep_it[i]))
                    && r@.map_values(|a: Arc<LogEntry>| *a) == selected(final(self).view().ring, keep_it),
    {
        self.flush();
        let ghost ring = self.ring_view();
        let ghost mut keep_it: Seq<bool> = Seq::empty();
        let mut r: Vec<Arc<LogEntry>> = Vec::new();
        let mut i: usize = 0;
        while i < self.entries.len()
            invariant
                ring == self.ring_view(),
                i <= ring.len(),
                forall|e: &LogEntry| predicate.requires((e,)),
                keep_it.len() == i,
                forall|j: int| 0 <= j < i ==> predicate.ensures((&ring[j],), #[trigger] keep_it[j]),
                r@.map_values(|a: Arc<LogEntry>| *a) == selected(ring.subrange(0, i as int), keep_it),
            decreases ring.len() - i,
        {
            let e = &self.entries[i];
            let b = predicate(&**e);
            proof {
                assert(ring.subrange(0, i + 1).drop_last() =~= ring.subrange(0, i as int));
                assert(keep_it.push(b).drop_last() =~= keep_it);
            }
            if b {
                let a = e.clone();
                let ghost prev = r@;
                r.push(a);
                proof {
                    assert(r@.map_values(|a: Arc<LogEntry>| *a) =~= prev.map_values(|a: Arc<LogEntry>| *a).push(*a));
                    assert(r@.map_values(|a: Arc<LogEntry>| *a) =~= selected(ring.subrange(0, i as int), keep_it).push(ring[i as int]));
                }
            }
            proof {
                keep_it = keep_it.push(b);
            }
            i = i + 1;
        }
        assert(ring.subrange(0, i as int) =~= ring);
        assert(keep_it.len() == self.view().ring.len() && (forall|j: int|
            0 <= j < keep_it.len() ==> predicate.ensures((&self.view().ring[j],), #[trigger] keep_it[j]))
            && r@.map_values(|a: Arc<LogEntry>| *a) == selected(self.view().ring, keep_it));
        r
    }

    /// The entries whose level ranks at least as high as `min_level`, oldest
    /// first, after flushing the stage.
    pub fn by_level(&mut self, min_level: LogLevel) -> (r: Vec<Arc<LogEntry>>)
        requires
            old(self).wf(),
        ensures
            final(self).wf(),
            final(self).view() == flush_model(old(self).view()),
            r@.map_values(|a: Arc<LogEntry>| *a) == at_least(final(self).view().ring, min_level),
    {
        self.flush();
        let min_ord = level_ordinal(min_level);
        let ghost ring = self.ring_view();
        let mut r: Vec<Arc<LogEntry>> = Vec::new();
        let mut i: usize = 0;
        while i < self.entries.len()
            invariant
                ring == self.ring_view(),
                i <= ring.len(),
                min_ord == ordinal(min_level),
                r@.map_values(|a: Arc<LogEntry>| *a) == at_least(ring.subrange(0, i as int), min_level),
            decreases ring.len() - i,
        {
            let e = &self.entries[i];
            proof {
                assert(ring.subrange(0, i + 1).drop_last() =~= ring.subrange(0, i as int));
            }
            if level_ordinal(e.level) >= min_ord {
                let a = e.clone();
                let ghost prev = r@;
                r.push(a);
                proof {
                    assert(r@.map_values(|a: Arc<LogEntry>| *a) =~= prev.map_values(|a: Arc<LogEntry>| *a).push(*a));
                    assert(r@.map_values(|a: Arc<LogEntry>| *a) =~= at_least(ring.subrange(0, i as int), min_level).push(ring[i as int]));
                }
            }
            i = i + 1;
        }
        assert(ring.subrange(0, i as int) =~= ring);
        r
    }

    /// The number of entries per level, after flushing the stage.
    pub fn level_counts(&mut self) -> (r: LevelCounts)
        requires
            old(self).wf(),
        ensures
            final(self).wf(),
            final(self).view() == flush_model(old(self).view()),
            r == final(self).counts(),
            forall|l: LogLevel| r.count(l) == count_level(final(self).view().ring, l),
            r.spec_total() == final(self).view().ring.len(),
    {
        self.flush();
        self.level_counts
    }

    /// The number of entries held, after flushing the stage (kept as a
    /// counter, so this costs no scan).
    pub fn len(&mut self) -> (r: usize)
        requires
            old(self).wf(),
        ensures
            final(self).wf(),
            final(self).view() == flush_model(old(self).view()),
            r == final(self).view().ring.len(),
    {
        self.flush();
        self.total_count
    }

    /// Whether the buffer holds no entry, after flushing the stage.
    pub fn is_empty(&mut self) -> (r: bool)
        requires
            old(self).wf(),
        ensures
            final(self).wf(),
            final(self).view() == flush_model(old(self).view()),
            r == (final(self).view().ring.len() == 0),
    {
        self.len() == 0
    }

    /// Every raw line, oldest first, joined by newlines, after flushing the
    /// stage.
    pub fn export_raw(&mut self) -> (r: String)
        requires
            old(self).wf(),
        ensures
            final(self).wf(),
            final(self).view() == flush_model(old(self).view()),
            r@ == joined_raw(final(self).view().ring),
    {
        self.flush();
        let ghost ring = self.ring_view();
        let mut out = String::new();
        let mut i: usize = 0;
        while i < self.entries.len()
            invariant
                ring == self.ring_view(),
                i <= ring.len(),
                out@ == joined_raw(ring.subrange(0, i as int)),
            decreases ring.len() - i,
        {
            proof {
                assert(ring.subrange(0, i + 1).drop_last() =~= ring.subrange(0, i as int));
                if i == 0 {
                    assert(ring.subrange(0, 0).len() == 0);
                }
            }
            if i > 0 {
                out.append("\n");
            }
            out.append(self.entries[i].raw.as_str());
            i = i + 1;
        }
        assert(ring.subrange(0, i as int) =~= ring);
        out
    }

    /// Empties the buffer: ring, stage, counters and field names; ids start
    /// again from zero.
    pub fn clear(&mut self)
        requires
            old(self).wf(),
        ensures
            final(self).wf(),
            final(self).view() == empty_view(old(self).view().capacity),
            forall|l: LogLevel| final(self).counts().count(l) == 0,
    {
        self.pending.clear();
        self.entries.clear();
        self.json_keys.clear();
        self.next_id = 0;
        self.total_count = 0;
        self.level_counts.reset();
        assert(self.ring_view() =~= Seq::<LogEntry>::empty());
    }

    /// The last `n` entries (all of them when there are fewer), oldest
    /// first, after flushing the stage.
    pub fn tail(&mut self, n: usize) -> (r: Vec<Arc<LogEntry>>)
        requires
            old(self).wf(),
        ensures
            final(self).wf(),
            final(self).view() == flush_model(old(self).view()),
            r@.map_values(|a: Arc<LogEntry>| *a) == last_n(final(self).view().ring, n as nat),
    {
        self.flush();
        let len = self.entries.len();
        let start = if len > n { len - n } else { 0 };
        let r = self.slice(start, len);
        assert(self.ring_view().subrange(0, len as int) =~= self.ring_view());
        r
    }

    /// Up to `count` entries from position `start`, oldest first, after
    /// flushing the stage.
    pub fn range(&mut self, start: usize, count: usize) -> (r: Vec<Arc<LogEntry>>)
        requires
            old(self).wf(),
        ensures
            final(self).wf(),
            final(self).view() == flush_model(old(self).view()),
            r@.map_values(|a: Arc<LogEntry>| *a) == window(final(self).view().ring, start as int, count as int),
    {
        self.flush();
        let len = self.entries.len();
        if start >= len {
            return Vec::new();
        }
        let end = if count > len - start { len } else { start + count };
        self.slice(start, end)
    }
}

/// The elements of `s` whose flag in `keep_it` is set, in order.
pub open spec fn selected<A>(s: Seq<A>, keep_it: Seq<bool>) -> Seq<A>
    decreases s.len(),
{
    if s.len() == 0 || keep_it.len() == 0 {
        Seq::empty()
    } else if keep_it.last() {
        selected(s.drop_last(), keep_it.drop_last()).push(s.last())
    } else {
        selected(s.drop_last(), keep_it.drop_last())
    }
}

/// Up to `count` elements of `s` from position `start`.
pub open spec fn window<A>(s: Seq<A>, start: int, count: int) -> Seq<A> {
    if start >= s.len() {
        Seq::empty()
    } else if count > s.len() - start {
        s.subrange(start, s.len() as int)
    } else {
        s.subrange(start, start + count)
    }
}

} // verus!
