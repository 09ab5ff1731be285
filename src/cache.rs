//! The filtered view kept between redraws, rebuilt only when its signature
//! (pattern, case flag, selected field names, buffer population) changes.

use vstd::prelude::*;
use std::sync::Arc;
use crate::buffer::{flush_model, lemma_flush_idempotent, selected, LogBuffer};
use crate::entry::LogEntry;
use crate::filter::{filter_matches, name_in, CompiledFilter, FilterView};
use crate::text::str_eq;

verus! {

/// The names of a list of strings, as a set.
pub open spec fn name_set(v: Seq<String>) -> Set<Seq<char>> {
    v.map_values(|s: String| s@).to_set()
}

proof fn lemma_name_in_set(v: Seq<String>, i: int)
    requires
        0 <= i < v.len(),
    ensures
        name_set(v).contains(v[i]@),
{
    let sv = v.map_values(|s: String| s@);
    assert(sv[i] == v[i]@);
    assert(sv.contains(v[i]@));
}

/// The signature a cache was built for, and whether it was built at all.
pub struct CacheView {
    pub pattern: Option<Seq<char>>,
    pub case_insensitive: bool,
    pub keys: Set<Seq<char>>,
    pub count: nat,
    pub valid: bool,
}

/// The pattern of an optional filter.
pub open spec fn pattern_of(f: Option<FilterView>) -> Option<Seq<char>> {
    match f {
        Some(v) => Some(v.pattern),
        None => None,
    }
}

/// Whether a cache built for `c` must be rebuilt for the given signature.
pub open spec fn stale(
    c: CacheView,
    pattern: Option<Seq<char>>,
    case_insensitive: bool,
    keys: Set<Seq<char>>,
    count: nat,
) -> bool {
    !c.valid || c.count != count || c.pattern != pattern || c.case_insensitive != case_insensitive
        || c.keys != keys
}

/// The signature recorded by an update.
pub open spec fn built_for(
    pattern: Option<Seq<char>>,
    case_insensitive: bool,
    keys: Set<Seq<char>>,
    count: nat,
) -> CacheView {
    CacheView { pattern, case_insensitive, keys, count, valid: true }
}

/// Once updated for a signature, the cache asks for no refresh on that same
/// signature, and asks for one as soon as the selected field names or the
/// buffer population differ.
pub proof fn lemma_refresh_after_update(
    pattern: Option<Seq<char>>,
    case_insensitive: bool,
    keys: Set<Seq<char>>,
    count: nat,
    other_keys: Set<Seq<char>>,
    other_count: nat,
)
    ensures
        !stale(built_for(pattern, case_insensitive, keys, count), pattern, case_insensitive, keys, count),
        other_keys != keys ==> stale(
            built_for(pattern, case_insensitive, keys, count),
            pattern,
            case_insensitive,
            other_keys,
            count,
        ),
        other_count != count ==> stale(
            built_for(pattern, case_insensitive, keys, count),
            pattern,
            case_insensitive,
            keys,
            other_count,
        ),
{
}

/// The filter's view, where there is a filter.
pub open spec fn filter_view_of(f: Option<&CompiledFilter>) -> Option<FilterView> {
    match f {
        Some(x) => Some(x@),
        None => None,
    }
}

/// Whether an entry belongs in the filtered view: the text filter (if any)
/// accepts it, and, when field names are selected, it has one of them.
pub open spec fn shown(e: LogEntry, f: Option<FilterView>, keys: Set<Seq<char>>) -> bool {
    &&& match f {
        Some(v) => filter_matches(v, e.level, e.pod_name@, e.raw@),
        None => true,
    }
    &&& (keys == Set::<Seq<char>>::empty() || exists|i: int|
        0 <= i < e.field_seq().len() && #[trigger] keys.contains(e.field_seq()[i].0))
}

/// Whether some field of `e` is named in `keys`.
fn has_selected_field(e: &LogEntry, keys: &Vec<String>) -> (r: bool)
    ensures
        r == exists|i: int|
            0 <= i < e.field_seq().len() && #[trigger] name_set(keys@).contains(e.field_seq()[i].0),
{
    match &e.fields {
        None => false,
        Some(fs) => {
            let mut i: usize = 0;
            while i < fs.len()
                invariant
                    e.fields == Some(*fs),
                    i <= fs@.len(),
                    e.field_seq().len() == fs@.len(),
                    forall|j: int| 0 <= j < i ==> !name_set(keys@).contains(#[trigger] e.field_seq()[j].0),
                decreases fs@.len() - i,
            {
                let found = name_in(keys, fs[i].0.as_str());
                proof {
                    assert(e.field_seq()[i as int].0 == fs@[i as int].0@);
                    assert(name_set(keys@).contains(fs@[i as int].0@) == keys@.map_values(|s: String| s@).contains(fs@[i as int].0@));
                }
                if found {
                    return true;
                }
                i = i + 1;
            }
            false
        },
    }
}

/// The entries of `all` that belong in the filtered view, in order.
pub fn select_entries(all: &Vec<Arc<LogEntry>>, filter: Option<&CompiledFilter>, keys: &Vec<String>) -> (r: Vec<Arc<LogEntry>>)
    ensures
        r@.map_values(|a: Arc<LogEntry>| *a) == selected(
            all@.map_values(|a: Arc<LogEntry>| *a),
            Seq::new(all@.len(), |i: int| shown(*all@[i], filter_view_of(filter), name_set(keys@))),
        ),
{
    let ghost s = all@.map_values(|a: Arc<LogEntry>| *a);
    let ghost flags = Seq::new(all@.len(), |i: int| shown(*all@[i], filter_view_of(filter), name_set(keys@)));
    let no_keys = keys.len() == 0;
    proof {
        if no_keys {
            assert(name_set(keys@) =~= Set::<Seq<char>>::empty());
        } else {
            lemma_name_in_set(keys@, 0);
            assert(!Set::<Seq<char>>::empty().contains(keys@[0]@));
        }
    }
    let mut r: Vec<Arc<LogEntry>> = Vec::new();
    let mut i: usize = 0;
    while i < all.len()
        invariant
            i <= all@.len(),
            s == all@.map_values(|a: Arc<LogEntry>| *a),
            flags == Seq::new(all@.len(), |i: int| shown(*all@[i], filter_view_of(filter), name_set(keys@))),
            no_keys == (name_set(keys@) == Set::<Seq<char>>::empty()),
            r@.map_values(|a: Arc<LogEntry>| *a) == selected(s.subrange(0, i as int), flags.subrange(0, i as int)),
        decreases all@.len() - i,
    {
        let e = &all[i];
        let text_ok = match filter {
            Some(f) => f.matches(&**e),
            None => true,
        };
        let keep_it = text_ok && (no_keys || has_selected_field(&**e, keys));
        proof {
            assert(keep_it == flags[i as int]);
            assert(s.subrange(0, i + 1).drop_last() =~= s.subrange(0, i as int));
            assert(flags.subrange(0, i + 1).drop_last() =~= flags.subrange(0, i as int));
        }
        if keep_it {
            let a = e.clone();
            let ghost prev = r@;
            r.push(a);
            proof {
                assert(r@.map_values(|a: Arc<LogEntry>| *a) =~= prev.map_values(|a: Arc<LogEntry>| *a).push(*a));
            }
        }
        i = i + 1;
    }
    proof {
        assert(s.subrange(0, i as int) =~= s);
        assert(flags.subrange(0, i as int) =~= flags);
    }
    r
}

/// Whether two lists of names hold the same set of names.
fn same_names(a: &Vec<String>, b: &Vec<String>) -> (r: bool)
    ensures
        r == (name_set(a@) == name_set(b@)),
{
    let mut i: usize = 0;
    while i < a.len()
        invariant
            i <= a@.len(),
            forall|j: int| 0 <= j < i ==> name_set(b@).contains(#[trigger] a@[j]@),
        decreases a@.len() - i,
    {
        if !name_in(b, a[i].as_str()) {
            proof {
                lemma_name_in_set(a@, i as int);
            }
            return false;
        }
        i = i + 1;
    }
    let mut j: usize = 0;
    while j < b.len()
        invariant
            j <= b@.len(),
            forall|k: int| 0 <= k < a@.len() ==> name_set(b@).contains(#[trigger] a@[k]@),
            forall|k: int| 0 <= k < j ==> name_set(a@).contains(#[trigger] b@[k]@),
        decreases b@.len() - j,
    {
        if !name_in(a, b[j].as_str()) {
            proof {
                lemma_name_in_set(b@, j as int);
            }
            return false;
        }
        j = j + 1;
    }
    proof {
        assert forall|x: Seq<char>| name_set(a@).contains(x) implies name_set(b@).contains(x) by {
            let sv = a@.map_values(|s: String| s@);
            assert(sv.contains(x));
            let k = choose|k: int| 0 <= k < sv.len() && #[trigger] sv[k] == x;
            assert(a@[k]@ == x);
        }
        assert forall|x: Seq<char>| name_set(b@).contains(x) implies name_set(a@).contains(x) by {
            let sv = b@.map_values(|s: String| s@);
            assert(sv.contains(x));
            let k = choose|k: int| 0 <= k < sv.len() && #[trigger] sv[k] == x;
            assert(b@[k]@ == x);
        }
        assert(name_set(a@) =~= name_set(b@));
    }
    true
}

/// Whether two optional texts are equal.
fn same_pattern(a: &Option<String>, b: Option<&str>) -> (r: bool)
    ensures
        r == (match a {
            Some(x) => Some(x@),
            None => None::<Seq<char>>,
        } == match b {
            Some(y) => Some(y@),
            None => None::<Seq<char>>,
        }),
{
    match (a, b) {
        (Some(x), Some(y)) => str_eq(x.as_str(), y),
        (None, None) => true,
        _ => false,
    }
}

/// Cache of the filtered view.
pub struct FilterCache {
    cached_filter_pattern: Option<String>,
    cached_case_insensitive: bool,
    cached_json_keys: Vec<String>,
    cached_log_count: usize,
    /// The cached filtered entries.
    pub cached_entries: Vec<Arc<LogEntry>>,
    /// Whether the cache has been built.
    pub is_valid: bool,
}

impl View for FilterCache {
    type V = CacheView;

    closed spec fn view(&self) -> CacheView {
        CacheView {
            pattern: match self.cached_filter_pattern {
                Some(p) => Some(p@),
                None => None,
            },
            case_insensitive: self.cached_case_insensitive,
            keys: name_set(self.cached_json_keys@),
            count: self.cached_log_count as nat,
            valid: self.is_valid,
        }
    }
}

impl Default for FilterCache {
    fn default() -> (r: Self)
        ensures
            !r@.valid,
            r.entries_view().len() == 0,
    {
        FilterCache::new()
    }
}

impl FilterCache {
    /// The cached entries.
    pub closed spec fn entries_view(&self) -> Seq<LogEntry> {
        self.cached_entries@.map_values(|a: Arc<LogEntry>| *a)
    }

    /// A cache that has never been built.
    pub fn new() -> (r: Self)
        ensures
            !r@.valid,
            r.entries_view().len() == 0,
    {
        FilterCache {
            cached_filter_pattern: None,
            cached_case_insensitive: false,
            cached_json_keys: Vec::new(),
            cached_log_count: 0,
            cached_entries: Vec::new(),
            is_valid: false,
        }
    }

    /// Whether the cache must be rebuilt for the given signature.
    pub fn needs_refresh(
        &self,
        filter: Option<&CompiledFilter>,
        case_insensitive: bool,
        json_keys: &Vec<String>,
        current_log_count: usize,
    ) -> (r: bool)
        ensures
            r == stale(
                self@,
                pattern_of(filter_view_of(filter)),
                case_insensitive,
                name_set(json_keys@),
                current_log_count as nat,
            ),
    {
        if !self.is_valid {
            return true;
        }
        if self.cached_log_count != current_log_count {
            return true;
        }
        let current_pattern = match filter {
            Some(f) => Some(f.pattern()),
            None => None,
        };
        if !same_pattern(&self.cached_filter_pattern, current_pattern) {
            return true;
        }
        if self.cached_case_insensitive != case_insensitive {
            return true;
        }
        if !same_names(&self.cached_json_keys, json_keys) {
            return true;
        }
        false
    }

    /// Records `entries` as the view for the given signature.
    pub fn update(
        &mut self,
        filter: Option<&CompiledFilter>,
        case_insensitive: bool,
        json_keys: &Vec<String>,
        log_count: usize,
        entries: Vec<Arc<LogEntry>>,
    )
        ensures
            final(self)@ == built_for(
                pattern_of(filter_view_of(filter)),
                case_insensitive,
                name_set(json_keys@),
                log_count as nat,
            ),
            final(self).entries_view() == entries@.map_values(|a: Arc<LogEntry>| *a),
    {
        self.cached_filter_pattern = match filter {
            Some(f) => Some(String::from_str(f.pattern())),
            None => None,
        };
        self.cached_case_insensitive = case_insensitive;
        self.cached_json_keys = copy_names(json_keys);
        self.cached_log_count = log_count;
        self.cached_entries = entries;
        self.is_valid = true;
    }

    /// Flushes the buffer's stage, then rebuilds the view from the buffer
    /// when the signature (taken after the flush) changed, and returns
    /// whether it did.
    pub fn refresh(
        &mut self,
        buffer: &mut LogBuffer,
        filter: Option<&CompiledFilter>,
        case_insensitive: bool,
        json_keys: &Vec<String>,
    ) -> (rebuilt: bool)
        requires
            old(buffer).wf(),
        ensures
            final(buffer).wf(),
            final(buffer).view() == flush_model(old(buffer).view()),
            rebuilt == stale(
                old(self)@,
                pattern_of(filter_view_of(filter)),
                case_insensitive,
                name_set(json_keys@),
                final(buffer).view().ring.len(),
            ),
            rebuilt ==> final(self)@ == built_for(
                pattern_of(filter_view_of(filter)),
                case_insensitive,
                name_set(json_keys@),
                final(buffer).view().ring.len(),
            ),
            rebuilt ==> final(self).entries_view() == selected(
                final(buffer).view().ring,
                Seq::new(
                    final(buffer).view().ring.len(),
                    |i: int| shown(final(buffer).view().ring[i], filter_view_of(filter), name_set(json_keys@)),
                ),
            ),
            !rebuilt ==> *final(self) == *old(self),
            !stale(
                final(self)@,
                pattern_of(filter_view_of(filter)),
                case_insensitive,
                name_set(json_keys@),
                final(buffer).view().ring.len(),
            ),
    {
        let count = buffer.len();
        if !self.needs_refresh(filter, case_insensitive, json_keys, count) {
            return false;
        }
        proof {
            buffer.lemma_ring_within_capacity();
            lemma_flush_idempotent(buffer.view());
        }
        let all = buffer.all();
        let entries = select_entries(&all, filter, json_keys);
        proof {
            let s = all@.map_values(|a: Arc<LogEntry>| *a);
            assert(Seq::new(all@.len(), |i: int| shown(*all@[i], filter_view_of(filter), name_set(json_keys@)))
                =~= Seq::new(s.len(), |i: int| shown(s[i], filter_view_of(filter), name_set(json_keys@))));
        }
        self.update(filter, case_insensitive, json_keys, count, entries);
        true
    }
}

/// A copy of a list of names.
fn copy_names(v: &Vec<String>) -> (r: Vec<String>)
    ensures
        r@.map_values(|s: String| s@) == v@.map_values(|s: String| s@),
{
    let mut r: Vec<String> = Vec::new();
    let mut i: usize = 0;
    while i < v.len()
        invariant
            i <= v@.len(),
            r@.map_values(|s: String| s@) == v@.subrange(0, i as int).map_values(|s: String| s@),
        decreases v@.len() - i,
    {
        let c = v[i].clone();
        let ghost prev = r@;
        r.push(c);
        proof {
            assert(r@ == prev.push(v@[i as int]));
            assert(v@.subrange(0, i + 1) =~= v@.subrange(0, i as int).push(v@[i as int]));
            assert(r@.map_values(|s: String| s@) =~= prev.map_values(|s: String| s@).push(v@[i as int]@));
            assert(v@.subrange(0, i + 1).map_values(|s: String| s@) =~= v@.subrange(0, i as int).map_values(|s: String| s@).push(v@[i as int]@));
            assert(r@.map_values(|s: String| s@) =~= v@.subrange(0, i + 1).map_values(|s: String| s@));
        }
        i = i + 1;
    }
    assert(v@.subrange(0, i as int) =~= v@);
    r
}

} // verus!
