//! Compiled log filters: a text pattern, allowed levels, allowed sources and
//! an invert flag.

use vstd::prelude::*;
use vstd::string::*;
use crate::entry::LogEntry;
use crate::level::LogLevel;
use crate::text::str_eq;

verus! {

#[verifier::external_type_specification]
#[verifier::external_body]
pub struct ExRegex(regex::Regex);

#[verifier::external_type_specification]
#[verifier::external_body]
pub struct ExRegexError(regex::Error);

/// Whether the regex crate accepts a pattern.
pub uninterp spec fn regex_compiles(pattern: Seq<char>) -> bool;

/// Whether a pattern matches somewhere in a text, under the regex crate.
pub uninterp spec fn regex_is_match(pattern: Seq<char>, text: Seq<char>) -> bool;

/// The byte spans of the successive non-overlapping matches of a pattern in a
/// text, under the regex crate.
pub uninterp spec fn regex_spans(pattern: Seq<char>, text: Seq<char>) -> Seq<(usize, usize)>;

/// A compiled regular expression together with the text it was compiled
/// from. Both fields are set only by [`compile`], which keeps them in step.
#[derive(Debug)]
pub struct Pattern {
    re: regex::Regex,
    source: String,
}

impl Pattern {
    /// The text the expression was compiled from.
    pub closed spec fn source(&self) -> Seq<char> {
        self.source@
    }
}

/// Relies on `regex::Regex::new`: it accepts exactly the valid patterns.
#[verifier::external_body]
fn compile(pattern: &str) -> (r: Result<Pattern, regex::Error>)
    ensures
        r is Ok == regex_compiles(pattern@),
        r matches Ok(p) ==> p.source() == pattern@,
{
    regex::Regex::new(pattern).map(|re| Pattern { re, source: pattern.to_string() })
}

/// Relies on `regex::Regex::is_match`: whether the expression matches
/// anywhere in `text`.
#[verifier::external_body]
fn pattern_is_match(p: &Pattern, text: &str) -> (r: bool)
    ensures
        r == regex_is_match(p.source(), text@),
{
    p.re.is_match(text)
}

/// Relies on `regex::Regex::find_iter`: the byte spans of successive
/// non-overlapping matches.
#[verifier::external_body]
fn pattern_spans(p: &Pattern, text: &str) -> (r: Vec<(usize, usize)>)
    ensures
        r@ == regex_spans(p.source(), text@),
{
    p.re.find_iter(text).map(|m| (m.start(), m.end())).collect()
}

/// The settings of a filter.
pub struct FilterView {
    /// The pattern as given (empty: no text filter).
    pub pattern: Seq<char>,
    /// The text the regex was compiled from, where there is one.
    pub source: Option<Seq<char>>,
    /// Allowed levels (empty: all).
    pub levels: Seq<LogLevel>,
    /// Allowed source names (empty: all).
    pub pods: Seq<Seq<char>>,
    pub invert: bool,
    pub case_insensitive: bool,
}

/// The decision of a filter on an entry's level and source, given whether
/// its text matched.
pub open spec fn filter_decides(f: FilterView, level: LogLevel, pod: Seq<char>, text_match: bool) -> bool {
    if f.levels.len() > 0 && !f.levels.contains(level) {
        f.invert
    } else if f.pods.len() > 0 && !f.pods.contains(pod) {
        f.invert
    } else if f.invert {
        !text_match
    } else {
        text_match
    }
}

/// Whether a filter's text pattern accepts a raw line (always, without one).
pub open spec fn text_matches(f: FilterView, raw: Seq<char>) -> bool {
    match f.source {
        Some(src) => regex_is_match(src, raw),
        None => true,
    }
}

/// Whether a filter accepts an entry with the given level, source and line.
pub open spec fn filter_matches(f: FilterView, level: LogLevel, pod: Seq<char>, raw: Seq<char>) -> bool {
    filter_decides(f, level, pod, text_matches(f, raw))
}

/// The same settings with the invert flag set to `b`.
pub open spec fn with_invert(f: FilterView, b: bool) -> FilterView {
    FilterView { invert: b, ..f }
}

/// Inverting a filter accepts exactly the entries that the same filter
/// without inversion rejects, whatever its pattern, levels and sources.
pub proof fn lemma_inverted_is_complement(f: FilterView, level: LogLevel, pod: Seq<char>, raw: Seq<char>)
    ensures
        filter_matches(with_invert(f, true), level, pod, raw) == !filter_matches(
            with_invert(f, false),
            level,
            pod,
            raw,
        ),
{
}

/// A filter over log entries, built once from its settings.
#[derive(Debug)]
pub struct CompiledFilter {
    regex: Option<Pattern>,
    pattern: String,
    levels: Vec<LogLevel>,
    pods: Vec<String>,
    invert: bool,
    case_insensitive: bool,
}

impl View for CompiledFilter {
    type V = FilterView;

    closed spec fn view(&self) -> FilterView {
        FilterView {
            pattern: self.pattern@,
            source: match self.regex {
                Some(p) => Some(p.source()),
                None => None,
            },
            levels: self.levels@,
            pods: self.pods@.map_values(|s: String| s@),
            invert: self.invert,
            case_insensitive: self.case_insensitive,
        }
    }
}

/// Whether `l` is among `ls`.
fn level_in(ls: &Vec<LogLevel>, l: LogLevel) -> (r: bool)
    ensures
        r == ls@.contains(l),
{
    let mut i: usize = 0;
    while i < ls.len()
        invariant
            i <= ls@.len(),
            forall|k: int| 0 <= k < i ==> ls@[k] != l,
        decreases ls@.len() - i,
    {
        if ls[i] == l {
            assert(ls@[i as int] == l);
            return true;
        }
        i = i + 1;
    }
    false
}

/// Whether `s` is among `ss`.
pub(crate) fn name_in(ss: &Vec<String>, s: &str) -> (r: bool)
    ensures
        r == ss@.map_values(|x: String| x@).contains(s@),
{
    let ghost view = ss@.map_values(|x: String| x@);
    let mut i: usize = 0;
    while i < ss.len()
        invariant
            i <= ss@.len(),
            view == ss@.map_values(|x: String| x@),
            forall|k: int| 0 <= k < i ==> view[k] != s@,
        decreases ss@.len() - i,
    {
        if str_eq(ss[i].as_str(), s) {
            assert(view[i as int] == s@);
            return true;
        }
        i = i + 1;
    }
    false
}

impl CompiledFilter {
    /// A filter on `pattern` (empty: no text filter), with no level or
    /// source restriction. Fails when the regex crate rejects the pattern.
    pub fn new(pattern: &str) -> (r: Result<Self, regex::Error>)
        ensures
            r is Err <==> (pattern@.len() > 0 && !regex_compiles(pattern@)),
            r matches Ok(f) ==> {
                &&& f@.pattern == pattern@
                &&& f@.source == if pattern@.len() == 0 { None } else { Some(pattern@) }
                &&& f@.levels.len() == 0
                &&& f@.pods.len() == 0
                &&& !f@.invert
                &&& !f@.case_insensitive
            },
    {
        let regex = if pattern.is_empty() {
            None
        } else {
            match compile(pattern) {
                Ok(p) => Some(p),
                Err(e) => return Err(e),
            }
        };
        Ok(CompiledFilter {
            regex,
            pattern: String::from_str(pattern),
            levels: Vec::new(),
            pods: Vec::new(),
            invert: false,
            case_insensitive: false,
        })
    }

    /// Like [`CompiledFilter::new`], but the regex ignores case: it is
    /// compiled from the pattern behind an inline `(?i)` flag.
    pub fn new_case_insensitive(pattern: &str) -> (r: Result<Self, regex::Error>)
        ensures
            r is Err <==> (pattern@.len() > 0 && !regex_compiles("(?i)"@ + pattern@)),
            r matches Ok(f) ==> {
                &&& f@.pattern == pattern@
                &&& f@.source == if pattern@.len() == 0 { None } else { Some("(?i)"@ + pattern@) }
                &&& f@.levels.len() == 0
                &&& f@.pods.len() == 0
                &&& !f@.invert
                &&& f@.case_insensitive
            },
    {
        let regex = if pattern.is_empty() {
            None
        } else {
            let mut src = String::from_str("(?i)");
            src.append(pattern);
            match compile(src.as_str()) {
                Ok(p) => Some(p),
                Err(e) => return Err(e),
            }
        };
        Ok(CompiledFilter {
            regex,
            pattern: String::from_str(pattern),
            levels: Vec::new(),
            pods: Vec::new(),
            invert: false,
            case_insensitive: true,
        })
    }

    /// The same filter, restricted to the given levels (empty: all).
    pub fn with_levels(self, levels: Vec<LogLevel>) -> (r: Self)
        ensures
            r@ == (FilterView { levels: levels@, ..self@ }),
    {
        CompiledFilter { levels, ..self }
    }

    /// The same filter, restricted to the given source names (empty: all).
    pub fn with_pods(self, pods: Vec<String>) -> (r: Self)
        ensures
            r@ == (FilterView { pods: pods@.map_values(|s: String| s@), ..self@ }),
    {
        CompiledFilter { pods, ..self }
    }

    /// The same filter with its decision inverted.
    pub fn inverted(self) -> (r: Self)
        ensures
            r@ == with_invert(self@, true),
    {
        CompiledFilter { invert: true, ..self }
    }

    /// Whether the filter accepts `entry`.
    pub fn matches(&self, entry: &LogEntry) -> (r: bool)
        ensures
            r == filter_matches(self@, entry.level, entry.pod_name@, entry.raw@),
    {
        let text_match = match &self.regex {
            Some(p) => pattern_is_match(p, entry.raw.as_str()),
            None => true,
        };
        self.decide(entry, text_match)
    }

    /// The filter's decision on `entry`, given whether its text matched.
    pub fn decide(&self, entry: &LogEntry, text_match: bool) -> (r: bool)
        ensures
            r == filter_decides(self@, entry.level, entry.pod_name@, text_match),
    {
        if self.levels.len() > 0 && !level_in(&self.levels, entry.level) {
            return self.invert;
        }
        if self.pods.len() > 0 && !name_in(&self.pods, entry.pod_name.as_str()) {
            return self.invert;
        }
        if self.invert {
            !text_match
        } else {
            text_match
        }
    }

    /// Byte spans of the pattern's matches in `text`, for highlighting;
    /// empty without a pattern.
    pub fn find_matches(&self, text: &str) -> (r: Vec<(usize, usize)>)
        ensures
            r@ == match self@.source {
                Some(src) => regex_spans(src, text@),
                None => Seq::empty(),
            },
    {
        match &self.regex {
            Some(p) => pattern_spans(p, text),
            None => Vec::new(),
        }
    }

    /// The pattern as given.
    pub fn pattern(&self) -> (r: &str)
        ensures
            r@ == self@.pattern,
    {
        self.pattern.as_str()
    }

    /// Whether the filter accepts every entry's level, source and text.
    pub fn is_empty(&self) -> (r: bool)
        ensures
            r == (self@.source is None && self@.levels.len() == 0 && self@.pods.len() == 0),
    {
        self.regex.is_none() && self.levels.len() == 0 && self.pods.len() == 0
    }

    /// Whether the filter has a text pattern.
    pub fn has_pattern(&self) -> (r: bool)
        ensures
            r == self@.source is Some,
    {
        self.regex.is_some()
    }

    /// Whether the text pattern ignores case.
    pub fn is_case_insensitive(&self) -> (r: bool)
        ensures
            r == self@.case_insensitive,
    {
        self.case_insensitive
    }
}

/// Ready-made level filters.
pub struct FilterPresets;

impl FilterPresets {
    /// Only errors and fatal entries.
    pub fn errors_only() -> (r: CompiledFilter)
        ensures
            r@.source is None,
            r@.pods.len() == 0,
            !r@.invert,
            r@.levels == seq![LogLevel::Error, LogLevel::Fatal],
    {
        Self::levels_only(vec![LogLevel::Error, LogLevel::Fatal])
    }

    /// Warnings and above.
    pub fn warnings_and_above() -> (r: CompiledFilter)
        ensures
            r@.source is None,
            r@.pods.len() == 0,
            !r@.invert,
            r@.levels == seq![LogLevel::Warn, LogLevel::Error, LogLevel::Fatal],
    {
        Self::levels_only(vec![LogLevel::Warn, LogLevel::Error, LogLevel::Fatal])
    }

    /// Info and above (no debug or trace).
    pub fn info_and_above() -> (r: CompiledFilter)
        ensures
            r@.source is None,
            r@.pods.len() == 0,
            !r@.invert,
            r@.levels == seq![LogLevel::Info, LogLevel::Warn, LogLevel::Error, LogLevel::Fatal],
    {
        Self::levels_only(vec![LogLevel::Info, LogLevel::Warn, LogLevel::Error, LogLevel::Fatal])
    }

    fn levels_only(levels: Vec<LogLevel>) -> (r: CompiledFilter)
        ensures
            r@.source is None,
            r@.pods.len() == 0,
            !r@.invert,
            r@.levels == levels@,
    {
        proof {
            reveal_strlit("");
        }
        let f = CompiledFilter::new("");
        match f {
            Ok(f) => f.with_levels(levels),
            Err(_) => CompiledFilter {
                regex: None,
                pattern: String::new(),
                levels,
                pods: Vec::new(),
                invert: false,
                case_insensitive: false,
            },
        }
    }
}

} // verus!
