//! The parsed log entry and the values it carries.

use vstd::prelude::*;
use crate::level::LogLevel;
use crate::text::{chars_of, str_eq};

verus! {

/// An instant as seconds and nanoseconds since the Unix epoch (UTC).
#[derive(Clone, Copy, Debug, PartialEq, Eq, Structural)]
pub struct Timestamp {
    pub secs: i64,
    pub nanos: u32,
}

/// One top-level value of a structured (JSON object) line. Nested arrays and
/// objects are kept as their compact JSON text; a number keeps its text and,
/// where it is a non-negative integer that fits, its `u64` value.
#[derive(Clone, Debug)]
pub enum FieldValue {
    Null,
    Bool(bool),
    Number(Option<u64>, String),
    Text(String),
    Array(String),
    Object(String),
}

/// The mathematical form of a [`FieldValue`].
pub enum FieldView {
    Null,
    Bool(bool),
    Number(Option<u64>, Seq<char>),
    Text(Seq<char>),
    Array(Seq<char>),
    Object(Seq<char>),
}

impl View for FieldValue {
    type V = FieldView;

    open spec fn view(&self) -> FieldView {
        match self {
            FieldValue::Null => FieldView::Null,
            FieldValue::Bool(b) => FieldView::Bool(*b),
            FieldValue::Number(n, t) => FieldView::Number(*n, t@),
            FieldValue::Text(t) => FieldView::Text(t@),
            FieldValue::Array(t) => FieldView::Array(t@),
            FieldValue::Object(t) => FieldView::Object(t@),
        }
    }
}

/// The mathematical form of a list of named fields.
pub open spec fn fields_view(fs: Seq<(String, FieldValue)>) -> Seq<(Seq<char>, FieldView)> {
    fs.map_values(|p: (String, FieldValue)| (p.0@, p.1@))
}

/// The value of the first field named `key`, if any.
pub open spec fn field_lookup(fs: Seq<(Seq<char>, FieldView)>, key: Seq<char>) -> Option<FieldView>
    decreases fs.len(),
{
    if fs.len() == 0 {
        None
    } else if fs[0].0 == key {
        Some(fs[0].1)
    } else {
        field_lookup(fs.drop_first(), key)
    }
}

/// Looks up the first field named `key`.
pub fn find_field<'a>(fs: &'a Vec<(String, FieldValue)>, key: &str) -> (r: Option<&'a FieldValue>)
    ensures
        match r {
            Some(v) => field_lookup(fields_view(fs@), key@) == Some(v@),
            None => field_lookup(fields_view(fs@), key@) is None,
        },
{
    let mut i: usize = 0;
    assert(fields_view(fs@).subrange(0, fs@.len() as int) =~= fields_view(fs@));
    while i < fs.len()
        invariant
            i <= fs@.len(),
            field_lookup(fields_view(fs@), key@) == field_lookup(
                fields_view(fs@).subrange(i as int, fs@.len() as int),
                key@,
            ),
        decreases fs@.len() - i,
    {
        let ghost rest = fields_view(fs@).subrange(i as int, fs@.len() as int);
        assert(rest[0] == (fs@[i as int].0@, fs@[i as int].1@));
        if str_eq(fs[i].0.as_str(), key) {
            return Some(&fs[i].1);
        }
        assert(rest.drop_first() =~= fields_view(fs@).subrange(i + 1, fs@.len() as int));
        i = i + 1;
    }
    None
}

/// A single ingested log line.
#[derive(Clone, Debug)]
pub struct LogEntry {
    /// Sequence number given when the entry enters the buffer.
    pub id: u64,
    /// 1-based line number within its source.
    pub line_number: u64,
    /// Source (pod) name.
    pub pod_name: String,
    /// Container name, where the source has several.
    pub container_name: Option<String>,
    /// The line as received.
    pub raw: String,
    /// Leading RFC 3339 timestamp, where one was found.
    pub timestamp: Option<Timestamp>,
    /// Detected severity.
    pub level: LogLevel,
    /// Top-level fields, where the line is a JSON object.
    pub fields: Option<Vec<(String, FieldValue)>>,
    /// Whether the line is a JSON object.
    pub is_json: bool,
    /// Pretty-printed JSON form, where the line is a JSON object.
    pub pretty_printed: Option<String>,
}

/// The part of `s` after its last `'-'` (all of `s` when there is none).
pub open spec fn after_last_dash(s: Seq<char>) -> Seq<char>
    decreases s.len(),
{
    if s.len() == 0 {
        s
    } else if s.last() == '-' {
        Seq::empty()
    } else {
        after_last_dash(s.drop_last()).push(s.last())
    }
}

/// Field names tried, in order, for the message of a structured line.
pub open spec fn message_keys() -> Seq<Seq<char>> {
    seq!["message"@, "msg"@, "log"@, "text"@, "body"@]
}

/// The first text value among the keys `keys`, if any.
pub open spec fn first_text(fs: Seq<(Seq<char>, FieldView)>, keys: Seq<Seq<char>>) -> Option<Seq<char>>
    decreases keys.len(),
{
    if keys.len() == 0 {
        None
    } else {
        match field_lookup(fs, keys[0]) {
            Some(FieldView::Text(t)) => Some(t),
            _ => first_text(fs, keys.drop_first()),
        }
    }
}

proof fn lemma_first_text_empty(keys: Seq<Seq<char>>)
    ensures
        first_text(Seq::empty(), keys) is None,
    decreases keys.len(),
{
    if keys.len() > 0 {
        lemma_first_text_empty(keys.drop_first());
    }
}

impl LogEntry {
    /// The entry's fields in mathematical form (empty when unstructured).
    pub open spec fn field_seq(&self) -> Seq<(Seq<char>, FieldView)> {
        match self.fields {
            Some(fs) => fields_view(fs@),
            None => Seq::empty(),
        }
    }

    /// A plain entry with no timestamp, level `Unknown` and no fields.
    pub fn new(pod_name: String, line_number: u64, raw: String) -> (r: Self)
        ensures
            r.id == 0,
            r.line_number == line_number,
            r.pod_name == pod_name,
            r.container_name is None,
            r.raw == raw,
            r.timestamp is None,
            r.level == LogLevel::Unknown,
            r.fields is None,
            !r.is_json,
            r.pretty_printed is None,
    {
        LogEntry {
            id: 0,
            line_number,
            pod_name,
            container_name: None,
            raw,
            timestamp: None,
            level: LogLevel::Unknown,
            fields: None,
            is_json: false,
            pretty_printed: None,
        }
    }

    /// The last dash-separated part of the pod name.
    pub fn short_pod_name(&self) -> (r: &str)
        ensures
            r@ == after_last_dash(self.pod_name@),
    {
        let cs = chars_of(self.pod_name.as_str());
        let mut k: usize = cs.len();
        assert(cs@.subrange(0, cs@.len() as int) =~= cs@);
        assert(cs@ =~= cs@ + cs@.subrange(cs@.len() as int, cs@.len() as int));
        while k > 0
            invariant
                k <= cs@.len(),
                cs@ == self.pod_name@,
                after_last_dash(cs@) == after_last_dash(cs@.subrange(0, k as int)) + cs@.subrange(
                    k as int,
                    cs@.len() as int,
                ),
            decreases k,
        {
            let ghost pre = cs@.subrange(0, k as int);
            assert(pre.drop_last() =~= cs@.subrange(0, k - 1));
            assert(pre.last() == cs@[k - 1]);
            if cs[k - 1] == '-' {
                assert(after_last_dash(pre) =~= Seq::<char>::empty());
                assert(after_last_dash(cs@) =~= cs@.subrange(k as int, cs@.len() as int));
                return self.pod_name.as_str().substring_char(k, cs.len());
            }
            assert(cs@.subrange(k - 1, cs@.len() as int) =~= seq![cs@[k - 1]] + cs@.subrange(
                k as int,
                cs@.len() as int,
            ));
            assert(after_last_dash(cs@.subrange(0, k - 1)).push(cs@[k - 1]) + cs@.subrange(
                k as int,
                cs@.len() as int,
            ) =~= after_last_dash(cs@.subrange(0, k - 1)) + cs@.subrange(k - 1, cs@.len() as int));
            k = k - 1;
        }
        assert(cs@.subrange(0, 0) =~= Seq::<char>::empty());
        assert(after_last_dash(cs@) =~= cs@.subrange(0, cs@.len() as int));
        self.pod_name.as_str().substring_char(k, cs.len())
    }

    /// The message text: the first text field among the usual message keys
    /// of a structured line, else the raw line.
    pub fn message(&self) -> (r: &str)
        ensures
            r@ == match first_text(self.field_seq(), message_keys()) {
                Some(t) => t,
                None => self.raw@,
            },
    {
        if let Some(fs) = &self.fields {
            let keys: Vec<&str> = vec!["message", "msg", "log", "text", "body"];
            let ghost kv = seq!["message"@, "msg"@, "log"@, "text"@, "body"@];
            assert(keys@.map_values(|k: &str| k@) =~= kv);
            assert(message_keys().subrange(0, keys@.len() as int) =~= message_keys());
            let mut i: usize = 0;
            while i < keys.len()
                invariant
                    i <= keys@.len(),
                    keys@.map_values(|k: &str| k@) == message_keys(),
                    self.fields == Some(*fs),
                    first_text(self.field_seq(), message_keys()) == first_text(
                        self.field_seq(),
                        message_keys().subrange(i as int, keys@.len() as int),
                    ),
                decreases keys@.len() - i,
            {
                let ghost ks = message_keys().subrange(i as int, keys@.len() as int);
                assert(ks[0] == keys@[i as int]@);
                assert(ks.drop_first() =~= message_keys().subrange(i + 1, keys@.len() as int));
                if let Some(FieldValue::Text(t)) = find_field(fs, keys[i]) {
                    return t.as_str();
                }
                i = i + 1;
            }
            assert(first_text(self.field_seq(), message_keys().subrange(i as int, keys@.len() as int)) is None);
        } else {
            proof {
                lemma_first_text_empty(message_keys());
            }
        }
        self.raw.as_str()
    }
}

} // verus!
