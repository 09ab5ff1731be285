//! Turning a raw line into a [`LogEntry`]: timestamp prefix, JSON detection
//! and level detection.

use vstd::prelude::*;
use serde_json::Value;
use vstd::string::*;
use vstd::utf8::{
    decode_utf8, encode_utf8, is_char_boundary, length_of_first_scalar, pop_first_scalar, valid_utf8,
};
use crate::entry::{fields_view, field_lookup, FieldValue, FieldView, LogEntry, Timestamp, find_field};
use crate::level::{level_named, LogLevel};
use crate::text::{
    chars_of, contains_chars, lower_of, leading_whitespace, seq_contains, seq_starts_with, starts_with_chars,
    trailing_whitespace_end, trim_spec, trim_start_spec, upper_of, uppercase,
};

verus! {

broadcast use vstd::utf8::group_utf8_lib;

/// What serde_json makes of a text that holds a JSON object: its top-level
/// fields and its pretty-printed form (`None` when the text is not a JSON
/// object).
pub uninterp spec fn json_object_of(text: Seq<char>) -> Option<(Seq<(Seq<char>, FieldView)>, Seq<char>)>;

/// The instant that chrono reads from an RFC 3339 text, as seconds since the
/// Unix epoch and nanoseconds (`None` when the text is not RFC 3339).
pub uninterp spec fn rfc3339_instant(text: Seq<char>) -> Option<(i64, u32)>;

/// Relies on `serde_json::from_str`, `Value::as_object` and
/// `serde_json::to_string_pretty`: the fields of a JSON object text and its
/// pretty form.
#[verifier::external_body]
fn parse_json_object(text: &str) -> (r: Option<(Vec<(String, FieldValue)>, String)>)
    ensures
        match r {
            Some((fs, p)) => json_object_of(text@) == Some((fields_view(fs@), p@)),
            None => json_object_of(text@) is None,
        },
{
    let v: Value = serde_json::from_str(text).ok()?;
    let fields = v.as_object()?.iter().map(|(k, x)| (k.clone(), match x {
        Value::Null => FieldValue::Null,
        Value::Bool(b) => FieldValue::Bool(*b),
        Value::Number(n) => FieldValue::Number(n.as_u64(), n.to_string()),
        Value::String(s) => FieldValue::Text(s.clone()),
        Value::Array(_) => FieldValue::Array(x.to_string()),
        Value::Object(_) => FieldValue::Object(x.to_string()),
    })).collect();
    Some((fields, serde_json::to_string_pretty(&v).unwrap_or_default()))
}

/// Relies on chrono's `DateTime::parse_from_rfc3339`, read back as a Unix
/// timestamp with its sub-second nanoseconds.
#[verifier::external_body]
fn parse_rfc3339(text: &str) -> (r: Option<(i64, u32)>)
    ensures
        r == rfc3339_instant(text@),
{
    chrono::DateTime::parse_from_rfc3339(text).ok().map(|t| (t.timestamp(), t.timestamp_subsec_nanos()))
}

/// The largest character boundary of `b` at or below `idx`.
pub open spec fn floor_boundary(b: Seq<u8>, idx: int) -> int
    decreases idx,
{
    if idx >= b.len() {
        b.len() as int
    } else if idx <= 0 || is_char_boundary(b, idx) {
        idx
    } else {
        floor_boundary(b, idx - 1)
    }
}

/// The first index in `[i, end)` that holds the byte `x`.
pub open spec fn first_byte(b: Seq<u8>, x: u8, i: int, end: int) -> Option<int>
    decreases end - i,
{
    if i >= end {
        None
    } else if b[i] == x {
        Some(i)
    } else {
        first_byte(b, x, i + 1, end)
    }
}

proof fn lemma_first_byte(b: Seq<u8>, x: u8, i: int, end: int)
    ensures
        first_byte(b, x, i, end) matches Some(j) ==> i <= j < end && b[j] == x,
    decreases end - i,
{
    if i < end && b[i] != x {
        lemma_first_byte(b, x, i + 1, end);
    }
}

/// Bytes of a line searched for the `'Z'` that ends a leading timestamp.
pub const TIMESTAMP_SCAN_BYTES: usize = 35;

/// The shortest line that can start with a timestamp
/// (`YYYY-MM-DDTHH:MM:SSZ`).
pub const MIN_TIMESTAMP_BYTES: usize = 20;

/// The byte of `'Z'`, which ends a UTC timestamp.
pub const Z_BYTE: u8 = 90;

/// Where the leading timestamp of a line ends: the index of its `'Z'`.
pub open spec fn timestamp_z(b: Seq<u8>) -> Option<int> {
    if b.len() >= MIN_TIMESTAMP_BYTES {
        first_byte(
            b,
            Z_BYTE,
            0,
            floor_boundary(b, if b.len() < TIMESTAMP_SCAN_BYTES { b.len() as int } else { TIMESTAMP_SCAN_BYTES as int }),
        )
    } else {
        None
    }
}

/// The leading timestamp of a line and the content that follows it: the text
/// after the `'Z'` with leading whitespace removed. Without a timestamp the
/// content is the whole line.
pub open spec fn split_timestamp(b: Seq<u8>) -> (Option<(i64, u32)>, Seq<char>) {
    match timestamp_z(b) {
        Some(z) => if rfc3339_instant(decode_utf8(b.subrange(0, z + 1))) is Some {
            (
                rfc3339_instant(decode_utf8(b.subrange(0, z + 1))),
                trim_start_spec(decode_utf8(b.subrange(z + 1, b.len() as int))),
            )
        } else {
            (None, decode_utf8(b))
        },
        None => (None, decode_utf8(b)),
    }
}

/// An ordered table of patterns and the levels they stand for.
pub type LevelTable = Seq<(Seq<char>, LogLevel)>;

/// The level of the first pattern of `t` that occurs in `hay`.
pub open spec fn first_contained(hay: Seq<char>, t: LevelTable) -> Option<LogLevel>
    decreases t.len(),
{
    if t.len() == 0 {
        None
    } else if seq_contains(hay, t[0].0) {
        Some(t[0].1)
    } else {
        first_contained(hay, t.drop_first())
    }
}

/// The level of the first pattern of `t` that `hay` begins with.
pub open spec fn first_prefix(hay: Seq<char>, t: LevelTable) -> Option<LogLevel>
    decreases t.len(),
{
    if t.len() == 0 {
        None
    } else if seq_starts_with(hay, t[0].0) {
        Some(t[0].1)
    } else {
        first_prefix(hay, t.drop_first())
    }
}

pub open spec fn bracket_table() -> LevelTable {
    seq![
        ("[FATAL]"@, LogLevel::Fatal),
        ("[PANIC]"@, LogLevel::Fatal),
        ("[CRITICAL]"@, LogLevel::Fatal),
        ("[ERROR]"@, LogLevel::Error),
        ("[ERR]"@, LogLevel::Error),
        ("[WARN]"@, LogLevel::Warn),
        ("[WARNING]"@, LogLevel::Warn),
        ("[INFO]"@, LogLevel::Info),
        ("[DEBUG]"@, LogLevel::Debug),
        ("[TRACE]"@, LogLevel::Trace),
    ]
}

pub open spec fn colon_table() -> LevelTable {
    seq![
        ("FATAL:"@, LogLevel::Fatal),
        ("PANIC:"@, LogLevel::Fatal),
        ("ERROR:"@, LogLevel::Error),
        ("ERR:"@, LogLevel::Error),
        ("WARNING:"@, LogLevel::Warn),
        ("WARN:"@, LogLevel::Warn),
        ("INFO:"@, LogLevel::Info),
        ("DEBUG:"@, LogLevel::Debug),
        ("TRACE:"@, LogLevel::Trace),
    ]
}

pub open spec fn spaced_table() -> LevelTable {
    seq![
        (" FATAL "@, LogLevel::Fatal),
        (" PANIC "@, LogLevel::Fatal),
        (" ERROR "@, LogLevel::Error),
        (" WARN "@, LogLevel::Warn),
        (" WARNING "@, LogLevel::Warn),
        (" INFO "@, LogLevel::Info),
        (" DEBUG "@, LogLevel::Debug),
        (" TRACE "@, LogLevel::Trace),
    ]
}

pub open spec fn start_table() -> LevelTable {
    seq![
        ("FATAL"@, LogLevel::Fatal),
        ("PANIC"@, LogLevel::Fatal),
        ("ERROR"@, LogLevel::Error),
        ("ERR"@, LogLevel::Error),
        ("WARN"@, LogLevel::Warn),
        ("INFO"@, LogLevel::Info),
        ("DEBUG"@, LogLevel::Debug),
        ("TRACE"@, LogLevel::Trace),
    ]
}

/// The level of an upper-cased free-text line: bracketed tokens first, then
/// colon-suffixed, then space-delimited, then a token at the (whitespace
/// trimmed) start.
pub open spec fn text_level(upper: Seq<char>) -> LogLevel {
    if let Some(l) = first_contained(upper, bracket_table()) {
        l
    } else if let Some(l) = first_contained(upper, colon_table()) {
        l
    } else if let Some(l) = first_contained(upper, spaced_table()) {
        l
    } else if let Some(l) = first_prefix(trim_start_spec(upper), start_table()) {
        l
    } else {
        LogLevel::Unknown
    }
}

/// Field names tried, in order, for the level of a structured line.
pub open spec fn json_level_keys() -> Seq<Seq<char>> {
    seq!["level"@, "lvl"@, "severity"@, "log.level"@, "loglevel"@, "log_level"@, "Level"@, "LEVEL"@]
}

/// The level a numeric level value stands for.
pub open spec fn numeric_level(n: u64) -> LogLevel {
    if n <= 10 {
        LogLevel::Trace
    } else if n <= 20 {
        LogLevel::Debug
    } else if n <= 30 {
        LogLevel::Info
    } else if n <= 40 {
        LogLevel::Warn
    } else if n <= 50 {
        LogLevel::Error
    } else {
        LogLevel::Fatal
    }
}

/// The level that a field value gives, where it gives one: a text by its
/// name, a non-negative integer by its range.
pub open spec fn value_level(v: FieldView) -> Option<LogLevel> {
    match v {
        FieldView::Text(t) => Some(level_named(lower_of(t))),
        FieldView::Number(Some(n), _) => Some(numeric_level(n)),
        _ => None,
    }
}

/// The level of a structured line: the first of `keys` whose field gives one.
pub open spec fn json_level(fs: Seq<(Seq<char>, FieldView)>, keys: Seq<Seq<char>>) -> LogLevel
    decreases keys.len(),
{
    if keys.len() == 0 {
        LogLevel::Unknown
    } else {
        match field_lookup(fs, keys[0]) {
            Some(v) if value_level(v) is Some => value_level(v)->0,
            _ => json_level(fs, keys.drop_first()),
        }
    }
}

/// The structured reading of a content text: its fields, level and pretty
/// form, where the trimmed text starts with `{` and is a JSON object.
pub open spec fn json_reading(content: Seq<char>) -> Option<(Seq<(Seq<char>, FieldView)>, LogLevel, Seq<char>)> {
    let t = trim_spec(content);
    if t.len() > 0 && t[0] == '{' {
        match json_object_of(t) {
            Some((fs, p)) => Some((fs, json_level(fs, json_level_keys()), p)),
            None => None,
        }
    } else {
        None
    }
}

pub open spec fn table_view(t: Seq<(&str, LogLevel)>) -> LevelTable {
    t.map_values(|p: (&str, LogLevel)| (p.0@, p.1))
}

/// The first entry of `t` whose pattern occurs in (or, with `prefix`, begins)
/// `hay`.
fn scan_table(hay: &Vec<char>, t: &Vec<(&str, LogLevel)>, prefix: bool) -> (r: Option<LogLevel>)
    ensures
        r == if prefix { first_prefix(hay@, table_view(t@)) } else { first_contained(hay@, table_view(t@)) },
{
    let mut i: usize = 0;
    assert(table_view(t@).subrange(0, t@.len() as int) =~= table_view(t@));
    while i < t.len()
        invariant
            i <= t@.len(),
            (if prefix { first_prefix(hay@, table_view(t@)) } else { first_contained(hay@, table_view(t@)) })
                == (if prefix {
                    first_prefix(hay@, table_view(t@).subrange(i as int, t@.len() as int))
                } else {
                    first_contained(hay@, table_view(t@).subrange(i as int, t@.len() as int))
                }),
        decreases t@.len() - i,
    {
        let ghost rest = table_view(t@).subrange(i as int, t@.len() as int);
        assert(rest[0] == (t@[i as int].0@, t@[i as int].1));
        assert(rest.drop_first() =~= table_view(t@).subrange(i + 1, t@.len() as int));
        let pat = chars_of(t[i].0);
        let hit = if prefix { starts_with_chars(hay, &pat) } else { contains_chars(hay, &pat) };
        if hit {
            return Some(t[i].1);
        }
        i = i + 1;
    }
    None
}

/// `r` is the entry parsed from line `raw` of source `pod`, numbered
/// `line_number`: the leading timestamp is split off, a content that is a
/// JSON object gives the fields, level and pretty form, and any other
/// content gives the level of its text.
pub open spec fn parsed_from(r: LogEntry, raw: Seq<char>, pod: Seq<char>, line_number: u64) -> bool {
    &&& r.id == 0
    &&& r.line_number == line_number
    &&& r.pod_name@ == pod
    &&& r.container_name is None
    &&& r.raw@ == raw
    &&& ({
        let (ts, content) = split_timestamp(encode_utf8(raw));
        &&& r.timestamp == match ts {
            Some((s, n)) => Some(Timestamp { secs: s, nanos: n }),
            None => None::<Timestamp>,
        }
        &&& match json_reading(content) {
            Some((fs, l, p)) => {
                &&& r.is_json
                &&& r.fields is Some && r.field_seq() == fs
                &&& r.level == l
                &&& r.pretty_printed is Some && r.pretty_printed->0@ == p
            },
            None => {
                &&& !r.is_json
                &&& r.fields is None
                &&& r.pretty_printed is None
                &&& r.level == text_level(upper_of(content))
            },
        }
    })
}

/// Parser for raw log lines.
pub struct LogParser;

impl LogParser {
    /// Parses a raw line into an entry. Never fails: a line that is neither
    /// timestamped nor structured becomes a plain entry whose level comes from
    /// its text.
    pub fn parse(raw: &str, pod_name: &str, line_number: u64) -> (r: LogEntry)
        ensures
            parsed_from(r, raw@, pod_name@, line_number),
    {
        proof {
            assert(raw.spec_bytes() == encode_utf8(raw@));
        }
        let mut entry = LogEntry::new(String::from_str(pod_name), line_number, String::from_str(raw));
        let (timestamp, content) = Self::extract_k8s_timestamp(raw);
        entry.timestamp = timestamp;
        match Self::try_parse_json(content) {
            Some((fields, level, pretty)) => {
                entry.is_json = true;
                entry.fields = Some(fields);
                entry.level = level;
                entry.pretty_printed = Some(pretty);
            },
            None => {
                entry.level = Self::extract_level_from_text(content);
            },
        }
        entry
    }

    /// Splits a leading RFC 3339 timestamp (ending in `Z`, within the first
    /// bytes of the line) from the content that follows it.
    fn extract_k8s_timestamp(raw: &str) -> (r: (Option<Timestamp>, &str))
        ensures
            ({
                let (ts, content) = split_timestamp(raw.spec_bytes());
                &&& r.0 == match ts {
                    Some((s, n)) => Some(Timestamp { secs: s, nanos: n }),
                    None => None::<Timestamp>,
                }
                &&& r.1@ == content
            }),
    {
        let b = raw.as_bytes();
        proof {
            assert(raw@ == decode_utf8(raw.spec_bytes()));
        }
        if b.len() >= MIN_TIMESTAMP_BYTES {
            let limit: usize = if b.len() < TIMESTAMP_SCAN_BYTES { b.len() } else { TIMESTAMP_SCAN_BYTES };
            let end = Self::floor_char_boundary(raw, limit);
            let found = find_byte(b, Z_BYTE, end);
            assert(timestamp_z(b@) == first_byte(b@, Z_BYTE, 0, end as int));
            if let Some(z) = found {
                proof {
                    lemma_first_byte(b@, Z_BYTE, 0, end as int);
                    vstd::utf8::encode_utf8_valid_utf8(raw@);
                    lemma_boundary_after_ascii(b@, z as int);
                }
                let (head, tail) = raw.split_at(z + 1);
                proof {
                    assert(head@ == decode_utf8(head.spec_bytes()));
                    assert(tail@ == decode_utf8(tail.spec_bytes()));
                    assert(head.spec_bytes() =~= b@.subrange(0, z + 1));
                    assert(tail.spec_bytes() =~= b@.subrange(z + 1, b@.len() as int));
                }
                if let Some((secs, nanos)) = parse_rfc3339(head) {
                    let cs = chars_of(tail);
                    let k = leading_whitespace(&cs);
                    return (Some(Timestamp { secs, nanos }), tail.substring_char(k, cs.len()));
                }
            }
        }
        (None, raw)
    }

    /// The largest character boundary of `s` at or below `idx`.
    pub fn floor_char_boundary(s: &str, idx: usize) -> (r: usize)
        ensures
            r == floor_boundary(s.spec_bytes(), idx as int),
            r <= s.spec_bytes().len(),
            is_char_boundary(s.spec_bytes(), r as int),
    {
        proof {
            vstd::utf8::is_char_boundary_start_end_of_seq(s.spec_bytes());
        }
        let b = s.as_bytes();
        if idx >= b.len() {
            return b.len();
        }
        let mut i = idx;
        while i > 0 && !s.is_char_boundary(i)
            invariant
                i <= idx < s.spec_bytes().len(),
                floor_boundary(s.spec_bytes(), idx as int) == floor_boundary(s.spec_bytes(), i as int),
            decreases i,
        {
            i = i - 1;
        }
        i
    }

    /// The fields, level and pretty form of a content text that is a JSON
    /// object.
    fn try_parse_json(content: &str) -> (r: Option<(Vec<(String, FieldValue)>, LogLevel, String)>)
        ensures
            match json_reading(content@) {
                Some((fs, l, p)) => match r {
                    Some((rf, rl, rp)) => fields_view(rf@) == fs && rl == l && rp@ == p,
                    None => false,
                },
                None => r is None,
            },
    {
        let cs = chars_of(content);
        let k = leading_whitespace(&cs);
        let start = content.substring_char(k, cs.len());
        let cs2 = chars_of(start);
        let e = trailing_whitespace_end(&cs2);
        let trimmed = start.substring_char(0, e);
        proof {
            assert(trimmed@ == trim_spec(content@));
        }
        if e == 0 || cs2[0] != '{' {
            return None;
        }
        match parse_json_object(trimmed) {
            Some((fields, pretty)) => {
                let level = Self::extract_level_from_json(&fields);
                Some((fields, level, pretty))
            },
            None => None,
        }
    }

    /// The level given by the first of the usual level fields that gives one.
    pub fn extract_level_from_json(fields: &Vec<(String, FieldValue)>) -> (r: LogLevel)
        ensures
            r == json_level(fields_view(fields@), json_level_keys()),
    {
        let keys: Vec<&str> = vec!["level", "lvl", "severity", "log.level", "loglevel", "log_level", "Level", "LEVEL"];
        let ghost fs = fields_view(fields@);
        assert(keys@.map_values(|k: &str| k@) =~= json_level_keys());
        assert(json_level_keys().subrange(0, keys@.len() as int) =~= json_level_keys());
        let mut i: usize = 0;
        while i < keys.len()
            invariant
                i <= keys@.len(),
                fs == fields_view(fields@),
                keys@.map_values(|k: &str| k@) == json_level_keys(),
                json_level(fs, json_level_keys()) == json_level(
                    fs,
                    json_level_keys().subrange(i as int, keys@.len() as int),
                ),
            decreases keys@.len() - i,
        {
            let ghost ks = json_level_keys().subrange(i as int, keys@.len() as int);
            assert(ks[0] == keys@[i as int]@);
            assert(ks.drop_first() =~= json_level_keys().subrange(i + 1, keys@.len() as int));
            match find_field(fields, keys[i]) {
                Some(FieldValue::Text(s)) => {
                    return LogLevel::from_str(s.as_str());
                },
                Some(FieldValue::Number(Some(n), _)) => {
                    let n = *n;
                    return if n <= 10 {
                        LogLevel::Trace
                    } else if n <= 20 {
                        LogLevel::Debug
                    } else if n <= 30 {
                        LogLevel::Info
                    } else if n <= 40 {
                        LogLevel::Warn
                    } else if n <= 50 {
                        LogLevel::Error
                    } else {
                        LogLevel::Fatal
                    };
                },
                _ => {},
            }
            i = i + 1;
        }
        LogLevel::Unknown
    }

    /// The level of a free-text line, detected case-insensitively.
    pub fn extract_level_from_text(content: &str) -> (r: LogLevel)
        ensures
            r == text_level(upper_of(content@)),
    {
        let upper = uppercase(content);
        Self::level_from_uppercase(upper.as_str())
    }

    /// The level of an already upper-cased free-text line.
    pub fn level_from_uppercase(upper: &str) -> (r: LogLevel)
        ensures
            r == text_level(upper@),
    {
        let up = chars_of(upper);
        let brackets: Vec<(&str, LogLevel)> = vec![
            ("[FATAL]", LogLevel::Fatal),
            ("[PANIC]", LogLevel::Fatal),
            ("[CRITICAL]", LogLevel::Fatal),
            ("[ERROR]", LogLevel::Error),
            ("[ERR]", LogLevel::Error),
            ("[WARN]", LogLevel::Warn),
            ("[WARNING]", LogLevel::Warn),
            ("[INFO]", LogLevel::Info),
            ("[DEBUG]", LogLevel::Debug),
            ("[TRACE]", LogLevel::Trace),
        ];
        assert(table_view(brackets@) =~= bracket_table());
        if let Some(l) = scan_table(&up, &brackets, false) {
            return l;
        }
        let colons: Vec<(&str, LogLevel)> = vec![
            ("FATAL:", LogLevel::Fatal),
            ("PANIC:", LogLevel::Fatal),
            ("ERROR:", LogLevel::Error),
            ("ERR:", LogLevel::Error),
            ("WARNING:", LogLevel::Warn),
            ("WARN:", LogLevel::Warn),
            ("INFO:", LogLevel::Info),
            ("DEBUG:", LogLevel::Debug),
            ("TRACE:", LogLevel::Trace),
        ];
        assert(table_view(colons@) =~= colon_table());
        if let Some(l) = scan_table(&up, &colons, false) {
            return l;
        }
        let spaced: Vec<(&str, LogLevel)> = vec![
            (" FATAL ", LogLevel::Fatal),
            (" PANIC ", LogLevel::Fatal),
            (" ERROR ", LogLevel::Error),
            (" WARN ", LogLevel::Warn),
            (" WARNING ", LogLevel::Warn),
            (" INFO ", LogLevel::Info),
            (" DEBUG ", LogLevel::Debug),
            (" TRACE ", LogLevel::Trace),
        ];
        assert(table_view(spaced@) =~= spaced_table());
        if let Some(l) = scan_table(&up, &spaced, false) {
            return l;
        }
        let starts: Vec<(&str, LogLevel)> = vec![
            ("FATAL", LogLevel::Fatal),
            ("PANIC", LogLevel::Fatal),
            ("ERROR", LogLevel::Error),
            ("ERR", LogLevel::Error),
            ("WARN", LogLevel::Warn),
            ("INFO", LogLevel::Info),
            ("DEBUG", LogLevel::Debug),
            ("TRACE", LogLevel::Trace),
        ];
        assert(table_view(starts@) =~= start_table());
        let k = leading_whitespace(&up);
        let rest = chars_of(upper.substring_char(k, up.len()));
        if let Some(l) = scan_table(&rest, &starts, true) {
            return l;
        }
        LogLevel::Unknown
    }
}

/// In valid UTF-8 an ASCII byte is a character of its own, so a boundary
/// follows it.
proof fn lemma_boundary_after_ascii(b: Seq<u8>, z: int)
    requires
        valid_utf8(b),
        0 <= z < b.len(),
        b[z] < 0x80,
    ensures
        is_char_boundary(b, z + 1),
    decreases b.len(),
{
    let l = length_of_first_scalar(b);
    let rest = pop_first_scalar(b);
    assert(rest.len() == b.len() - l);
    if z < l {
        assert(z == 0);
        assert(l == 1);
        assert(is_char_boundary(rest, 0));
    } else {
        assert(rest[z - l] == b[z]);
        lemma_boundary_after_ascii(rest, z - l);
    }
}

/// The first index below `end` that holds the byte `x`.
fn find_byte(b: &[u8], x: u8, end: usize) -> (r: Option<usize>)
    requires
        end <= b@.len(),
    ensures
        match r {
            Some(i) => first_byte(b@, x, 0, end as int) == Some(i as int),
            None => first_byte(b@, x, 0, end as int) is None,
        },
{
    let mut i: usize = 0;
    while i < end
        invariant
            end <= b@.len(),
            i <= end,
            first_byte(b@, x, 0, end as int) == first_byte(b@, x, i as int, end as int),
        decreases end - i,
    {
        if b[i] == x {
            return Some(i);
        }
        i = i + 1;
    }
    None
}

} // verus!
