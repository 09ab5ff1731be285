//! Text export of entries and the search over structured field names.

use vstd::prelude::*;
use vstd::string::*;
use crate::entry::LogEntry;
use crate::level::level_label;
use crate::text::{chars_of, contains_chars, lower_of, lowercase, seq_contains};

verus! {

/// The fixed-width ISO 8601 form (`YYYY-MM-DDTHH:MM:SS.mmmZ`) that chrono
/// gives an instant, or the empty text where chrono cannot represent it.
pub uninterp spec fn iso_millis(secs: i64, nanos: u32) -> Seq<char>;

/// Relies on chrono's `DateTime::from_timestamp` and its
/// `%Y-%m-%dT%H:%M:%S%.3fZ` formatting.
#[verifier::external_body]
fn format_iso_millis(secs: i64, nanos: u32) -> (r: String)
    ensures
        r@ == iso_millis(secs, nanos),
{
    chrono::DateTime::from_timestamp(secs, nanos)
        .map(|t| t.format("%Y-%m-%dT%H:%M:%S%.3fZ").to_string())
        .unwrap_or_default()
}

/// The export line of an entry: `TIMESTAMP [LEVEL] SOURCE | RAW`, with an
/// empty timestamp when the entry has none.
pub open spec fn export_text(e: LogEntry) -> Seq<char> {
    let ts = match e.timestamp {
        Some(t) => iso_millis(t.secs, t.nanos),
        None => Seq::empty(),
    };
    ts + " ["@ + level_label(e.level) + "] "@ + e.pod_name@ + " | "@ + e.raw@
}

/// The export line of an entry.
pub fn export_line(e: &LogEntry) -> (r: String)
    ensures
        r@ == export_text(*e),
{
    let mut out = match e.timestamp {
        Some(t) => format_iso_millis(t.secs, t.nanos),
        None => String::new(),
    };
    out.append(" [");
    out.append(e.level.as_str());
    out.append("] ");
    out.append(e.pod_name.as_str());
    out.append(" | ");
    out.append(e.raw.as_str());
    out
}

/// The names among `keys` whose lower-case form contains `lower_search`
/// (all of them for an empty search), in order.
pub open spec fn names_matching(keys: Seq<Seq<char>>, lower_search: Seq<char>) -> Seq<Seq<char>>
    decreases keys.len(),
{
    if keys.len() == 0 {
        keys
    } else if lower_search.len() == 0 || seq_contains(lower_of(keys.last()), lower_search) {
        names_matching(keys.drop_last(), lower_search).push(keys.last())
    } else {
        names_matching(keys.drop_last(), lower_search)
    }
}

/// The field names that a case-insensitive search selects.
pub fn keys_matching(keys: &Vec<String>, search: &str) -> (r: Vec<String>)
    ensures
        r@.map_values(|s: String| s@) == names_matching(keys@.map_values(|s: String| s@), lower_of(search@)),
{
    let low = lowercase(search);
    let needle = chars_of(low.as_str());
    let ghost ks = keys@.map_values(|s: String| s@);
    let mut r: Vec<String> = Vec::new();
    let mut i: usize = 0;
    while i < keys.len()
        invariant
            i <= keys@.len(),
            ks == keys@.map_values(|s: String| s@),
            needle@ == lower_of(search@),
            r@.map_values(|s: String| s@) == names_matching(ks.subrange(0, i as int), needle@),
        decreases keys@.len() - i,
    {
        proof {
            assert(ks.subrange(0, i + 1).drop_last() =~= ks.subrange(0, i as int));
            assert(ks.subrange(0, i + 1).last() == keys@[i as int]@);
        }
        let name_low = lowercase(keys[i].as_str());
        let hay = chars_of(name_low.as_str());
        if needle.len() == 0 || contains_chars(&hay, &needle) {
            let c = keys[i].clone();
            let ghost prev = r@;
            r.push(c);
            proof {
                assert(r@.map_values(|s: String| s@) =~= prev.map_values(|s: String| s@).push(keys@[i as int]@));
            }
        }
        i = i + 1;
    }
    assert(ks.subrange(0, i as int) =~= ks);
    r
}

} // verus!
