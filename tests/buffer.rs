use kubescope::keyset::{str_lt, KeySet};
use kubescope::buffer::LogBuffer;
use kubescope::cache::{select_entries, FilterCache};
use kubescope::entry::LogEntry;
use kubescope::filter::CompiledFilter;
use kubescope::level::LogLevel;
use kubescope::parser::LogParser;

fn entry(n: u64, level: LogLevel) -> LogEntry {
    let mut e = LogEntry::new("pod".to_string(), n, format!("line {}", n));
    e.level = level;
    e
}

#[test]
fn retains_most_recent_capacity_entries_in_order() {
    let mut b = LogBuffer::new(5);
    for n in 0..12 {
        b.push(entry(n, LogLevel::Info));
    }
    assert_eq!(b.len(), 5);
    let all = b.all();
    assert_eq!(all.len(), 5);
    let lines: Vec<u64> = all.iter().map(|e| e.line_number).collect();
    assert_eq!(lines, vec![7, 8, 9, 10, 11]);
    let ids: Vec<u64> = all.iter().map(|e| e.id).collect();
    assert_eq!(ids, vec![7, 8, 9, 10, 11]);
    assert_eq!(b.len(), 5);
}

#[test]
fn batch_flush_happens_at_threshold() {
    let mut b = LogBuffer::new(1000);
    for n in 0..99 {
        b.push(entry(n, LogLevel::Info));
    }
    assert_eq!(b.pending_len(), 99);
    b.push(entry(99, LogLevel::Info));
    assert_eq!(b.pending_len(), 0);
    assert_eq!(b.next_id(), 100);
}

#[test]
fn eviction_across_batches() {
    let mut b = LogBuffer::new(150);
    for n in 0..250 {
        b.push(entry(n, LogLevel::Debug));
    }
    let all = b.all();
    assert_eq!(all.len(), 150);
    assert_eq!(all[0].line_number, 100);
    assert_eq!(all[149].line_number, 249);
    assert_eq!(all[0].id, 100);
}

#[test]
fn zero_capacity_keeps_nothing() {
    let mut b = LogBuffer::new(0);
    b.push(entry(1, LogLevel::Info));
    b.push(entry(2, LogLevel::Warn));
    assert!(b.all().is_empty());
    assert_eq!(b.len(), 0);
    assert!(b.is_empty());
    assert_eq!(b.level_counts().total(), 0);
}

#[test]
fn len_never_exceeds_capacity() {
    let mut b = LogBuffer::new(1);
    b.push(entry(1, LogLevel::Info));
    b.push(entry(2, LogLevel::Info));
    assert_eq!(b.pending_len(), 2);
    assert_eq!(b.len(), 1);
    assert_eq!(b.pending_len(), 0);
    assert_eq!(b.all()[0].line_number, 2);
}

#[test]
fn cache_records_population_after_flush() {
    let mut b = LogBuffer::new(1);
    b.push(entry(1, LogLevel::Info));
    b.push(entry(2, LogLevel::Info));
    let mut cache = FilterCache::new();
    let none: Vec<String> = vec![];
    assert!(cache.refresh(&mut b, None, false, &none));
    let n = b.len();
    assert_eq!(n, 1);
    assert!(!cache.needs_refresh(None, false, &none, n));
    assert!(!cache.refresh(&mut b, None, false, &none));
}

#[test]
fn level_counts_total_matches_len_after_eviction() {
    let mut b = LogBuffer::new(4);
    let levels = [LogLevel::Error, LogLevel::Info, LogLevel::Info, LogLevel::Warn, LogLevel::Fatal, LogLevel::Unknown, LogLevel::Trace];
    for (n, l) in levels.iter().enumerate() {
        b.push(entry(n as u64, *l));
    }
    let c = b.level_counts();
    assert_eq!(c.total(), b.len());
    assert_eq!(c.total(), 4);
    assert_eq!(c.warn, 1);
    assert_eq!(c.fatal, 1);
    assert_eq!(c.unknown, 1);
    assert_eq!(c.trace, 1);
    assert_eq!(c.info, 0);
    assert_eq!(c.error, 0);
}

#[test]
fn clear_resets_ids_and_counts() {
    let mut b = LogBuffer::new(10);
    for n in 0..5 {
        b.push(entry(n, LogLevel::Error));
    }
    b.flush();
    b.clear();
    assert_eq!(b.len(), 0);
    assert!(b.is_empty());
    assert_eq!(b.level_counts().total(), 0);
    b.push(entry(42, LogLevel::Info));
    let all = b.all();
    assert_eq!(all.len(), 1);
    assert_eq!(all[0].id, 0);
    assert!(b.json_keys().is_empty());
}

#[test]
fn reads_tail_range_by_level_and_export() {
    let mut b = LogBuffer::new(10);
    b.push(entry(1, LogLevel::Debug));
    b.push(entry(2, LogLevel::Error));
    b.push(entry(3, LogLevel::Unknown));
    b.push(entry(4, LogLevel::Warn));
    let tail: Vec<u64> = b.tail(2).iter().map(|e| e.line_number).collect();
    assert_eq!(tail, vec![3, 4]);
    assert_eq!(b.tail(10).len(), 4);
    let range: Vec<u64> = b.range(1, 2).iter().map(|e| e.line_number).collect();
    assert_eq!(range, vec![2, 3]);
    assert!(b.range(9, 2).is_empty());
    assert_eq!(b.range(3, 9).len(), 1);
    let warn_up: Vec<u64> = b.by_level(LogLevel::Warn).iter().map(|e| e.line_number).collect();
    assert_eq!(warn_up, vec![2, 4]);
    let info_up: Vec<u64> = b.by_level(LogLevel::Info).iter().map(|e| e.line_number).collect();
    assert_eq!(info_up, vec![2, 3, 4]);
    let odd: Vec<u64> = b.filtered(|e| e.line_number % 2 == 1).iter().map(|e| e.line_number).collect();
    assert_eq!(odd, vec![1, 3]);
    assert_eq!(b.export_raw(), "line 1\nline 2\nline 3\nline 4");
}

#[test]
fn json_keys_grow_as_a_set() {
    let mut b = LogBuffer::new(10);
    b.push(LogParser::parse(r#"{"level":"info","msg":"a"}"#, "p", 1));
    b.push(LogParser::parse(r#"{"msg":"b","user":"u"}"#, "p", 2));
    b.push(LogParser::parse("plain", "p", 3));
    let keys = b.json_keys();
    assert_eq!(keys, vec!["level".to_string(), "msg".to_string(), "user".to_string()]);
}

#[test]
fn cache_refresh_signature() {
    let cache = FilterCache::new();
    let keys: Vec<String> = vec![];
    assert!(cache.needs_refresh(None, false, &keys, 0));
    let mut cache = cache;
    cache.update(None, false, &keys, 3, vec![]);
    assert!(!cache.needs_refresh(None, false, &keys, 3));
    assert!(!cache.needs_refresh(None, false, &keys, 3));
    assert!(cache.needs_refresh(None, false, &keys, 4));
    let selected = vec!["msg".to_string()];
    assert!(cache.needs_refresh(None, false, &selected, 3));
    assert!(cache.needs_refresh(None, true, &keys, 3));
    let f = CompiledFilter::new("x").unwrap();
    assert!(cache.needs_refresh(Some(&f), false, &keys, 3));
    let mut c2 = FilterCache::new();
    let two = vec!["a".to_string(), "b".to_string()];
    let two_rev = vec!["b".to_string(), "a".to_string(), "a".to_string()];
    c2.update(Some(&f), false, &two, 1, vec![]);
    assert!(!c2.needs_refresh(Some(&f), false, &two_rev, 1));
}

#[test]
fn cache_refresh_rebuilds_filtered_view() {
    let mut b = LogBuffer::new(10);
    b.push(LogParser::parse(r#"{"level":"error","msg":"disk"}"#, "p", 1));
    b.push(LogParser::parse("[ERROR] disk full", "p", 2));
    b.push(LogParser::parse(r#"{"user":"bob","msg":"login"}"#, "p", 3));
    let mut cache = FilterCache::new();
    let f = CompiledFilter::new("disk").unwrap();
    let none: Vec<String> = vec![];
    assert!(cache.refresh(&mut b, Some(&f), false, &none));
    let lines: Vec<u64> = cache.cached_entries.iter().map(|e| e.line_number).collect();
    assert_eq!(lines, vec![1, 2]);
    assert!(!cache.refresh(&mut b, Some(&f), false, &none));
    let keys = vec!["user".to_string()];
    assert!(cache.refresh(&mut b, None, false, &keys));
    let lines: Vec<u64> = cache.cached_entries.iter().map(|e| e.line_number).collect();
    assert_eq!(lines, vec![3]);
    let all = b.all();
    let msg = vec!["msg".to_string()];
    assert_eq!(select_entries(&all, Some(&f), &msg).len(), 1);
}

#[test]
fn key_set_stays_ascending_without_repeats() {
    let mut k = KeySet::new();
    for name in ["msg", "level", "Zeta", "msg", "a", "level", "ab"] {
        k.insert(name);
    }
    assert_eq!(k.to_vec(), vec!["Zeta", "a", "ab", "level", "msg"]);
    assert!(k.contains("ab"));
    assert!(!k.contains("b"));
    assert!(str_lt("a", "ab"));
    assert!(!str_lt("ab", "a"));
    assert!(str_lt("é", "ê"));
    k.clear();
    assert!(k.to_vec().is_empty());
}
