use kubescope::entry::LogEntry;
use kubescope::filter::{CompiledFilter, FilterPresets};
use kubescope::level::LogLevel;

fn entry(pod: &str, raw: &str, level: LogLevel) -> LogEntry {
    let mut e = LogEntry::new(pod.to_string(), 1, raw.to_string());
    e.level = level;
    e
}

#[test]
fn test_regex_filter() {
    let filter = CompiledFilter::new("error").unwrap();
    let mut entry = LogEntry::new("pod".to_string(), 1, "an error occurred".to_string());
    assert!(filter.matches(&entry));

    entry.raw = "everything is fine".to_string();
    assert!(!filter.matches(&entry));
}

#[test]
fn test_level_filter() {
    let filter = FilterPresets::errors_only();
    let mut entry = LogEntry::new("pod".to_string(), 1, "test".to_string());

    entry.level = LogLevel::Error;
    assert!(filter.matches(&entry));

    entry.level = LogLevel::Info;
    assert!(!filter.matches(&entry));
}

#[test]
fn test_find_matches() {
    let filter = CompiledFilter::new("error").unwrap();
    let matches = filter.find_matches("an error occurred, another error here");
    assert_eq!(matches.len(), 2);
}

#[test]
fn find_matches_gives_byte_spans() {
    let filter = CompiledFilter::new("error").unwrap();
    let matches = filter.find_matches("an error occurred, another error here");
    assert_eq!(matches, vec![(3, 8), (27, 32)]);
    let none = CompiledFilter::new("").unwrap();
    assert!(none.find_matches("error").is_empty());
}

#[test]
fn invalid_pattern_is_an_error() {
    assert!(CompiledFilter::new("(unclosed").is_err());
    assert!(CompiledFilter::new_case_insensitive("[z-a]").is_err());
    assert!(CompiledFilter::new("").is_ok());
}

#[test]
fn case_insensitive_filter_ignores_case() {
    let sensitive = CompiledFilter::new("error").unwrap();
    let insensitive = CompiledFilter::new_case_insensitive("error").unwrap();
    let e = entry("pod", "An ERROR here", LogLevel::Unknown);
    assert!(!sensitive.matches(&e));
    assert!(insensitive.matches(&e));
    assert!(insensitive.is_case_insensitive());
    assert_eq!(insensitive.pattern(), "error");
    assert!(insensitive.has_pattern());
}

#[test]
fn inverted_filter_is_the_complement() {
    let cases = [
        entry("api-1", "an error occurred", LogLevel::Error),
        entry("api-1", "all fine", LogLevel::Error),
        entry("web-2", "an error occurred", LogLevel::Error),
        entry("api-1", "an error occurred", LogLevel::Info),
    ];
    let make = || {
        CompiledFilter::new("error")
            .unwrap()
            .with_levels(vec![LogLevel::Error, LogLevel::Fatal])
            .with_pods(vec!["api-1".to_string()])
    };
    let plain = make();
    let inverted = make().inverted();
    for e in &cases {
        assert_eq!(inverted.matches(e), !plain.matches(e));
    }
    assert!(plain.matches(&cases[0]));
    assert!(!plain.matches(&cases[1]));
    assert!(!plain.matches(&cases[2]));
    assert!(!plain.matches(&cases[3]));
    assert!(inverted.matches(&cases[2]));
}

#[test]
fn presets_select_levels() {
    let warn = FilterPresets::warnings_and_above();
    let info = FilterPresets::info_and_above();
    assert!(warn.matches(&entry("p", "x", LogLevel::Warn)));
    assert!(!warn.matches(&entry("p", "x", LogLevel::Info)));
    assert!(info.matches(&entry("p", "x", LogLevel::Info)));
    assert!(!info.matches(&entry("p", "x", LogLevel::Debug)));
    assert!(!info.matches(&entry("p", "x", LogLevel::Unknown)));
    assert!(!warn.is_empty());
    assert!(CompiledFilter::new("").unwrap().is_empty());
}

#[test]
fn decide_uses_the_given_text_match() {
    let f = CompiledFilter::new("zzz").unwrap();
    let e = entry("p", "abc", LogLevel::Info);
    assert!(f.decide(&e, true));
    assert!(!f.decide(&e, false));
    let g = CompiledFilter::new("zzz").unwrap().with_levels(vec![LogLevel::Error]).inverted();
    assert!(g.decide(&e, true));
}
