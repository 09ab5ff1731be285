use kubescope::level::{level_ordinal, LevelCounts, LogLevel};
use kubescope::stream::{continue_after, log_window, Delivery, DeliveryStats, SourceEvent, SourceTask, TaskStep};
use kubescope::token_cache::{CachedToken, TokenCache};
use kubescope::types::{ContainerInfo, ContextInfo, DeploymentInfo, NamespaceInfo, PodInfo, PodStatus, TimeRange};

#[test]
fn level_names_and_labels() {
    assert_eq!(LogLevel::from_str("WARNING"), LogLevel::Warn);
    assert_eq!(LogLevel::from_str("Crit"), LogLevel::Fatal);
    assert_eq!(LogLevel::from_str("dbg"), LogLevel::Debug);
    assert_eq!(LogLevel::from_str("information"), LogLevel::Info);
    assert_eq!(LogLevel::from_str("trce"), LogLevel::Trace);
    assert_eq!(LogLevel::from_str("erro"), LogLevel::Error);
    assert_eq!(LogLevel::from_str("verbose"), LogLevel::Unknown);
    assert_eq!(LogLevel::from_lowercase_name("ERROR"), LogLevel::Unknown);
    assert_eq!(LogLevel::Fatal.as_str(), "FTL");
    assert_eq!(LogLevel::Unknown.as_str(), "???");
    assert_eq!(level_ordinal(LogLevel::Unknown), 2);
    assert_eq!(level_ordinal(LogLevel::Fatal), 5);
    assert_eq!(LogLevel::default(), LogLevel::Info);
}

#[test]
fn level_counts_total() {
    let c = LevelCounts { trace: 1, debug: 2, info: 3, warn: 4, error: 5, fatal: 6, unknown: 7 };
    assert_eq!(c.total(), 28);
    let mut d = LevelCounts::zero();
    d.increment(LogLevel::Warn);
    d.increment(LogLevel::Warn);
    d.decrement(LogLevel::Warn);
    assert_eq!(d.warn, 1);
    d.reset();
    assert_eq!(d.total(), 0);
}

#[test]
fn source_task_numbers_lines_per_source() {
    let mut a = SourceTask::new("a".to_string());
    let mut b = SourceTask::new("b".to_string());
    for expected in 1..=3u64 {
        match a.on_event(SourceEvent::Line("[INFO] x".to_string())) {
            TaskStep::Send(e) => {
                assert_eq!(e.line_number, expected);
                assert_eq!(e.pod_name, "a");
                assert_eq!(e.level, LogLevel::Info);
            }
            TaskStep::Finish => panic!("unexpected finish"),
        }
    }
    match b.on_event(SourceEvent::Line("y".to_string())) {
        TaskStep::Send(e) => assert_eq!(e.line_number, 1),
        TaskStep::Finish => panic!("unexpected finish"),
    }
    assert!(matches!(a.on_event(SourceEvent::EndOfStream), TaskStep::Finish));
    assert!(matches!(a.on_event(SourceEvent::StreamError), TaskStep::Finish));
    assert!(matches!(a.on_event(SourceEvent::Cancelled), TaskStep::Finish));
    assert_eq!(a.lines_seen, 3);
}

#[test]
fn drops_are_counted_under_a_full_channel() {
    let capacity = 3;
    let mut queued = 0;
    let mut stats = DeliveryStats::new();
    let mut last_dropped = 0;
    for _ in 0..10 {
        let outcome = if queued < capacity {
            queued += 1;
            Delivery::Delivered
        } else {
            Delivery::Full
        };
        stats.record(outcome);
        assert!(continue_after(outcome));
        assert!(stats.dropped >= last_dropped);
        last_dropped = stats.dropped;
    }
    assert_eq!(stats.delivered, 3);
    assert_eq!(stats.dropped, 7);
    assert_eq!(stats.delivered + stats.dropped, stats.produced);
    stats.record(Delivery::Closed);
    assert_eq!(stats.produced, 10);
    assert!(!continue_after(Delivery::Closed));
}

#[test]
fn since_seconds_takes_precedence() {
    assert_eq!(log_window(Some(100), Some(60)), (None, Some(60)));
    assert_eq!(log_window(Some(100), None), (Some(100), None));
    assert_eq!(log_window(None, None), (None, None));
}

#[test]
fn time_ranges_cycle() {
    assert_eq!(TimeRange::default(), TimeRange::All);
    assert_eq!(TimeRange::All.as_seconds(), None);
    assert_eq!(TimeRange::Last6h.as_seconds(), Some(21600));
    assert_eq!(TimeRange::Last24h.label(), "24h");
    assert_eq!(TimeRange::Last24h.next(), TimeRange::All);
    assert_eq!(TimeRange::All.prev(), TimeRange::Last24h);
    let mut t = TimeRange::All;
    for _ in 0..7 {
        t = t.next();
    }
    assert_eq!(t, TimeRange::All);
}

#[test]
fn resource_constructors() {
    let c = ContextInfo::new("ctx".into(), "cl".into(), "me".into(), None, true);
    assert!(c.is_current);
    let n = NamespaceInfo::new("ns".into(), "Active".into());
    assert!(n.labels.is_empty());
    let mut d = DeploymentInfo::new("api".into(), "ns".into());
    assert_eq!(d.replica_status(), "0/0");
    d.ready_replicas = 2;
    d.replicas = 13;
    assert_eq!(d.replica_status(), "2/13");
    d.ready_replicas = -1;
    assert_eq!(d.replica_status(), "-1/13");
    d.replicas = i32::MIN;
    assert_eq!(d.replica_status(), "-1/-2147483648");
    let p = PodInfo::new("pod".into(), "ns".into());
    assert_eq!(p.status, PodStatus::Unknown);
    assert!(p.containers.is_empty());
    let k = ContainerInfo::new("main".into());
    assert!(!k.ready);
    assert_eq!(PodStatus::from_phase("Running"), PodStatus::Running);
    assert_eq!(PodStatus::from_phase("running"), PodStatus::Unknown);
}

#[test]
fn token_cache_expiry() {
    let t = CachedToken { token: "tok".into(), expiration_timestamp: 1000 };
    assert!(t.is_valid_at(969));
    assert!(!t.is_valid_at(970));
    assert!(!t.is_valid_at(u64::MAX));
    let mut cache = TokenCache::new();
    cache.set_at("a".into(), "ta".into(), 1000);
    cache.set_at("b".into(), "tb".into(), 500);
    cache.set_at("a".into(), "ta2".into(), 2000);
    assert_eq!(cache.tokens.len(), 2);
    assert_eq!(cache.get_at("a", 900).unwrap().token, "ta2");
    assert!(cache.get_at("b", 900).is_none());
    assert!(cache.get_at("c", 0).is_none());
    cache.cleanup_at(900);
    assert_eq!(cache.tokens.len(), 1);
    assert_eq!(cache.tokens[0].0, "a");
    cache.set("fresh".into(), "tf".into());
    assert_eq!(cache.get("fresh").unwrap().token, "tf");
    assert!(cache.get("fresh").unwrap().is_valid());
}
