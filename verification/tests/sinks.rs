use console_logging::error::LoggerError;
use console_logging::level::{Level, LevelFilter};
use console_logging::record::LogRecord;
use console_logging::sink::{DomainFilters, LevelPadding, MaybeWriteLogger};

fn record(level: Level, target: &str) -> LogRecord {
    LogRecord {
        level,
        target: target.to_string(),
        module: None,
        message: "message".to_string(),
    }
}

#[test]
fn empty_sink_lets_nothing_out() {
    let sink = MaybeWriteLogger::empty();
    assert_eq!(sink.level(), LevelFilter::Off);
    assert!(sink.inner().is_none());
    for level in [Level::Error, Level::Warn, Level::Info, Level::Debug, Level::Trace] {
        assert!(!sink.enabled(level, "engine"));
        assert!(!sink.log(&record(level, "engine")));
    }
    assert!(!sink.flush());
}

#[test]
fn new_sink_has_an_unfiltered_writer() {
    let sink = MaybeWriteLogger::new(LevelFilter::Info, false, DomainFilters::new());
    let config = sink.inner().as_ref().unwrap();
    assert_eq!(config.time_format, "%H:%M:%S");
    assert!(config.time_to_local);
    assert_eq!(config.target_level, LevelFilter::Off);
    assert_eq!(config.thread_level, LevelFilter::Off);
    assert_eq!(config.level_padding, LevelPadding::Off);
    assert_eq!(config.level, LevelFilter::Trace);
    assert!(sink.flush());
}

#[test]
fn new_sink_shows_the_domain_when_asked() {
    let sink = MaybeWriteLogger::new(LevelFilter::Info, true, DomainFilters::new());
    assert_eq!(sink.inner().as_ref().unwrap().target_level, LevelFilter::Error);
}

#[test]
fn sink_threshold() {
    let sink = MaybeWriteLogger::new(LevelFilter::Warn, false, DomainFilters::new());
    assert!(sink.enabled(Level::Error, "engine"));
    assert!(sink.enabled(Level::Warn, "engine"));
    assert!(!sink.enabled(Level::Info, "engine"));
    assert!(sink.log(&record(Level::Warn, "engine")));
    assert!(!sink.log(&record(Level::Debug, "engine")));
}

#[test]
fn domain_threshold_overrides() {
    let mut filters = DomainFilters::new();
    filters.insert("store".to_string(), LevelFilter::Trace);
    filters.insert("graph".to_string(), LevelFilter::Error);
    let sink = MaybeWriteLogger::new(LevelFilter::Warn, false, filters);
    // The domain's threshold lets through what the sink's does not.
    assert!(sink.enabled(Level::Trace, "store"));
    assert!(sink.log(&record(Level::Debug, "store")));
    // A record passes if it clears either of the two.
    assert!(sink.enabled(Level::Warn, "graph"));
    assert!(!sink.enabled(Level::Info, "graph"));
    // Other domains go by the sink's threshold.
    assert!(!sink.enabled(Level::Info, "store::remote"));
    assert!(!sink.enabled(Level::Info, ""));
}

#[test]
fn later_domain_entry_counts() {
    let mut filters = DomainFilters::new();
    assert_eq!(filters.get("store"), None);
    filters.insert("store".to_string(), LevelFilter::Trace);
    assert_eq!(filters.get("store"), Some(LevelFilter::Trace));
    filters.insert("store".to_string(), LevelFilter::Error);
    assert_eq!(filters.get("store"), Some(LevelFilter::Error));
    assert_eq!(filters.get("stor"), None);
    let copy = filters.clone();
    assert_eq!(copy.get("store"), Some(LevelFilter::Error));
}

#[test]
fn domain_levels_are_parsed() {
    let levels = vec![
        ("store".to_string(), 10u64),
        ("graph".to_string(), 50),
        ("fs".to_string(), 0),
        ("store".to_string(), 5),
    ];
    let filters = DomainFilters::parse(&levels).unwrap();
    assert_eq!(filters.get("store"), Some(LevelFilter::Trace));
    assert_eq!(filters.get("graph"), Some(LevelFilter::Error));
    assert_eq!(filters.get("fs"), Some(LevelFilter::Off));
    assert_eq!(filters.get("other"), None);
}

#[test]
fn first_unrecognized_domain_level_is_reported() {
    let levels = vec![
        ("store".to_string(), 10u64),
        ("graph".to_string(), 11),
        ("fs".to_string(), 12),
    ];
    assert_eq!(
        DomainFilters::parse(&levels).err(),
        Some(LoggerError::UnrecognizedLevel(11))
    );
    assert!(DomainFilters::parse(&Vec::new()).is_ok());
}
