use console_logging::error::LoggerError;
use console_logging::level::{Level, LevelFilter, PythonLogLevel};

#[test]
fn numbers_stand_for_levels() {
    assert_eq!(PythonLogLevel::from_u64(0), Some(PythonLogLevel::NotSet));
    assert_eq!(PythonLogLevel::from_u64(5), Some(PythonLogLevel::Trace));
    assert_eq!(PythonLogLevel::from_u64(10), Some(PythonLogLevel::Debug));
    assert_eq!(PythonLogLevel::from_u64(20), Some(PythonLogLevel::Info));
    assert_eq!(PythonLogLevel::from_u64(30), Some(PythonLogLevel::Warn));
    assert_eq!(PythonLogLevel::from_u64(40), Some(PythonLogLevel::Error));
    assert_eq!(PythonLogLevel::from_u64(50), Some(PythonLogLevel::Critical));
}

#[test]
fn other_numbers_stand_for_nothing() {
    for value in [1u64, 4, 6, 15, 25, 41, 51, 100, u64::MAX] {
        assert_eq!(PythonLogLevel::from_u64(value), None);
    }
}

#[test]
fn levels_become_thresholds() {
    assert_eq!(PythonLogLevel::NotSet.to_level_filter(), LevelFilter::Off);
    assert_eq!(PythonLogLevel::Trace.to_level_filter(), LevelFilter::Trace);
    assert_eq!(PythonLogLevel::Debug.to_level_filter(), LevelFilter::Debug);
    assert_eq!(PythonLogLevel::Info.to_level_filter(), LevelFilter::Info);
    assert_eq!(PythonLogLevel::Warn.to_level_filter(), LevelFilter::Warn);
    assert_eq!(PythonLogLevel::Error.to_level_filter(), LevelFilter::Error);
    assert_eq!(PythonLogLevel::Critical.to_level_filter(), LevelFilter::Error);
}

#[test]
fn levels_become_severities() {
    assert_eq!(PythonLogLevel::NotSet.to_level(), None);
    assert_eq!(PythonLogLevel::Trace.to_level(), Some(Level::Trace));
    assert_eq!(PythonLogLevel::Debug.to_level(), Some(Level::Debug));
    assert_eq!(PythonLogLevel::Info.to_level(), Some(Level::Info));
    assert_eq!(PythonLogLevel::Warn.to_level(), Some(Level::Warn));
    assert_eq!(PythonLogLevel::Error.to_level(), Some(Level::Error));
    assert_eq!(PythonLogLevel::Critical.to_level(), Some(Level::Error));
}

#[test]
fn thresholds_let_the_less_verbose_through() {
    assert!(LevelFilter::Info.enabled_for(Level::Error));
    assert!(LevelFilter::Info.enabled_for(Level::Warn));
    assert!(LevelFilter::Info.enabled_for(Level::Info));
    assert!(!LevelFilter::Info.enabled_for(Level::Debug));
    assert!(!LevelFilter::Info.enabled_for(Level::Trace));
    assert!(!LevelFilter::Off.enabled_for(Level::Error));
    assert!(LevelFilter::max().enabled_for(Level::Trace));
    assert_eq!(LevelFilter::max(), LevelFilter::Trace);
}

#[test]
fn thresholds_are_ordered_by_verbosity() {
    assert!(LevelFilter::Off.less_verbose_than(LevelFilter::Error));
    assert!(LevelFilter::Warn.less_verbose_than(LevelFilter::Debug));
    assert!(!LevelFilter::Debug.less_verbose_than(LevelFilter::Debug));
    assert!(!LevelFilter::Trace.less_verbose_than(LevelFilter::Info));
}

#[test]
fn level_names() {
    assert_eq!(Level::Error.as_str(), "ERROR");
    assert_eq!(Level::Warn.as_str(), "WARN");
    assert_eq!(Level::Info.as_str(), "INFO");
    assert_eq!(Level::Debug.as_str(), "DEBUG");
    assert_eq!(Level::Trace.as_str(), "TRACE");
    assert_eq!(Level::Debug.to_level_filter(), LevelFilter::Debug);
}

#[test]
fn error_messages() {
    assert_eq!(
        LoggerError::UnrecognizedLevel(7).message(),
        "Unrecognized log level: 7"
    );
    assert_eq!(
        LoggerError::UnrecognizedLevel(18446744073709551615).message(),
        "Unrecognized log level: 18446744073709551615"
    );
    assert_eq!(
        LoggerError::Io("Permission denied (os error 13)".to_string()).message(),
        "Error opening pantsd logfile: Permission denied (os error 13)"
    );
}
