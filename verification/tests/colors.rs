use console_logging::destination::Destination;
use console_logging::level::Level;
use console_logging::line::{level_marker, tag_color, TagColor};
use console_logging::logger::{Delivery, PantsLogger};
use console_logging::record::LogRecord;

type Handler = Box<dyn Fn(&str) -> Result<(), ()>>;

#[test]
fn tags_without_colour_are_plain() {
    colored::control::set_override(true);
    assert_eq!(level_marker(Level::Error, false), "[ERROR]");
    assert_eq!(level_marker(Level::Warn, false), "[WARN]");
    assert_eq!(level_marker(Level::Info, false), "[INFO]");
    assert_eq!(level_marker(Level::Debug, false), "[DEBUG]");
    assert_eq!(level_marker(Level::Trace, false), "[TRACE]");
}

#[test]
fn tags_have_the_colour_of_their_level() {
    colored::control::set_override(true);
    assert_eq!(level_marker(Level::Info, true), "[INFO]");
    assert_eq!(level_marker(Level::Error, true), "\u{1b}[31m[ERROR]\u{1b}[0m");
    assert_eq!(level_marker(Level::Warn, true), "\u{1b}[31m[WARN]\u{1b}[0m");
    assert_eq!(level_marker(Level::Debug, true), "\u{1b}[32m[DEBUG]\u{1b}[0m");
    assert_eq!(level_marker(Level::Trace, true), "\u{1b}[35m[TRACE]\u{1b}[0m");
}

#[test]
fn colours_by_level() {
    assert_eq!(tag_color(Level::Error, true), Some(TagColor::Red));
    assert_eq!(tag_color(Level::Warn, true), Some(TagColor::Red));
    assert_eq!(tag_color(Level::Info, true), None);
    assert_eq!(tag_color(Level::Debug, true), Some(TagColor::Green));
    assert_eq!(tag_color(Level::Trace, true), Some(TagColor::Magenta));
    for level in [Level::Error, Level::Warn, Level::Info, Level::Debug, Level::Trace] {
        assert_eq!(tag_color(level, false), None);
    }
}

#[test]
fn coloured_tags_stand_in_the_line() {
    colored::control::set_override(true);
    let mut logger: PantsLogger<Handler> = PantsLogger::new(Vec::new());
    logger.init(10, true, true, false, &Vec::new());
    logger.set_stderr_logger(10).unwrap();
    let record = LogRecord {
        level: Level::Debug,
        target: "engine".to_string(),
        module: None,
        message: "details".to_string(),
    };
    match logger.log(&record, Destination::Stderr) {
        Delivery::Stderr { line, write, .. } => {
            assert!(write);
            assert_eq!(&line[11..], " \u{1b}[32m[DEBUG]\u{1b}[0m details");
        }
        _ => panic!("an interactive record was not delivered as one"),
    }
}
