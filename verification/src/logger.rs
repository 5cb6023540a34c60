//! The logger of the process: two sinks, the flags of the interactive
//! format, the handlers that take interactive output, and the ceiling that
//! the logging facility is held to.

use vstd::prelude::*;
use vstd::string::StringExecFns;

use crate::destination::Destination;
use crate::error::LoggerError;
use crate::handlers::{fallback_needed, needs_fallback, StderrHandlers};
use crate::level::{Level, LevelFilter, PythonLogLevel};
use crate::line::{
    format_line, interactive_line, is_marker, is_time_of_day, level_marker, local_time, time_string,
    time_text,
};
use crate::record::LogRecord;
use crate::sink::{
    first_unrecognized, thresholds_of, time_format, DomainFilters, LevelPadding, MaybeWriteLogger,
};
use crate::text::{
    first_separator, names_of, same_text, table_of, top_level, top_level_namespace,
};

verus! {

/// Whether `outcomes` are what the handlers made of one line that reads
/// `line`, each handler in its turn.
pub open spec fn offered<H: Fn(&str) -> Result<(), ()>>(
    handlers: Seq<H>,
    line: Seq<char>,
    outcomes: Seq<Result<(), ()>>,
) -> bool {
    exists|text: &str|
        #[trigger] text@ == line && forall|i: int|
            0 <= i < outcomes.len() ==> call_ensures(handlers[i], (text,), #[trigger] outcomes[i])
}

/// The characters of each string in a list.
pub open spec fn texts(strings: Seq<String>) -> Seq<Seq<char>> {
    strings.map_values(|s: String| s@)
}

/// `uuid::Uuid::new_v4`, as the 128 bits that `as_u128` gives for the
/// identifier. It is random: nothing is stated of it.
#[verifier::external_body]
fn fresh_id() -> (id: u128) {
    uuid::Uuid::new_v4().as_u128()
}

/// The module that emits records for the scripting side.
pub open spec fn scripting_module() -> Seq<char> {
    "logging::logger"@
}

/// The package of the module that emits records for the scripting side.
pub open spec fn scripting_package() -> Seq<char> {
    "logging"@
}

/// What became of one record.
pub enum Delivery {
    /// It came from outside the engine while such records are hidden.
    Suppressed,
    /// It went to the background sink. `write` tells whether the sink's
    /// writer gets it.
    Pantsd { write: bool },
    /// It was formatted as `line` and offered to every handler, with
    /// `outcomes`. `write` tells whether the raw interactive sink's writer
    /// gets the record as well: once, however many handlers failed.
    Stderr { line: String, outcomes: Vec<Result<(), ()>>, write: bool },
}

/// The state of the logger. `H` is the kind of handler that it holds: a
/// function from a line to success or failure.
///
/// The state changes through the logger's own functions alone, so what
/// they keep holds of every logger: its ceiling never falls.
pub struct PantsLogger<H: Fn(&str) -> Result<(), ()>> {
    pantsd_log: MaybeWriteLogger,
    stderr_log: MaybeWriteLogger,
    use_color: bool,
    show_rust_3rdparty_logs: bool,
    show_log_domain: bool,
    stderr_handlers: StderrHandlers<H>,
    log_level_filters: DomainFilters,
    pants_packages: Vec<String>,
    max_level: LevelFilter,
}

/// What a logger holds.
pub struct LoggerState<H: Fn(&str) -> Result<(), ()>> {
    /// The background sink.
    pub pantsd_log: MaybeWriteLogger,
    /// The interactive sink.
    pub stderr_log: MaybeWriteLogger,
    /// Whether level tags are coloured.
    pub use_color: bool,
    /// Whether records from outside the engine are shown.
    pub show_rust_3rdparty_logs: bool,
    /// Whether interactive lines show the domain.
    pub show_log_domain: bool,
    /// The handlers that take interactive output.
    pub stderr_handlers: StderrHandlers<H>,
    /// The per-domain thresholds that the next sink is built with.
    pub log_level_filters: DomainFilters,
    /// The top-level names of the engine's own packages.
    pub pants_packages: Vec<String>,
    /// The ceiling of the logging facility: it drops what is more verbose
    /// before any sink sees it.
    pub max_level: LevelFilter,
}

impl<H: Fn(&str) -> Result<(), ()>> View for PantsLogger<H> {
    type V = LoggerState<H>;

    closed spec fn view(&self) -> LoggerState<H> {
        LoggerState {
            pantsd_log: self.pantsd_log,
            stderr_log: self.stderr_log,
            use_color: self.use_color,
            show_rust_3rdparty_logs: self.show_rust_3rdparty_logs,
            show_log_domain: self.show_log_domain,
            stderr_handlers: self.stderr_handlers,
            log_level_filters: self.log_level_filters,
            pants_packages: self.pants_packages,
            max_level: self.max_level,
        }
    }
}

impl<H: Fn(&str) -> Result<(), ()>> PantsLogger<H> {
    /// The handlers are in order: none of their identifiers is in use
    /// twice, and each of them takes every line.
    pub open spec fn wf(&self) -> bool {
        self@.stderr_handlers.wf()
    }

    /// Whether two loggers differ in their handlers at most.
    pub open spec fn same_settings(&self, other: &Self) -> bool {
        &&& self@.pantsd_log == other@.pantsd_log
        &&& self@.stderr_log == other@.stderr_log
        &&& self@.use_color == other@.use_color
        &&& self@.show_rust_3rdparty_logs == other@.show_rust_3rdparty_logs
        &&& self@.show_log_domain == other@.show_log_domain
        &&& self@.log_level_filters == other@.log_level_filters
        &&& self@.pants_packages == other@.pants_packages
        &&& self@.max_level == other@.max_level
    }

    /// Whether a record passes the filter on its origin: it does where
    /// records from outside the engine are shown, and where the leading
    /// segment of its module path is one of the engine's packages. A record
    /// that names no module is held to come from outside the engine.
    pub open spec fn should_log(&self, record: &LogRecord) -> bool {
        self@.show_rust_3rdparty_logs || match record.module {
            None => false,
            Some(path) => texts(self@.pants_packages@).contains(top_level(path@)),
        }
    }

    /// Whether a sink is the one that `MaybeWriteLogger::new` builds for
    /// this logger at threshold `level`.
    pub open spec fn builds(&self, sink: &MaybeWriteLogger, level: LevelFilter) -> bool {
        &&& sink@.level == level
        &&& sink@.log_domain_filters == self@.log_level_filters@
        &&& sink@.inner matches Some(config) && {
            &&& config.time_format@ == time_format()
            &&& config.time_to_local
            &&& config.target_level == (if self@.show_log_domain {
                LevelFilter::Error
            } else {
                LevelFilter::Off
            })
            &&& config.thread_level == LevelFilter::Off
            &&& config.level_padding == LevelPadding::Off
            &&& config.level == LevelFilter::Trace
        }
    }

    /// A logger with nothing configured: both sinks empty, no handler, no
    /// colour, no domain in the lines, and records from outside the engine
    /// shown.
    pub fn new(pants_packages: Vec<String>) -> (logger: Self)
        ensures
            logger.wf(),
            logger@.pantsd_log.is_empty(),
            logger@.stderr_log.is_empty(),
            logger@.show_rust_3rdparty_logs,
            !logger@.use_color,
            !logger@.show_log_domain,
            logger@.stderr_handlers.ids() == Seq::<u128>::empty(),
            logger@.stderr_handlers.handlers() == Seq::<H>::empty(),
            logger@.log_level_filters@ == Map::<Seq<char>, LevelFilter>::empty(),
            logger@.pants_packages == pants_packages,
            logger@.max_level == LevelFilter::Off,
    {
        PantsLogger {
            pantsd_log: MaybeWriteLogger::empty(),
            stderr_log: MaybeWriteLogger::empty(),
            show_rust_3rdparty_logs: true,
            use_color: false,
            show_log_domain: false,
            stderr_handlers: StderrHandlers::new(),
            log_level_filters: DomainFilters::new(),
            pants_packages,
            max_level: LevelFilter::Off,
        }
    }

    /// The background sink.
    pub fn pantsd_log(&self) -> (sink: &MaybeWriteLogger)
        ensures
            *sink == self@.pantsd_log,
    {
        &self.pantsd_log
    }

    /// The interactive sink.
    pub fn stderr_log(&self) -> (sink: &MaybeWriteLogger)
        ensures
            *sink == self@.stderr_log,
    {
        &self.stderr_log
    }

    /// Whether level tags are coloured.
    pub fn use_color(&self) -> (b: bool)
        ensures
            b == self@.use_color,
    {
        self.use_color
    }

    /// Whether records from outside the engine are shown.
    pub fn show_rust_3rdparty_logs(&self) -> (b: bool)
        ensures
            b == self@.show_rust_3rdparty_logs,
    {
        self.show_rust_3rdparty_logs
    }

    /// Whether interactive lines show the domain.
    pub fn show_log_domain(&self) -> (b: bool)
        ensures
            b == self@.show_log_domain,
    {
        self.show_log_domain
    }

    /// The handlers that take interactive output.
    pub fn stderr_handlers(&self) -> (handlers: &StderrHandlers<H>)
        ensures
            *handlers == self@.stderr_handlers,
    {
        &self.stderr_handlers
    }

    /// The per-domain thresholds that the next sink is built with.
    pub fn log_level_filters(&self) -> (filters: &DomainFilters)
        ensures
            *filters == self@.log_level_filters,
    {
        &self.log_level_filters
    }

    /// The ceiling that the logging facility is to be held to.
    pub fn max_level(&self) -> (ceiling: LevelFilter)
        ensures
            ceiling == self@.max_level,
    {
        self.max_level
    }

    /// Configures the logger: the flags, the per-domain thresholds, and a
    /// ceiling of at least `max_level`. The sinks stay as they are.
    ///
    /// A number that stands for no level has no place here: the caller
    /// stops the process on one.
    pub fn init(
        &mut self,
        max_level: u64,
        show_rust_3rdparty_logs: bool,
        use_color: bool,
        show_log_domain: bool,
        log_domain_levels: &Vec<(String, u64)>,
    )
        requires
            PythonLogLevel::recognized(max_level as int),
            first_unrecognized(names_of(log_domain_levels@)) is None,
        ensures
            final(self)@.max_level == old(self)@.max_level.spec_max(
                PythonLogLevel::of_number(max_level as int).unwrap().filter(),
            ),
            final(self)@.max_level.rank() >= old(self)@.max_level.rank(),
            final(self)@.use_color == use_color,
            final(self)@.show_log_domain == show_log_domain,
            final(self)@.show_rust_3rdparty_logs == show_rust_3rdparty_logs,
            final(self)@.log_level_filters@ == table_of(
                thresholds_of(names_of(log_domain_levels@)),
            ),
            final(self)@.pantsd_log == old(self)@.pantsd_log,
            final(self)@.stderr_log == old(self)@.stderr_log,
            final(self)@.stderr_handlers == old(self)@.stderr_handlers,
            final(self)@.pants_packages == old(self)@.pants_packages,
    {
        // Both are there: the caller has seen to it that every number
        // stands for a level.
        match (DomainFilters::parse(log_domain_levels), PythonLogLevel::from_u64(max_level)) {
            (Ok(log_domain_levels), Some(python_level)) => {
                self.maybe_increase_global_verbosity(python_level.to_level_filter());
                self.use_color = use_color;
                self.show_log_domain = show_log_domain;
                self.show_rust_3rdparty_logs = show_rust_3rdparty_logs;
                self.log_level_filters = log_domain_levels;
            },
            _ => {},
        }
    }

    fn maybe_increase_global_verbosity(&mut self, new_level: LevelFilter)
        ensures
            final(self)@.max_level == old(self)@.max_level.spec_max(new_level),
            final(self)@.pantsd_log == old(self)@.pantsd_log,
            final(self)@.stderr_log == old(self)@.stderr_log,
            final(self)@.use_color == old(self)@.use_color,
            final(self)@.show_rust_3rdparty_logs == old(self)@.show_rust_3rdparty_logs,
            final(self)@.show_log_domain == old(self)@.show_log_domain,
            final(self)@.stderr_handlers == old(self)@.stderr_handlers,
            final(self)@.log_level_filters == old(self)@.log_level_filters,
            final(self)@.pants_packages == old(self)@.pants_packages,
    {
        if self.max_level.less_verbose_than(new_level) {
            self.max_level = new_level;
        }
    }

    /// Builds the interactive sink anew at `python_level`, with the flags
    /// and per-domain thresholds of this moment, and raises the ceiling to
    /// it. A number that stands for no level is refused, and nothing
    /// changes.
    pub fn set_stderr_logger(&mut self, python_level: u64) -> (r: Result<(), LoggerError>)
        ensures
            match r {
                Ok(_) => PythonLogLevel::of_number(python_level as int) matches Some(level) && {
                    &&& old(self).builds(&final(self)@.stderr_log, level.filter())
                    &&& final(self)@.max_level == old(self)@.max_level.spec_max(level.filter())
                },
                Err(e) => {
                    &&& !PythonLogLevel::recognized(python_level as int)
                    &&& e == LoggerError::UnrecognizedLevel(python_level)
                    &&& final(self)@.stderr_log == old(self)@.stderr_log
                    &&& final(self)@.max_level == old(self)@.max_level
                },
            },
            final(self)@.max_level.rank() >= old(self)@.max_level.rank(),
            final(self)@.pantsd_log == old(self)@.pantsd_log,
            final(self)@.use_color == old(self)@.use_color,
            final(self)@.show_rust_3rdparty_logs == old(self)@.show_rust_3rdparty_logs,
            final(self)@.show_log_domain == old(self)@.show_log_domain,
            final(self)@.stderr_handlers == old(self)@.stderr_handlers,
            final(self)@.log_level_filters == old(self)@.log_level_filters,
            final(self)@.pants_packages == old(self)@.pants_packages,
    {
        match PythonLogLevel::from_u64(python_level) {
            None => Err(LoggerError::UnrecognizedLevel(python_level)),
            Some(level) => {
                self.maybe_increase_global_verbosity(level.to_level_filter());
                self.stderr_log = MaybeWriteLogger::new(
                    level.to_level_filter(),
                    self.show_log_domain,
                    self.log_level_filters.clone(),
                );
                Ok(())
            },
        }
    }

    /// Replaces the background sink by one at `python_level` over the log
    /// file that the caller has opened for appending; `opened` holds the
    /// file's descriptor, or the reason why it could not be opened.
    ///
    /// On success the descriptor is returned and the ceiling raised. A
    /// number that stands for no level is refused before the outcome of
    /// the opening is looked at. After any failure the background sink is
    /// empty.
    pub fn set_pantsd_logger(&mut self, opened: Result<i32, String>, python_level: u64) -> (r:
        Result<i32, LoggerError>)
        ensures
            match r {
                Ok(fd) => PythonLogLevel::of_number(python_level as int) matches Some(level) && {
                    &&& opened == Ok::<i32, String>(fd)
                    &&& old(self).builds(&final(self)@.pantsd_log, level.filter())
                    &&& final(self)@.max_level == old(self)@.max_level.spec_max(level.filter())
                },
                Err(e) => {
                    &&& final(self)@.pantsd_log.is_empty()
                    &&& final(self)@.max_level == old(self)@.max_level
                    &&& if PythonLogLevel::recognized(python_level as int) {
                        opened matches Err(cause) && e == LoggerError::Io(cause)
                    } else {
                        e == LoggerError::UnrecognizedLevel(python_level)
                    }
                },
            },
            final(self)@.max_level.rank() >= old(self)@.max_level.rank(),
            final(self)@.stderr_log == old(self)@.stderr_log,
            final(self)@.use_color == old(self)@.use_color,
            final(self)@.show_rust_3rdparty_logs == old(self)@.show_rust_3rdparty_logs,
            final(self)@.show_log_domain == old(self)@.show_log_domain,
            final(self)@.stderr_handlers == old(self)@.stderr_handlers,
            final(self)@.log_level_filters == old(self)@.log_level_filters,
            final(self)@.pants_packages == old(self)@.pants_packages,
    {
        self.pantsd_log = MaybeWriteLogger::empty();
        match PythonLogLevel::from_u64(python_level) {
            None => Err(LoggerError::UnrecognizedLevel(python_level)),
            Some(level) => match opened {
                Err(cause) => Err(LoggerError::Io(cause)),
                Ok(fd) => {
                    self.maybe_increase_global_verbosity(level.to_level_filter());
                    self.pantsd_log = MaybeWriteLogger::new(
                        level.to_level_filter(),
                        self.show_log_domain,
                        self.log_level_filters.clone(),
                    );
                    Ok(fd)
                },
            },
        }
    }

    /// The record that a message from the scripting side becomes. It is
    /// emitted on that side's behalf by the logger's own module, and names
    /// it: the record counts as the engine's where `logging` is one of the
    /// engine's packages. A number that stands for no severity is refused.
    pub fn log_from_python(message: &str, python_level: u64, target: &str) -> (r: Result<
        LogRecord,
        LoggerError,
    >)
        ensures
            match r {
                Ok(record) => {
                    &&& PythonLogLevel::of_number(python_level as int) matches Some(level)
                        && level.severity() == Some(record.level)
                    &&& record.target@ == target@
                    &&& record.message@ == message@
                    &&& record.module matches Some(module) && module@ == scripting_module()
                },
                Err(e) => {
                    &&& e == LoggerError::UnrecognizedLevel(python_level)
                    &&& match PythonLogLevel::of_number(python_level as int) {
                        Some(level) => level.severity() is None,
                        None => true,
                    }
                },
            },
    {
        match PythonLogLevel::from_u64(python_level) {
            None => Err(LoggerError::UnrecognizedLevel(python_level)),
            Some(python_level_name) => match python_level_name.to_level() {
                None => Err(LoggerError::UnrecognizedLevel(python_level)),
                Some(level) => Ok(
                    LogRecord {
                        level,
                        target: String::from_str(target),
                        module: Some(String::from_str("logging::logger")),
                        message: String::from_str(message),
                    },
                ),
            },
        }
    }

    /// Registers `callback` under `unique_id`, in place of any handler
    /// that was registered under it.
    pub fn register_stderr_handler_as(&mut self, unique_id: u128, callback: H)
        requires
            old(self).wf(),
            forall|line: &str| call_requires(callback, (line,)),
        ensures
            final(self).wf(),
            old(self)@.stderr_handlers.with_handler(
                &final(self)@.stderr_handlers,
                unique_id,
                callback,
            ),
            final(self).same_settings(old(self)),
    {
        self.stderr_handlers.insert(unique_id, callback);
    }

    /// Registers `callback` under a new random identifier, and returns the
    /// identifier.
    pub fn register_stderr_handler(&mut self, callback: H) -> (unique_id: u128)
        requires
            old(self).wf(),
            forall|line: &str| call_requires(callback, (line,)),
        ensures
            final(self).wf(),
            old(self)@.stderr_handlers.with_handler(
                &final(self)@.stderr_handlers,
                unique_id,
                callback,
            ),
            final(self).same_settings(old(self)),
    {
        let unique_id = fresh_id();
        self.register_stderr_handler_as(unique_id, callback);
        unique_id
    }

    /// Removes the handler registered under `unique_id`, if there is one.
    pub fn deregister_stderr_handler(&mut self, unique_id: u128)
        requires
            old(self).wf(),
        ensures
            final(self).wf(),
            old(self)@.stderr_handlers.without_handler(&final(self)@.stderr_handlers, unique_id),
            final(self).same_settings(old(self)),
    {
        self.stderr_handlers.remove(unique_id);
    }

    /// Every record is taken: each sink applies its own thresholds, and the
    /// facility its ceiling.
    pub fn enabled(&self, level: Level, target: &str) -> (b: bool)
        ensures
            b,
    {
        true
    }

    /// Whether `name` is one of the engine's packages.
    fn is_pants_package(&self, name: &str) -> (found: bool)
        ensures
            found == texts(self@.pants_packages@).contains(name@),
    {
        let mut i: usize = 0;
        while i < self.pants_packages.len()
            invariant
                i <= self.pants_packages.len(),
                forall|j: int| 0 <= j < i ==> texts(self.pants_packages@)[j] != name@,
            decreases self.pants_packages.len() - i,
        {
            if same_text(self.pants_packages[i].as_str(), name) {
                assert(texts(self.pants_packages@)[i as int] == name@);
                return true;
            }
            i += 1;
        }
        false
    }

    /// Whether a record passes the filter on its origin.
    pub fn accepts_origin(&self, record: &LogRecord) -> (should_log: bool)
        ensures
            should_log == self.should_log(record),
    {
        let mut should_log = self.show_rust_3rdparty_logs;
        if !should_log {
            match &record.module {
                Some(path) => {
                    should_log = self.is_pants_package(top_level_namespace(path.as_str()));
                },
                None => {},
            }
        }
        should_log
    }

    /// Whether the raw interactive sink's writer gets a record after the
    /// handlers took its line with `outcomes`: it does where the sink
    /// writes such a record and no handler was there or one of them failed.
    pub fn falls_back(&self, record: &LogRecord, outcomes: &Vec<Result<(), ()>>) -> (write: bool)
        ensures
            write == (needs_fallback(outcomes@) && self@.stderr_log.writes(
                record.level,
                record.target@,
            )),
    {
        if fallback_needed(outcomes) {
            self.stderr_log.log(record)
        } else {
            false
        }
    }

    /// The interactive half of `log`, from the time and the level tag on:
    /// formats the line, offers it to every handler, and tells whether the
    /// raw interactive sink's writer gets the record too. It does where
    /// the sink writes such a record and no handler is registered or one
    /// of them failed.
    pub fn log_to_stderr(&self, record: &LogRecord, time: &str, marker: &str) -> (delivery:
        Delivery)
        requires
            self.wf(),
        ensures
            delivery matches Delivery::Stderr { line, outcomes, write } && {
                &&& line@ == interactive_line(
                    time@,
                    marker@,
                    self@.show_log_domain,
                    record.target@,
                    record.message@,
                )
                &&& outcomes@.len() == self@.stderr_handlers.ids().len()
                &&& outcomes@.len() == self@.stderr_handlers.handlers().len()
                &&& offered(self@.stderr_handlers.handlers(), line@, outcomes@)
                &&& write == (needs_fallback(outcomes@) && self@.stderr_log.writes(
                    record.level,
                    record.target@,
                ))
                &&& self@.stderr_handlers.ids().len() == 0 ==> write == self@.stderr_log.writes(
                    record.level,
                    record.target@,
                )
                &&& (forall|i: int| 0 <= i < outcomes@.len() ==> outcomes@[i] is Err) ==> write
                    == self@.stderr_log.writes(record.level, record.target@)
            },
    {
        proof {
            self.stderr_handlers.lemma_wf();
        }
        let line = format_line(
            time,
            marker,
            self.show_log_domain,
            record.target.as_str(),
            record.message.as_str(),
        );
        // Every handler gets the line. Where there is none, or any of them
        // fails, the record goes to the raw sink as well.
        let text = line.as_str();
        let outcomes = self.stderr_handlers.offer(text);
        assert(offered(self.stderr_handlers.handlers(), line@, outcomes@)) by {
        }
        let write = self.falls_back(record, &outcomes);
        assert((forall|i: int| 0 <= i < outcomes@.len() ==> outcomes@[i] is Err) ==> needs_fallback(
            outcomes@,
        )) by {
            if outcomes@.len() > 0 && outcomes@[0] is Err {
            }
        }
        Delivery::Stderr { line, outcomes, write }
    }

    /// Takes one record for `destination`.
    ///
    /// A record from outside the engine is dropped while such records are
    /// hidden. One for the background goes to the background sink. One for
    /// the terminal is formatted with the local time and the tag of its
    /// level, and handled as `log_to_stderr` says.
    pub fn log(&self, record: &LogRecord, destination: Destination) -> (delivery: Delivery)
        requires
            self.wf(),
        ensures
            match delivery {
                Delivery::Suppressed => !self.should_log(record),
                Delivery::Pantsd { write } => {
                    &&& self.should_log(record)
                    &&& destination == Destination::Pantsd
                    &&& write == self@.pantsd_log.writes(record.level, record.target@)
                },
                Delivery::Stderr { line, outcomes, write } => {
                    &&& self.should_log(record)
                    &&& destination == Destination::Stderr
                    &&& exists|time_of_day: Seq<char>, nanosecond: u32, marker: Seq<char>|
                        is_time_of_day(time_of_day) && nanosecond < 2_000_000_000 && is_marker(
                            marker,
                            record.level,
                            self@.use_color,
                        ) && line@ == #[trigger] interactive_line(
                            time_text(time_of_day, nanosecond),
                            marker,
                            self@.show_log_domain,
                            record.target@,
                            record.message@,
                        )
                    &&& outcomes@.len() == self@.stderr_handlers.ids().len()
                    &&& outcomes@.len() == self@.stderr_handlers.handlers().len()
                    &&& offered(self@.stderr_handlers.handlers(), line@, outcomes@)
                    &&& write == (needs_fallback(outcomes@) && self@.stderr_log.writes(
                        record.level,
                        record.target@,
                    ))
                    &&& self@.stderr_handlers.ids().len() == 0 ==> write == self@.stderr_log.writes(
                        record.level,
                        record.target@,
                    )
                    &&& (forall|i: int| 0 <= i < outcomes@.len() ==> outcomes@[i] is Err) ==> write
                        == self@.stderr_log.writes(record.level, record.target@)
                },
            },
    {
        if !self.accepts_origin(record) {
            return Delivery::Suppressed;
        }
        match destination {
            Destination::Stderr => {
                let now = local_time("%H:%M:%S");
                let time = time_string(now.0.as_str(), now.1);
                let marker = level_marker(record.level, self.use_color);
                self.log_to_stderr(record, time.as_str(), marker.as_str())
            },
            Destination::Pantsd => Delivery::Pantsd { write: self.pantsd_log.log(record) },
        }
    }

    /// Which of the sinks have a writer to flush: the interactive one
    /// first, then the background one.
    pub fn flush(&self) -> (flushed: (bool, bool))
        ensures
            flushed.0 == self@.stderr_log@.inner is Some,
            flushed.1 == self@.pantsd_log@.inner is Some,
    {
        (self.stderr_log.flush(), self.pantsd_log.flush())
    }
}

/// A record from the scripting side passes the filter on its origin
/// wherever the package of the module that emits it is one of the engine's
/// packages.
pub proof fn lemma_scripting_records_pass<H: Fn(&str) -> Result<(), ()>>(
    logger: PantsLogger<H>,
    record: LogRecord,
)
    requires
        record.module matches Some(module) && module@ == scripting_module(),
        texts(logger@.pants_packages@).contains(scripting_package()),
    ensures
        logger.should_log(&record),
{
    let path = scripting_module();
    reveal_strlit("logging::logger");
    reveal_strlit("logging");
    reveal_with_fuel(first_separator, 9);
    assert(first_separator(path, 0) == 7);
    assert(top_level(path) =~= scripting_package());
}

/// While the background sink is empty, a record for the background is
/// written nowhere.
pub proof fn lemma_empty_background_writes_nothing<H: Fn(&str) -> Result<(), ()>>(
    logger: PantsLogger<H>,
    record: LogRecord,
)
    requires
        logger@.pantsd_log.is_empty(),
    ensures
        !logger@.pantsd_log.writes(record.level, record.target@),
{
}

} // verus!
