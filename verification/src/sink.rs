//! A sink: one output with a threshold, per-domain thresholds that override
//! it, and the settings of the writer behind it. A sink without a writer
//! lets nothing out.

use vstd::prelude::*;

use crate::error::LoggerError;
use crate::level::{Level, LevelFilter, PythonLogLevel};
use crate::record::LogRecord;
use crate::text::{names_of, same_text, table_of};

verus! {

/// The first number in `levels` that stands for no level.
pub open spec fn first_unrecognized(levels: Seq<(Seq<char>, u64)>) -> Option<u64>
    decreases levels.len(),
{
    if levels.len() == 0 {
        None
    } else if !PythonLogLevel::recognized(levels[0].1 as int) {
        Some(levels[0].1)
    } else {
        first_unrecognized(levels.drop_first())
    }
}

/// The thresholds that a list of numeric levels stands for, one for one.
/// It is meant for lists in which every number is recognized.
pub open spec fn thresholds_of(levels: Seq<(Seq<char>, u64)>) -> Seq<(Seq<char>, LevelFilter)> {
    levels.map_values(
        |e: (Seq<char>, u64)| (e.0, PythonLogLevel::of_number(e.1 as int).unwrap().filter()),
    )
}

/// Thresholds by domain.
#[derive(Debug)]
pub struct DomainFilters {
    entries: Vec<(String, LevelFilter)>,
}

impl View for DomainFilters {
    type V = Map<Seq<char>, LevelFilter>;

    closed spec fn view(&self) -> Map<Seq<char>, LevelFilter> {
        table_of(names_of(self.entries@))
    }
}

impl DomainFilters {
    /// No domain has a threshold of its own.
    pub fn new() -> (filters: DomainFilters)
        ensures
            filters@ == Map::<Seq<char>, LevelFilter>::empty(),
    {
        DomainFilters { entries: Vec::new() }
    }

    /// Sets the threshold of one domain, in place of any it had.
    pub fn insert(&mut self, domain: String, level: LevelFilter)
        ensures
            final(self)@ == old(self)@.insert(domain@, level),
    {
        let ghost before = names_of(self.entries@);
        self.entries.push((domain, level));
        assert(names_of(self.entries@).drop_last() =~= before);
    }

    /// The threshold set for `domain`, if one is.
    pub fn get(&self, domain: &str) -> (level: Option<LevelFilter>)
        ensures
            match level {
                Some(l) => self@.contains_key(domain@) && self@[domain@] == l,
                None => !self@.contains_key(domain@),
            },
    {
        let mut found: Option<LevelFilter> = None;
        let mut i: usize = 0;
        while i < self.entries.len()
            invariant
                i <= self.entries.len(),
                match found {
                    Some(l) => table_of(names_of(self.entries@).take(i as int)).contains_key(
                        domain@,
                    ) && table_of(names_of(self.entries@).take(i as int))[domain@] == l,
                    None => !table_of(names_of(self.entries@).take(i as int)).contains_key(
                        domain@,
                    ),
                },
            decreases self.entries.len() - i,
        {
            assert(names_of(self.entries@).take(i + 1).drop_last() =~= names_of(
                self.entries@,
            ).take(i as int));
            if same_text(self.entries[i].0.as_str(), domain) {
                found = Some(self.entries[i].1);
            }
            i += 1;
        }
        assert(names_of(self.entries@).take(i as int) =~= names_of(self.entries@));
        found
    }

    /// Reads the thresholds of a configuration that gives each domain a
    /// numeric level. It fails on the first number that stands for no level.
    pub fn parse(levels: &Vec<(String, u64)>) -> (r: Result<DomainFilters, LoggerError>)
        ensures
            match r {
                Ok(filters) => first_unrecognized(names_of(levels@)) is None && filters@
                    == table_of(thresholds_of(names_of(levels@))),
                Err(e) => first_unrecognized(names_of(levels@)) matches Some(value) && e
                    == LoggerError::UnrecognizedLevel(value),
            },
    {
        let ghost all = names_of(levels@);
        let mut entries: Vec<(String, LevelFilter)> = Vec::new();
        let mut i: usize = 0;
        assert(all.skip(0) =~= all);
        while i < levels.len()
            invariant
                i <= levels.len(),
                all == names_of(levels@),
                entries@.len() == i,
                first_unrecognized(all) == first_unrecognized(all.skip(i as int)),
                names_of(entries@) == thresholds_of(all.take(i as int)),
            decreases levels.len() - i,
        {
            let value: u64 = levels[i].1;
            assert(all.skip(i as int).drop_first() =~= all.skip(i + 1));
            match PythonLogLevel::from_u64(value) {
                Some(level) => {
                    entries.push((levels[i].0.clone(), level.to_level_filter()));
                    assert forall|j: int| 0 <= j < i + 1 implies names_of(entries@)[j]
                        == thresholds_of(all.take(i + 1))[j] by {
                        if j < i {
                            assert(thresholds_of(all.take(i as int))[j] == thresholds_of(
                                all.take(i + 1),
                            )[j]);
                        }
                    }
                },
                None => {
                    return Err(LoggerError::UnrecognizedLevel(value));
                },
            }
            i += 1;
        }
        Ok(DomainFilters { entries })
    }
}

impl Clone for DomainFilters {
    fn clone(&self) -> (copy: DomainFilters)
        ensures
            copy@ == self@,
    {
        let mut entries: Vec<(String, LevelFilter)> = Vec::new();
        let mut i: usize = 0;
        while i < self.entries.len()
            invariant
                i <= self.entries.len(),
                entries@.len() == i,
                names_of(entries@) == names_of(self.entries@).take(i as int),
            decreases self.entries.len() - i,
        {
            entries.push((self.entries[i].0.clone(), self.entries[i].1));
            assert forall|j: int| 0 <= j < i + 1 implies names_of(entries@)[j] == names_of(
                self.entries@,
            ).take(i + 1)[j] by {}
            i += 1;
        }
        assert(names_of(self.entries@).take(i as int) =~= names_of(self.entries@));
        DomainFilters { entries }
    }
}

/// How a writer pads the level names that it prints.
#[derive(Clone, Copy, Debug, PartialEq, Eq, Structural)]
pub enum LevelPadding {
    Left,
    Right,
    Off,
}

/// The settings of the writer behind a sink.
#[derive(Debug)]
pub struct WriterConfig {
    /// The pattern that the time of a record is printed by.
    pub time_format: &'static str,
    /// Whether times are local rather than universal.
    pub time_to_local: bool,
    /// From which severity on the writer prints the domain.
    pub target_level: LevelFilter,
    /// From which severity on the writer prints the thread.
    pub thread_level: LevelFilter,
    pub level_padding: LevelPadding,
    /// The writer's own threshold.
    pub level: LevelFilter,
}

/// A sink, with or without a writer behind it.
#[derive(Debug)]
pub struct MaybeWriteLogger {
    level: LevelFilter,
    log_domain_filters: DomainFilters,
    inner: Option<WriterConfig>,
}

/// What a sink holds.
pub struct SinkState {
    /// The sink's threshold.
    pub level: LevelFilter,
    /// The thresholds of the domains that have one of their own.
    pub log_domain_filters: Map<Seq<char>, LevelFilter>,
    /// The settings of the writer, where there is one.
    pub inner: Option<WriterConfig>,
}

impl View for MaybeWriteLogger {
    type V = SinkState;

    closed spec fn view(&self) -> SinkState {
        SinkState {
            level: self.level,
            log_domain_filters: self.log_domain_filters@,
            inner: self.inner,
        }
    }
}

/// The pattern of the time of day: hours, minutes and seconds, two digits each.
pub open spec fn time_format() -> Seq<char> {
    "%H:%M:%S"@
}

impl MaybeWriteLogger {
    /// Whether a record of this severity and domain clears the sink's
    /// threshold or the one set for its domain.
    pub open spec fn passes(&self, level: Level, target: Seq<char>) -> bool {
        self@.level.allows(level) || (self@.log_domain_filters.contains_key(target)
            && self@.log_domain_filters[target].allows(level))
    }

    /// Whether the sink writes a record of this severity and domain.
    pub open spec fn writes(&self, level: Level, target: Seq<char>) -> bool {
        self@.inner is Some && self.passes(level, target)
    }

    /// A sink with no writer and no thresholds but `Off`.
    pub open spec fn is_empty(&self) -> bool {
        &&& self@.level == LevelFilter::Off
        &&& self@.log_domain_filters == Map::<Seq<char>, LevelFilter>::empty()
        &&& self@.inner is None
    }

    /// The sink before anything is configured: it lets nothing out.
    pub fn empty() -> (sink: MaybeWriteLogger)
        ensures
            sink.is_empty(),
            forall|level: Level, target: Seq<char>| !sink.writes(level, target),
    {
        MaybeWriteLogger {
            level: LevelFilter::Off,
            log_domain_filters: DomainFilters::new(),
            inner: None,
        }
    }

    /// A sink at threshold `level` with the given per-domain thresholds.
    ///
    /// The writer behind it filters nothing itself, so that the thresholds
    /// of the sink can change without a new writer. It prints local times
    /// of day, the domain of every record or of none, no thread, and level
    /// names as they are.
    pub fn new(
        level: LevelFilter,
        show_log_domain: bool,
        log_domain_filters: DomainFilters,
    ) -> (sink: MaybeWriteLogger)
        ensures
            sink@.level == level,
            sink@.log_domain_filters == log_domain_filters@,
            sink@.inner matches Some(config) && {
                &&& config.time_format@ == time_format()
                &&& config.time_to_local
                &&& config.target_level == (if show_log_domain {
                    LevelFilter::Error
                } else {
                    LevelFilter::Off
                })
                &&& config.thread_level == LevelFilter::Off
                &&& config.level_padding == LevelPadding::Off
                &&& config.level == LevelFilter::Trace
            },
    {
        let config = WriterConfig {
            time_format: "%H:%M:%S",
            time_to_local: true,
            target_level: if show_log_domain {
                LevelFilter::Error
            } else {
                LevelFilter::Off
            },
            thread_level: LevelFilter::Off,
            level_padding: LevelPadding::Off,
            level: LevelFilter::max(),
        };
        MaybeWriteLogger { level, log_domain_filters, inner: Some(config) }
    }

    /// The sink's threshold.
    pub fn level(&self) -> (level: LevelFilter)
        ensures
            level == self@.level,
    {
        self.level
    }

    /// The thresholds of the domains that have one of their own.
    pub fn log_domain_filters(&self) -> (filters: &DomainFilters)
        ensures
            filters@ == self@.log_domain_filters,
    {
        &self.log_domain_filters
    }

    /// The settings of the writer, where there is one.
    pub fn inner(&self) -> (config: &Option<WriterConfig>)
        ensures
            *config == self@.inner,
    {
        &self.inner
    }

    /// Whether a record of this severity and domain clears the sink's
    /// threshold or the one set for its domain.
    pub fn enabled(&self, level: Level, target: &str) -> (b: bool)
        ensures
            b == self.passes(level, target@),
    {
        let enabled_globally = self.level.enabled_for(level);
        let enabled_for_log_domain = match self.log_domain_filters.get(target) {
            Some(filter) => filter.enabled_for(level),
            None => false,
        };
        enabled_globally || enabled_for_log_domain
    }

    /// Decides whether the writer gets the record: it does where there is a
    /// writer and the record passes.
    pub fn log(&self, record: &LogRecord) -> (written: bool)
        ensures
            written == self.writes(record.level, record.target@),
    {
        if !self.enabled(record.level, record.target.as_str()) {
            return false;
        }
        self.inner.is_some()
    }

    /// Whether there is a writer to flush.
    pub fn flush(&self) -> (flushed: bool)
        ensures
            flushed == self@.inner is Some,
    {
        self.inner.is_some()
    }
}

} // verus!
