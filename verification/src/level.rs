//! Severities, sink thresholds, and the numeric levels that the scripting
//! side of the engine configures them with.

use vstd::prelude::*;

verus! {

/// The severity of one record, from least to most verbose.
#[derive(Clone, Copy, Debug, PartialEq, Eq, Structural)]
pub enum Level {
    Error,
    Warn,
    Info,
    Debug,
    Trace,
}

/// The threshold of a sink: `Off` lets nothing through, `Trace` everything.
#[derive(Clone, Copy, Debug, PartialEq, Eq, Structural)]
pub enum LevelFilter {
    Off,
    Error,
    Warn,
    Info,
    Debug,
    Trace,
}

/// A level as the scripting side numbers it.
#[derive(Clone, Copy, Debug, PartialEq, Eq, Structural)]
pub enum PythonLogLevel {
    NotSet,
    Trace,
    Debug,
    Info,
    Warn,
    Error,
    Critical,
}

impl Level {
    /// Position in the order of verbosity, `Error` lowest.
    pub open spec fn rank(self) -> int {
        match self {
            Level::Error => 1,
            Level::Warn => 2,
            Level::Info => 3,
            Level::Debug => 4,
            Level::Trace => 5,
        }
    }

    /// The upper-case name that stands in a formatted line.
    pub open spec fn name(self) -> Seq<char> {
        match self {
            Level::Error => seq!['E', 'R', 'R', 'O', 'R'],
            Level::Warn => seq!['W', 'A', 'R', 'N'],
            Level::Info => seq!['I', 'N', 'F', 'O'],
            Level::Debug => seq!['D', 'E', 'B', 'U', 'G'],
            Level::Trace => seq!['T', 'R', 'A', 'C', 'E'],
        }
    }

    /// The upper-case name that stands in a formatted line.
    pub fn as_str(self) -> (s: &'static str)
        ensures
            s@ == self.name(),
    {
        proof {
            reveal_strlit("ERROR");
            reveal_strlit("WARN");
            reveal_strlit("INFO");
            reveal_strlit("DEBUG");
            reveal_strlit("TRACE");
        }
        match self {
            Level::Error => "ERROR",
            Level::Warn => "WARN",
            Level::Info => "INFO",
            Level::Debug => "DEBUG",
            Level::Trace => "TRACE",
        }
    }

    /// The threshold that lets exactly this severity and the less verbose
    /// ones through.
    pub fn to_level_filter(self) -> (f: LevelFilter)
        ensures
            f.rank() == self.rank(),
    {
        match self {
            Level::Error => LevelFilter::Error,
            Level::Warn => LevelFilter::Warn,
            Level::Info => LevelFilter::Info,
            Level::Debug => LevelFilter::Debug,
            Level::Trace => LevelFilter::Trace,
        }
    }
}

impl LevelFilter {
    /// Position in the order of verbosity, `Off` lowest.
    pub open spec fn rank(self) -> int {
        match self {
            LevelFilter::Off => 0,
            LevelFilter::Error => 1,
            LevelFilter::Warn => 2,
            LevelFilter::Info => 3,
            LevelFilter::Debug => 4,
            LevelFilter::Trace => 5,
        }
    }

    /// Whether a record of severity `level` clears this threshold.
    pub open spec fn allows(self, level: Level) -> bool {
        level.rank() <= self.rank()
    }

    /// The more verbose of two thresholds.
    pub open spec fn spec_max(self, other: LevelFilter) -> LevelFilter {
        if self.rank() < other.rank() {
            other
        } else {
            self
        }
    }

    fn rank_u8(self) -> (r: u8)
        ensures
            r == self.rank(),
    {
        match self {
            LevelFilter::Off => 0,
            LevelFilter::Error => 1,
            LevelFilter::Warn => 2,
            LevelFilter::Info => 3,
            LevelFilter::Debug => 4,
            LevelFilter::Trace => 5,
        }
    }

    /// The most verbose threshold.
    pub fn max() -> (f: LevelFilter)
        ensures
            f == LevelFilter::Trace,
            forall|level: Level| f.allows(level),
    {
        LevelFilter::Trace
    }

    /// Whether a record of severity `level` clears this threshold.
    pub fn enabled_for(self, level: Level) -> (b: bool)
        ensures
            b == self.allows(level),
    {
        level.to_level_filter().rank_u8() <= self.rank_u8()
    }

    /// `self < other` in the order of verbosity.
    pub fn less_verbose_than(self, other: LevelFilter) -> (b: bool)
        ensures
            b == (self.rank() < other.rank()),
    {
        self.rank_u8() < other.rank_u8()
    }
}

impl PythonLogLevel {
    /// The number that stands for this level.
    pub open spec fn number(self) -> int {
        match self {
            PythonLogLevel::NotSet => 0,
            PythonLogLevel::Trace => 5,
            PythonLogLevel::Debug => 10,
            PythonLogLevel::Info => 20,
            PythonLogLevel::Warn => 30,
            PythonLogLevel::Error => 40,
            PythonLogLevel::Critical => 50,
        }
    }

    /// The level that a number stands for, if any.
    pub open spec fn of_number(value: int) -> Option<PythonLogLevel> {
        if value == 0 {
            Some(PythonLogLevel::NotSet)
        } else if value == 5 {
            Some(PythonLogLevel::Trace)
        } else if value == 10 {
            Some(PythonLogLevel::Debug)
        } else if value == 20 {
            Some(PythonLogLevel::Info)
        } else if value == 30 {
            Some(PythonLogLevel::Warn)
        } else if value == 40 {
            Some(PythonLogLevel::Error)
        } else if value == 50 {
            Some(PythonLogLevel::Critical)
        } else {
            None
        }
    }

    /// Whether `value` is one of the seven numbers.
    pub open spec fn recognized(value: int) -> bool {
        Self::of_number(value) is Some
    }

    /// The threshold of a sink configured at this level. There is nothing
    /// above `Error`, so `Critical` is held to be `Error`.
    pub open spec fn filter(self) -> LevelFilter {
        match self {
            PythonLogLevel::NotSet => LevelFilter::Off,
            PythonLogLevel::Trace => LevelFilter::Trace,
            PythonLogLevel::Debug => LevelFilter::Debug,
            PythonLogLevel::Info => LevelFilter::Info,
            PythonLogLevel::Warn => LevelFilter::Warn,
            PythonLogLevel::Error => LevelFilter::Error,
            PythonLogLevel::Critical => LevelFilter::Error,
        }
    }

    /// The severity of a record emitted at this level; `NotSet` has none.
    pub open spec fn severity(self) -> Option<Level> {
        match self {
            PythonLogLevel::NotSet => None,
            PythonLogLevel::Trace => Some(Level::Trace),
            PythonLogLevel::Debug => Some(Level::Debug),
            PythonLogLevel::Info => Some(Level::Info),
            PythonLogLevel::Warn => Some(Level::Warn),
            PythonLogLevel::Error => Some(Level::Error),
            PythonLogLevel::Critical => Some(Level::Error),
        }
    }

    /// The level that a number stands for, if any.
    pub fn from_u64(value: u64) -> (r: Option<PythonLogLevel>)
        ensures
            r == Self::of_number(value as int),
            r matches Some(level) ==> level.number() == value,
    {
        if value == 0 {
            Some(PythonLogLevel::NotSet)
        } else if value == 5 {
            Some(PythonLogLevel::Trace)
        } else if value == 10 {
            Some(PythonLogLevel::Debug)
        } else if value == 20 {
            Some(PythonLogLevel::Info)
        } else if value == 30 {
            Some(PythonLogLevel::Warn)
        } else if value == 40 {
            Some(PythonLogLevel::Error)
        } else if value == 50 {
            Some(PythonLogLevel::Critical)
        } else {
            None
        }
    }

    /// The threshold of a sink configured at this level.
    pub fn to_level_filter(self) -> (f: LevelFilter)
        ensures
            f == self.filter(),
    {
        match self {
            PythonLogLevel::NotSet => LevelFilter::Off,
            PythonLogLevel::Trace => LevelFilter::Trace,
            PythonLogLevel::Debug => LevelFilter::Debug,
            PythonLogLevel::Info => LevelFilter::Info,
            PythonLogLevel::Warn => LevelFilter::Warn,
            PythonLogLevel::Error => LevelFilter::Error,
            PythonLogLevel::Critical => LevelFilter::Error,
        }
    }

    /// The severity of a record emitted at this level.
    pub fn to_level(self) -> (l: Option<Level>)
        ensures
            l == self.severity(),
    {
        match self {
            PythonLogLevel::NotSet => None,
            PythonLogLevel::Trace => Some(Level::Trace),
            PythonLogLevel::Debug => Some(Level::Debug),
            PythonLogLevel::Info => Some(Level::Info),
            PythonLogLevel::Warn => Some(Level::Warn),
            PythonLogLevel::Error => Some(Level::Error),
            PythonLogLevel::Critical => Some(Level::Error),
        }
    }
}

} // verus!
