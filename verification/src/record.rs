//! One log record, as the logging facility hands it over.

use vstd::prelude::*;

use crate::level::Level;

verus! {

/// A record: its severity, where it comes from, and what it says.
#[derive(Debug)]
pub struct LogRecord {
    pub level: Level,
    /// The domain: the name that per-domain thresholds go by.
    pub target: String,
    /// The module that emitted the record, where the facility knows it.
    pub module: Option<String>,
    pub message: String,
}

} // verus!
