//! Diagnostics for a build engine: a logger that routes each record to the
//! interactive or the background sink of whoever emitted it, and the state
//! of the console display that shows the busiest work while a session runs.
//!
//! Everything here is plain state and decisions. Writing to a terminal or a
//! file, locking, and thread- or task-local storage belong to the caller.

pub mod console_ui;
pub mod destination;
pub mod error;
pub mod handlers;
pub mod lanes;
pub mod level;
pub mod line;
pub mod logger;
pub mod order;
pub mod record;
pub mod sink;
pub mod text;
