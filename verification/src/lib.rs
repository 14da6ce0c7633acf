//! Parser for the textual report payload of the Timewarrior time tracker.
//!
//! The input is a configuration header (`key: value` lines), a blank line,
//! and a JSON array of tracked sessions.  The library splits the input,
//! decodes the sessions (including their fixed-format UTC timestamps and the
//! conversion to local wall-clock time) and assembles an immutable model.

pub mod config;
pub mod error;
pub mod json;
pub mod report;
pub mod session;
pub mod time;

pub use config::Config;
pub use error::ReportError;
pub use report::TimewarriorData;
pub use session::Session;
pub use time::Timestamp;
pub use time::WallClock;
