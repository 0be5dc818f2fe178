//! A verified core for a log-ingest daemon.
//!
//! The library covers the pure logic of the daemon: classifying log levels,
//! formatting and parsing the partitioned line format, decoding upstream
//! payloads, validating configuration, scheduling and selecting retention
//! sweeps, and the ingest supervisor's reconnect decisions.  All filesystem,
//! network and timer work is left to the embedding program, which feeds this
//! library plain values and carries out the plans it returns.

pub mod level;
pub mod time;
pub mod clock;
pub mod config;
pub mod decode;
pub mod retention;
pub mod supervisor;
pub mod writer;

pub use level::LogLevel;
pub use time::CivilDateTime;
