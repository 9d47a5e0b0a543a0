//! A foreground-activity tracker: it turns a stream of "which application has
//! focus" samples into durationed usage intervals, keeps per-application
//! totals, frames the records of an append-only usage log and renders the
//! totals as a chart document.
//!
//! Everything here is a function of plain values with a proved contract. The
//! program around it reads the window system, sleeps, writes the files and
//! prints; the one thing this crate takes from outside itself is the
//! wall-clock stamp of a log record.

pub mod aggregate;
pub mod clock;
pub mod detector;
pub mod moment;
pub mod report;
pub mod text;
pub mod tracker;
pub mod usage_log;
