//! Verified core of a socklog-style log viewer.
//!
//! The library parses structured log lines (a fixed 25-character timestamp
//! followed by free-form content), orders and filters them, merges the
//! histories of many files into one chronological stream, and drives the
//! cursor state machine used when following files as they grow.

pub mod boottime;
pub mod cache;
pub mod error;
pub mod logfile;
pub mod logline;
pub mod pattern;
pub mod printer;
pub mod priority;
pub mod service;
pub mod settings;
pub mod text;
pub mod timearg;
pub mod timestamp;
pub mod zone;
