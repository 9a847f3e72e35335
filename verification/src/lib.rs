//! The decisions of a metrics buffer that ships records to a time-series
//! database.
//!
//! Producers submit metrics through a bounded channel; a background loop feeds
//! them to an aggregator and has it flush at a fixed interval. This library
//! holds what that system decides, free of waiting and of network calls:
//! which name a series gets, what is logged when a write fails or a metric is
//! dropped, how a configuration is checked, and what the loop does on each
//! event. The caller waits, sends and logs.

pub mod dispatch;
pub mod handle;
pub mod log;
pub mod naming;
pub mod push_loop;
pub mod util;
