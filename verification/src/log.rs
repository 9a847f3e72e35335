//! Log records.
//!
//! The library never writes to a log itself. Where something is worth
//! reporting it hands back a record, and the caller passes the record to
//! whatever sink it uses.

use vstd::prelude::*;

verus! {

/// How serious a record is.
#[derive(Clone, Copy, Debug, PartialEq, Eq, Structural)]
pub enum LogLevel {
    /// Normal operation, such as the start of the metrics loop.
    Info,
    /// Something was lost: a write failed or a metric was dropped.
    Error,
}

/// One message for the log, with its level.
#[derive(Debug, PartialEq, Eq)]
pub struct LogRecord {
    pub level: LogLevel,
    pub message: String,
}

/// A record as contracts see it: the level and the characters of the message.
pub struct LogRecordView {
    pub level: LogLevel,
    pub message: Seq<char>,
}

impl View for LogRecord {
    type V = LogRecordView;

    open spec fn view(&self) -> LogRecordView {
        LogRecordView { level: self.level, message: self.message@ }
    }
}

impl DeepView for LogRecord {
    type V = LogRecordView;

    open spec fn deep_view(&self) -> LogRecordView {
        self@
    }
}

/// The text that opens every report of a lost metric.
pub open spec fn failure_prefix() -> Seq<char> {
    "Failed to submit metric: "@
}

/// The record that reports a lost metric: error level, and the reason
/// behind the common prefix.
pub open spec fn failure_record(reason: Seq<char>) -> LogRecordView {
    LogRecordView { level: LogLevel::Error, message: failure_prefix() + reason }
}

/// The text of the notice that the metrics loop writes when it starts.
pub open spec fn startup_text() -> Seq<char> {
    "Starting InfluxDb metrics loop"@
}

/// The notice that the metrics loop writes when it starts: info level.
pub open spec fn startup_record() -> LogRecordView {
    LogRecordView { level: LogLevel::Info, message: startup_text() }
}

impl LogRecord {
    /// Builds the report of a lost metric from the reason it was lost.
    pub fn failure(reason: &str) -> (record: LogRecord)
        ensures
            record@ == failure_record(reason@),
    {
        let message = "Failed to submit metric: ".to_owned().concat(reason);
        LogRecord { level: LogLevel::Error, message }
    }

    /// Builds the notice that the metrics loop writes when it starts.
    pub fn startup() -> (record: LogRecord)
        ensures
            record@ == startup_record(),
    {
        LogRecord { level: LogLevel::Info, message: "Starting InfluxDb metrics loop".to_owned() }
    }
}

} // verus!
