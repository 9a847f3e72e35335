//! The producer's side of the buffer.
//!
//! Metrics reach the metrics loop through a bounded channel. A producer never
//! waits for room: a metric that the channel does not take at once is dropped,
//! and the loss is reported as an error record.

use crate::log::{failure_record, LogRecord, LogRecordView};
use tokio::sync::mpsc::error::TrySendError;
use tokio::sync::mpsc::{Receiver, Sender};
use vstd::prelude::*;

verus! {

/// The sending half of tokio's bounded channel. Nothing inside it is visible
/// to the verifier.
#[verifier::external_type_specification]
#[verifier::external_body]
#[verifier::reject_recursive_types(T)]
pub struct ExSender<T>(Sender<T>);

/// The receiving half of tokio's bounded channel. Nothing inside it is
/// visible to the verifier.
#[verifier::external_type_specification]
#[verifier::external_body]
#[verifier::reject_recursive_types(T)]
pub struct ExReceiver<T>(Receiver<T>);

/// The largest capacity that a channel can be given.
pub const MAX_CAPACITY: usize = usize::MAX / 8;

/// `tokio::sync::mpsc::channel`, which makes a bounded channel and hands out
/// its two halves. It panics on a capacity of zero and on one above the
/// number of permits that tokio's semaphore can hold, `usize::MAX >> 3`;
/// both are left out here. Nothing is claimed of the halves.
pub assume_specification<T>[ tokio::sync::mpsc::channel::<T> ](buffer: usize) -> (halves: (
    Sender<T>,
    Receiver<T>,
))
    requires
        0 < buffer <= usize::MAX / 8,
;

/// Why the channel did not take a metric.
#[derive(Clone, Copy, Debug, PartialEq, Eq, Structural)]
pub enum SendFailure {
    /// The channel holds as many metrics as its capacity allows.
    Full,
    /// The receiving half is gone: the metrics loop has ended.
    Closed,
}

/// `Sender::try_send`, which offers a message to the channel without
/// waiting. Whether the channel takes it depends on what the other tasks
/// have done, so nothing is claimed of which of the three outcomes comes
/// back. A message that was not taken is handed back as it was given.
#[verifier::external_body]
fn try_send<M>(channel: &Sender<M>, metric: M) -> (outcome: Result<(), (SendFailure, M)>)
    ensures
        outcome matches Err(refused) ==> refused.1 == metric,
{
    match channel.try_send(metric) {
        Ok(()) => Ok(()),
        Err(TrySendError::Full(metric)) => Err((SendFailure::Full, metric)),
        Err(TrySendError::Closed(metric)) => Err((SendFailure::Closed, metric)),
    }
}

/// Why a configuration was turned down.
#[derive(Clone, Copy, Debug, PartialEq, Eq, Structural)]
pub enum ConfigError {
    /// The push interval is zero: the loop would do nothing but flush.
    ZeroInterval,
    /// The buffer size is zero: the channel could never take a metric.
    ZeroCapacity,
    /// The buffer size is above `MAX_CAPACITY`.
    CapacityTooLarge,
}

/// What is wrong with a configuration, if anything. The interval is looked at
/// first.
pub open spec fn config_error(push_interval: u64, buffer_size: usize) -> Option<ConfigError> {
    if push_interval == 0 {
        Some(ConfigError::ZeroInterval)
    } else if buffer_size == 0 {
        Some(ConfigError::ZeroCapacity)
    } else if buffer_size > MAX_CAPACITY {
        Some(ConfigError::CapacityTooLarge)
    } else {
        None
    }
}

/// The words that say why the channel did not take a metric.
pub open spec fn reason_text(failure: SendFailure) -> Seq<char> {
    match failure {
        SendFailure::Full => "no available capacity"@,
        SendFailure::Closed => "channel closed"@,
    }
}

/// What is logged for one attempt to enqueue a metric: nothing where the
/// channel took it, one error record with the reason where it did not.
pub open spec fn spec_submission_record(outcome: Result<(), SendFailure>) -> Option<
    LogRecordView,
> {
    match outcome {
        Ok(_) => None,
        Err(failure) => Some(failure_record(reason_text(failure))),
    }
}

impl SendFailure {
    /// The words that say why the channel did not take a metric.
    pub fn reason(&self) -> (text: &'static str)
        ensures
            text@ == reason_text(*self),
    {
        match self {
            SendFailure::Full => "no available capacity",
            SendFailure::Closed => "channel closed",
        }
    }
}

/// Decides what to log for one attempt to enqueue a metric.
pub fn submission_record(outcome: Result<(), SendFailure>) -> (record: Option<LogRecord>)
    ensures
        record.deep_view() == spec_submission_record(outcome),
{
    match outcome {
        Ok(_) => None,
        Err(failure) => Some(LogRecord::failure(failure.reason())),
    }
}

/// The producer's handle on the buffer: it owns the sending half of the
/// channel.
#[derive(Debug)]
#[verifier::reject_recursive_types(M)]
pub struct InfluxDbHandle<M> {
    /// The channel for submitting metrics.
    channel: Sender<M>,
    /// The capacity that the channel was made with.
    capacity: usize,
}

impl<M> InfluxDbHandle<M> {
    /// The capacity that the channel was made with.
    pub closed spec fn spec_capacity(&self) -> usize {
        self.capacity
    }

    /// The capacity is one that a channel can have.
    #[verifier::type_invariant]
    spec fn well_formed(&self) -> bool {
        0 < self.capacity <= MAX_CAPACITY
    }

    /// Checks the configuration and, where it is sound, makes the channel.
    /// The handle keeps the sending half; the receiving half is for the
    /// metrics loop, which flushes every `push_interval` seconds.
    pub fn new(push_interval: u64, buffer_size: usize) -> (made: Result<
        (InfluxDbHandle<M>, Receiver<M>),
        ConfigError,
    >)
        ensures
            match config_error(push_interval, buffer_size) {
                Some(error) => made is Err && made->Err_0 == error,
                None => made is Ok && made->Ok_0.0.spec_capacity() == buffer_size,
            },
    {
        if push_interval == 0 {
            return Err(ConfigError::ZeroInterval);
        }
        if buffer_size == 0 {
            return Err(ConfigError::ZeroCapacity);
        }
        if buffer_size > MAX_CAPACITY {
            return Err(ConfigError::CapacityTooLarge);
        }
        let (sender, receiver) = tokio::sync::mpsc::channel(buffer_size);
        Ok((InfluxDbHandle { channel: sender, capacity: buffer_size }, receiver))
    }

    /// The capacity that the channel was made with.
    pub fn capacity(&self) -> (capacity: usize)
        ensures
            capacity == self.spec_capacity(),
            0 < capacity <= MAX_CAPACITY,
    {
        proof {
            use_type_invariant(self);
        }
        self.capacity
    }

    /// Offers a metric to the channel without waiting. Where the channel
    /// does not take it the metric is dropped, and the record to log is
    /// handed back. Which of the three comes back is the channel's to say:
    /// nothing, the record for a full channel, or the one for a closed
    /// channel.
    pub fn submit(&self, metric: M) -> (record: Option<LogRecord>)
        ensures
            record.deep_view() == spec_submission_record(Ok(())) || record.deep_view()
                == spec_submission_record(Err(SendFailure::Full)) || record.deep_view()
                == spec_submission_record(Err(SendFailure::Closed)),
    {
        match try_send(&self.channel, metric) {
            Ok(_) => submission_record(Ok(())),
            Err(refused) => {
                let (failure, _dropped) = refused;
                submission_record(Err(failure))
            },
        }
    }
}

} // verus!
