//! The channel on which a decision reaches the request that waits for it, and
//! the clock that stamps a request when it is admitted.

use std::time::SystemTime;
use tokio::sync::mpsc::{Receiver, Sender};
use vstd::prelude::*;

verus! {

/// `tokio::sync::mpsc::Sender`, the sending end of a bounded channel, as an
/// opaque value.
#[verifier::external_type_specification]
#[verifier::external_body]
#[verifier::reject_recursive_types(T)]
pub struct ExSender<T>(tokio::sync::mpsc::Sender<T>);

/// `tokio::sync::mpsc::Receiver`, the receiving end of a bounded channel, as
/// an opaque value.
#[verifier::external_type_specification]
#[verifier::external_body]
#[verifier::reject_recursive_types(T)]
pub struct ExReceiver<T>(tokio::sync::mpsc::Receiver<T>);

/// `std::time::SystemTime`, a reading of the system clock, as an opaque
/// value.
#[verifier::external_type_specification]
#[verifier::external_body]
pub struct ExSystemTime(std::time::SystemTime);

/// How many decisions a decision channel can hold before its receiver reads.
pub const DECISION_CHANNEL_CAPACITY: usize = 32;

/// `tokio::sync::mpsc::channel`: the two ends of a new bounded channel of
/// booleans. It panics for a buffer of zero or of more than an eighth of
/// `usize::MAX`, which the precondition excludes; nothing is claimed of the
/// ends it returns.
#[verifier::external_body]
pub(crate) fn decision_channel(buffer: usize) -> (ends: (Sender<bool>, Receiver<bool>))
    requires
        0 < buffer <= usize::MAX / 8,
{
    tokio::sync::mpsc::channel(buffer)
}

/// `std::time::SystemTime::now`: the system clock's reading. Nothing is
/// claimed of it.
#[verifier::external_body]
pub(crate) fn now() -> (t: SystemTime) {
    SystemTime::now()
}

} // verus!
