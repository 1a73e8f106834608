//! Arbitration core of a local authorisation daemon.
//!
//! Applications submit authorisation requests; those of registered
//! applications wait in a bounded registry until a notifier delivers the
//! user's decision, those of unregistered applications are granted at once.
//! Notification endpoints subscribe and unsubscribe, and locking the
//! authenticator abandons whatever is still waiting.

pub mod channel;
pub mod json;
pub mod pending;
pub mod requests;
pub mod subscribers;
pub mod text;

use vstd::prelude::*;

verus! {

/// Largest number of authorisation requests that may await a decision at once.
pub const MAX_PENDING: usize = 64;

/// Largest number of notification endpoints that may be subscribed at once.
pub const MAX_SUBSCRIBERS: usize = 3;

} // verus!
