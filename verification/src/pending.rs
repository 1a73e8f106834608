//! The registry of authorisation requests that await a decision.

use crate::MAX_PENDING;
use std::collections::HashMap;
use std::time::SystemTime;
use tokio::sync::mpsc::Sender;
use vstd::prelude::*;

verus! {

/// A request of a registered application that awaits the user's decision.
pub struct PendingAuthRequest {
    /// The request's identifier, as the authenticator decoded it.
    pub req_id: u32,
    /// The application's identifier.
    pub app_id: String,
    /// The application's name.
    pub app_name: String,
    /// The application's vendor.
    pub app_vendor: String,
    /// When the request was admitted.
    pub submitted_at: SystemTime,
    /// The sending end of the request's decision channel. Dropping it closes
    /// the channel, which abandons the request.
    pub decision_sender: Sender<bool>,
    /// Whether the subscribers have been told of the request.
    pub notified: bool,
}

/// The error of an insertion into a full registry.
#[derive(Debug)]
pub struct CapacityExceeded;

/// The requests that await a decision, keyed by their identifiers, never more
/// than [`MAX_PENDING`] of them.
pub struct PendingRegistry {
    requests: HashMap<u32, PendingAuthRequest>,
}

impl View for PendingRegistry {
    type V = Map<u32, PendingAuthRequest>;

    /// The registry as a map from request identifier to request.
    closed spec fn view(&self) -> Map<u32, PendingAuthRequest> {
        self.requests@
    }
}

impl PendingRegistry {
    /// The registry's invariant: the bound holds.
    pub closed spec fn wf(&self) -> bool {
        &&& self@.dom().finite()
        &&& self@.len() <= MAX_PENDING
    }

    /// A well-formed registry holds at most [`MAX_PENDING`] requests.
    pub proof fn lemma_bounded(&self)
        requires
            self.wf(),
        ensures
            self@.dom().finite(),
            self@.len() <= MAX_PENDING,
    {
    }

    /// A registry without requests.
    pub fn new() -> (r: Self)
        ensures
            r.wf(),
            r@ == Map::<u32, PendingAuthRequest>::empty(),
    {
        PendingRegistry { requests: HashMap::new() }
    }

    /// The number of requests.
    pub fn len(&self) -> (n: usize)
        requires
            self.wf(),
        ensures
            n == self@.len(),
            n <= MAX_PENDING,
    {
        self.requests.len()
    }

    /// Whether a request with the identifier awaits a decision.
    pub fn contains(&self, req_id: u32) -> (b: bool)
        requires
            self.wf(),
        ensures
            b == self@.contains_key(req_id),
    {
        self.requests.contains_key(&req_id)
    }

    /// The request with the identifier.
    pub fn get(&self, req_id: u32) -> (r: Option<&PendingAuthRequest>)
        requires
            self.wf(),
        ensures
            match r {
                Some(request) => self@.contains_key(req_id) && self@[req_id] == *request,
                None => !self@.contains_key(req_id),
            },
    {
        self.requests.get(&req_id)
    }

    /// Adds a request under the identifier, in place of the one that was
    /// there under it, unless the registry is full: then nothing changes.
    pub fn insert(&mut self, req_id: u32, request: PendingAuthRequest) -> (r: Result<
        (),
        CapacityExceeded,
    >)
        requires
            old(self).wf(),
        ensures
            final(self).wf(),
            r is Ok <==> old(self)@.len() < MAX_PENDING,
            r is Ok ==> final(self)@ == old(self)@.insert(req_id, request),
            r is Err ==> final(self)@ == old(self)@,
    {
        if self.requests.len() >= MAX_PENDING {
            Err(CapacityExceeded)
        } else {
            self.requests.insert(req_id, request);
            Ok(())
        }
    }

    /// Takes the request with the identifier out of the registry; without
    /// such a request nothing changes.
    pub fn remove(&mut self, req_id: u32) -> (r: Option<PendingAuthRequest>)
        requires
            old(self).wf(),
        ensures
            final(self).wf(),
            final(self)@ == old(self)@.remove(req_id),
            match r {
                Some(request) => old(self)@.contains_key(req_id) && old(self)@[req_id] == request,
                None => !old(self)@.contains_key(req_id),
            },
    {
        self.requests.remove(&req_id)
    }

    /// Takes every request out of the registry and drops it, and with it the
    /// sending end of its decision channel.
    pub fn clear(&mut self)
        requires
            old(self).wf(),
        ensures
            final(self).wf(),
            final(self)@ == Map::<u32, PendingAuthRequest>::empty(),
    {
        self.requests.clear();
    }
}

} // verus!
