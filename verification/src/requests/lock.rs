//! Locking the authenticator, which abandons every request that still awaits
//! a decision.

use crate::json::{debug_text, is_null, json_debug, shape, text_value, JsonShape};
use crate::pending::{PendingAuthRequest, PendingRegistry};
use crate::requests::authorise::{
    abandoned_message, decision_step, failure, registry_after_decision,
};
use crate::text::join;
use serde_json::Value;
use vstd::prelude::*;
use vstd::string::*;

verus! {

/// What the daemon does next for a lock request.
pub enum LockStep {
    /// Ask the authenticator to lock.
    LockAuthenticator,
    /// Answer the caller: the request is finished.
    Reply(Result<Value, String>),
}

/// The message for parameters that are not the JSON `null`.
pub open spec fn unexpected_param_message(params: Value) -> Seq<char> {
    "Unexpected param for 'lock' method: "@ + json_debug(params)
}

/// The confirmation of a lock.
pub open spec fn locked_message() -> Seq<char> {
    "Safe locked successfully"@
}

/// The message for a lock that the authenticator refused, with its reason.
pub open spec fn lock_failed_message(reason: Seq<char>) -> Seq<char> {
    "Failed to lock: "@ + reason
}

/// Takes up a lock request: the authenticator is to lock where the
/// parameters are the JSON `null`, and anything else is rejected.
pub fn process_req(params: Value) -> (step: LockStep)
    ensures
        match shape(params) {
            JsonShape::Null => step is LockAuthenticator,
            _ => {
                &&& step matches LockStep::Reply(Err(message))
                &&& message@ == unexpected_param_message(params)
            },
        },
{
    if is_null(&params) {
        LockStep::LockAuthenticator
    } else {
        let shown = debug_text(&params);
        LockStep::Reply(Err(join("Unexpected param for 'lock' method: ", shown.as_str())))
    }
}

/// Ends a lock request with the authenticator's answer. After a lock the
/// registry is emptied, which drops the sending end of every decision
/// channel in it; after a refusal the registry stays as it was.
pub fn locked(outcome: Result<(), String>, auth_reqs: &mut PendingRegistry) -> (r: Result<
    Value,
    String,
>)
    requires
        old(auth_reqs).wf(),
    ensures
        final(auth_reqs).wf(),
        match outcome {
            Ok(_) => {
                &&& r matches Ok(v)
                &&& shape(v) == JsonShape::Text(locked_message())
                &&& final(auth_reqs)@ == Map::<u32, PendingAuthRequest>::empty()
            },
            Err(reason) => {
                &&& r matches Err(message)
                &&& message@ == lock_failed_message(reason@)
                &&& final(auth_reqs)@ == old(auth_reqs)@
            },
        },
{
    match outcome {
        Ok(_) => {
            auth_reqs.clear();
            Ok(text_value(String::from_str("Safe locked successfully")))
        },
        Err(reason) => Err(join("Failed to lock: ", reason.as_str())),
    }
}

/// After a lock, a request that was waiting and finds its channel closed
/// ends as abandoned, and the registry stays empty.
pub proof fn lemma_abandoned_after_lock(req_id: u32, auth_req: Seq<char>)
    ensures
        decision_step(None, req_id, auth_req) == failure(abandoned_message()),
        registry_after_decision(Map::empty(), None, req_id) == Map::<
            u32,
            PendingAuthRequest,
        >::empty(),
{
    assert(Map::<u32, PendingAuthRequest>::empty().remove(req_id) =~= Map::<
        u32,
        PendingAuthRequest,
    >::empty());
}

} // verus!
