//! Authorising an application.
//!
//! A request goes through the daemon in steps. Each function here decides one
//! step from what has happened so far, and says what the daemon does next:
//! ask the authenticator to decode or to authorise a payload, wait for the
//! user's decision, or reply.

use crate::channel::{decision_channel, now, DECISION_CHANNEL_CAPACITY};
use crate::json::{as_text, debug_text, json_debug, shape, text_value, JsonShape};
use crate::pending::{PendingAuthRequest, PendingRegistry};
use crate::text::{decimal, decimal_string, join, surround};
use crate::MAX_PENDING;
use serde_json::Value;
use std::time::SystemTime;
use tokio::sync::mpsc::{Receiver, Sender};
use vstd::prelude::*;
use vstd::string::*;

verus! {

/// A decoded request of a registered application.
pub struct AppAuthRequest {
    /// The request's identifier.
    pub req_id: u32,
    /// The application's identifier.
    pub app_id: String,
    /// The application's name.
    pub app_name: String,
    /// The application's vendor.
    pub app_vendor: String,
}

/// What the authenticator decoded a payload as.
pub enum DecodedRequest {
    /// The request of a registered application, which the user decides.
    Registered(AppAuthRequest),
    /// The request of an unregistered application, which is granted at once.
    Unregistered,
}

/// What the daemon does next for a request.
pub enum AuthorisationStep {
    /// Ask the authenticator to decode the payload.
    Decode(String),
    /// Ask the authenticator to authorise the payload.
    Authorise(String),
    /// Wait for the decision on the request's channel.
    AwaitDecision {
        /// The receiving end of the request's decision channel.
        decisions: Receiver<bool>,
        /// The request's identifier.
        req_id: u32,
        /// The payload, to be authorised if the decision allows it.
        auth_req: String,
    },
    /// Answer the caller: the request is finished.
    Reply(Result<Value, String>),
}

/// A step as contracts speak of it.
pub enum StepView {
    /// Ask the authenticator to decode the payload.
    Decode(Seq<char>),
    /// Ask the authenticator to authorise the payload.
    Authorise(Seq<char>),
    /// Wait for the decision on the request's channel.
    AwaitDecision { decisions: Receiver<bool>, req_id: u32, auth_req: Seq<char> },
    /// Answer the caller with a JSON value of this shape, or with this error
    /// message.
    Reply(Result<JsonShape, Seq<char>>),
}

impl View for AuthorisationStep {
    type V = StepView;

    open spec fn view(&self) -> StepView {
        match *self {
            AuthorisationStep::Decode(payload) => StepView::Decode(payload@),
            AuthorisationStep::Authorise(payload) => StepView::Authorise(payload@),
            AuthorisationStep::AwaitDecision { decisions, req_id, auth_req } => {
                StepView::AwaitDecision { decisions, req_id, auth_req: auth_req@ }
            },
            AuthorisationStep::Reply(Ok(value)) => StepView::Reply(Ok(shape(value))),
            AuthorisationStep::Reply(Err(message)) => StepView::Reply(Err(message@)),
        }
    }
}

/// The reply that fails with the message.
pub open spec fn failure(message: Seq<char>) -> StepView {
    StepView::Reply(Err(message))
}

/// The reply that succeeds with the text, as a JSON string.
pub open spec fn success(text: Seq<char>) -> StepView {
    StepView::Reply(Ok(JsonShape::Text(text)))
}

/// The message for parameters that are no string.
pub open spec fn not_a_string_message(params: Value) -> Seq<char> {
    "Incorrect params for 'authorise' method: "@ + json_debug(params)
}

/// The message for a request that finds the registry full.
pub open spec fn capacity_message(req_id: u32) -> Seq<char> {
    "Authorisation request '"@ + decimal(req_id as nat)
        + "' is rejected by authd since it reached its maximum number ("@ + decimal(
        MAX_PENDING as nat,
    ) + ") of pending auth requests"@
}

/// The message for a request that the user denied.
pub open spec fn denied_message(req_id: u32) -> Seq<char> {
    "Authorisation request '"@ + decimal(req_id as nat) + "' was denied"@
}

/// The message for a request whose decision channel closed without a
/// decision.
pub open spec fn abandoned_message() -> Seq<char> {
    "Failed to get authorisation response"@
}

/// The first step for the parameters of an authorise request: to decode the
/// payload that a JSON string holds, or to reject anything else.
pub open spec fn first_step(params: Value) -> StepView {
    match shape(params) {
        JsonShape::Text(payload) => StepView::Decode(payload),
        _ => failure(not_a_string_message(params)),
    }
}

/// Takes up an authorise request.
pub fn process_req(params: Value) -> (step: AuthorisationStep)
    ensures
        step@ == first_step(params),
{
    match as_text(&params) {
        Some(payload) => AuthorisationStep::Decode(String::from_str(payload)),
        None => {
            let shown = debug_text(&params);
            AuthorisationStep::Reply(
                Err(join("Incorrect params for 'authorise' method: ", shown.as_str())),
            )
        },
    }
}

/// The request as it waits in the registry, before the subscribers are told.
pub open spec fn pending_entry(
    request: AppAuthRequest,
    submitted_at: SystemTime,
    decision_sender: Sender<bool>,
) -> PendingAuthRequest {
    PendingAuthRequest {
        req_id: request.req_id,
        app_id: request.app_id,
        app_name: request.app_name,
        app_vendor: request.app_vendor,
        submitted_at,
        decision_sender,
        notified: false,
    }
}

/// Whether a registry has room for one more request.
pub open spec fn has_room(pending: Map<u32, PendingAuthRequest>) -> bool {
    pending.len() < MAX_PENDING
}

/// The registry after the request of a registered application arrived:
/// with the request under its identifier where there was room, unchanged
/// where there was none.
pub open spec fn registry_after_admission(
    pending: Map<u32, PendingAuthRequest>,
    entry: PendingAuthRequest,
) -> Map<u32, PendingAuthRequest> {
    if has_room(pending) {
        pending.insert(entry.req_id, entry)
    } else {
        pending
    }
}

/// Admits the request of a registered application with the clock's reading
/// and the two ends of a decision channel: where the registry has room, the
/// request enters it with the sending end and the daemon waits on the
/// receiving end; where it has none, the request is rejected, the registry
/// stays as it was, and both ends are dropped.
pub fn enqueue(
    auth_reqs: &mut PendingRegistry,
    request: AppAuthRequest,
    auth_req: String,
    submitted_at: SystemTime,
    decision_sender: Sender<bool>,
    decisions: Receiver<bool>,
) -> (step: AuthorisationStep)
    requires
        old(auth_reqs).wf(),
    ensures
        final(auth_reqs).wf(),
        final(auth_reqs)@ == registry_after_admission(
            old(auth_reqs)@,
            pending_entry(request, submitted_at, decision_sender),
        ),
        has_room(old(auth_reqs)@) ==> step@ == (StepView::AwaitDecision {
            decisions,
            req_id: request.req_id,
            auth_req: auth_req@,
        }),
        !has_room(old(auth_reqs)@) ==> step@ == failure(capacity_message(request.req_id)),
{
    let req_id = request.req_id;
    let entry = PendingAuthRequest {
        req_id,
        app_id: request.app_id,
        app_name: request.app_name,
        app_vendor: request.app_vendor,
        submitted_at,
        decision_sender,
        notified: false,
    };
    match auth_reqs.insert(req_id, entry) {
        Ok(()) => AuthorisationStep::AwaitDecision { decisions, req_id, auth_req },
        Err(_) => AuthorisationStep::Reply(Err(capacity_error(req_id))),
    }
}

fn capacity_error(req_id: u32) -> (message: String)
    ensures
        message@ == capacity_message(req_id),
{
    let id = decimal_string(req_id as u64);
    let limit = decimal_string(MAX_PENDING as u64);
    let mut message = surround(
        "Authorisation request '",
        id.as_str(),
        "' is rejected by authd since it reached its maximum number (",
    );
    message.append(limit.as_str());
    message.append(") of pending auth requests");
    message
}

/// Decides what follows the authenticator's answer to a decoding.
///
/// A payload that did not decode is rejected with the authenticator's own
/// message. The request of an unregistered application is to be authorised
/// at once and never enters the registry. That of a registered application
/// enters the registry, stamped with the clock's reading and holding the
/// sending end of a new decision channel, and the daemon is to wait on the
/// receiving end; where the registry is full it is rejected instead and the
/// registry stays as it was.
pub fn handle_authorisation(
    auth_req: String,
    decoded: Result<DecodedRequest, String>,
    auth_reqs: &mut PendingRegistry,
) -> (step: AuthorisationStep)
    requires
        old(auth_reqs).wf(),
    ensures
        final(auth_reqs).wf(),
        match decoded {
            Err(reason) => step@ == failure(reason@) && final(auth_reqs)@ == old(auth_reqs)@,
            Ok(DecodedRequest::Unregistered) => {
                &&& step@ == StepView::Authorise(auth_req@)
                &&& final(auth_reqs)@ == old(auth_reqs)@
            },
            Ok(DecodedRequest::Registered(request)) => {
                if has_room(old(auth_reqs)@) {
                    &&& step matches AuthorisationStep::AwaitDecision {
                        decisions,
                        req_id,
                        auth_req: payload,
                    }
                    &&& req_id == request.req_id
                    &&& payload@ == auth_req@
                    &&& final(auth_reqs)@.contains_key(request.req_id)
                    &&& final(auth_reqs)@ == old(auth_reqs)@.insert(
                        request.req_id,
                        final(auth_reqs)@[request.req_id],
                    )
                    &&& final(auth_reqs)@[request.req_id] == pending_entry(
                        request,
                        final(auth_reqs)@[request.req_id].submitted_at,
                        final(auth_reqs)@[request.req_id].decision_sender,
                    )
                } else {
                    &&& step@ == failure(capacity_message(request.req_id))
                    &&& final(auth_reqs)@ == old(auth_reqs)@
                }
            },
        },
{
    match decoded {
        Err(reason) => AuthorisationStep::Reply(Err(reason)),
        Ok(DecodedRequest::Unregistered) => AuthorisationStep::Authorise(auth_req),
        Ok(DecodedRequest::Registered(request)) => {
            if auth_reqs.len() >= MAX_PENDING {
                AuthorisationStep::Reply(Err(capacity_error(request.req_id)))
            } else {
                let (decision_sender, decisions) = decision_channel(DECISION_CHANNEL_CAPACITY);
                let submitted_at = now();
                enqueue(auth_reqs, request, auth_req, submitted_at, decision_sender, decisions)
            }
        },
    }
}

/// The step that follows what came out of a request's decision channel: an
/// approval has the payload authorised, a denial and a channel that closed
/// without a decision end the request with their messages.
pub open spec fn decision_step(decision: Option<bool>, req_id: u32, auth_req: Seq<char>) -> StepView {
    match decision {
        Some(true) => StepView::Authorise(auth_req),
        Some(false) => failure(denied_message(req_id)),
        None => failure(abandoned_message()),
    }
}

/// The registry after a request's decision channel gave its outcome: without
/// the request where the channel closed without a decision, unchanged after
/// an approval or a denial.
pub open spec fn registry_after_decision(
    pending: Map<u32, PendingAuthRequest>,
    decision: Option<bool>,
    req_id: u32,
) -> Map<u32, PendingAuthRequest> {
    match decision {
        None => pending.remove(req_id),
        Some(_) => pending,
    }
}

/// Decides what follows the outcome of a request's decision channel:
/// `Some` with the decision that was sent, `None` where the channel closed
/// without one.
pub fn await_authorisation_decision(
    auth_reqs: &mut PendingRegistry,
    decision: Option<bool>,
    req_id: u32,
    auth_req: String,
) -> (step: AuthorisationStep)
    requires
        old(auth_reqs).wf(),
    ensures
        final(auth_reqs).wf(),
        step@ == decision_step(decision, req_id, auth_req@),
        final(auth_reqs)@ == registry_after_decision(old(auth_reqs)@, decision, req_id),
{
    match decision {
        Some(true) => AuthorisationStep::Authorise(auth_req),
        Some(false) => {
            let id = decimal_string(req_id as u64);
            AuthorisationStep::Reply(
                Err(surround("Authorisation request '", id.as_str(), "' was denied")),
            )
        },
        None => {
            auth_reqs.remove(req_id);
            AuthorisationStep::Reply(Err(String::from_str("Failed to get authorisation response")))
        },
    }
}

/// The reply that follows the authenticator's answer to an authorisation:
/// its response as a JSON string, or its error message as it is.
pub open spec fn authorised_step(outcome: Result<Seq<char>, Seq<char>>) -> StepView {
    match outcome {
        Ok(response) => success(response),
        Err(reason) => failure(reason),
    }
}

/// Ends a request with the authenticator's answer to its authorisation.
pub fn authorised(outcome: Result<String, String>) -> (step: AuthorisationStep)
    ensures
        step@ == authorised_step(crate::text::reply_view(outcome)),
{
    match outcome {
        Ok(response) => AuthorisationStep::Reply(Ok(text_value(response))),
        Err(reason) => AuthorisationStep::Reply(Err(reason)),
    }
}

/// The registry after the requests of registered applications arrived one
/// after the other.
pub open spec fn after_admissions(
    pending: Map<u32, PendingAuthRequest>,
    arrivals: Seq<PendingAuthRequest>,
) -> Map<u32, PendingAuthRequest>
    decreases arrivals.len(),
{
    if arrivals.len() == 0 {
        pending
    } else {
        registry_after_admission(after_admissions(pending, arrivals.drop_last()), arrivals.last())
    }
}

/// Whatever requests arrive, and in whatever number, the registry never
/// holds more than [`MAX_PENDING`] of them.
pub proof fn lemma_admissions_keep_bound(
    pending: Map<u32, PendingAuthRequest>,
    arrivals: Seq<PendingAuthRequest>,
)
    requires
        pending.dom().finite(),
        pending.len() <= MAX_PENDING,
    ensures
        after_admissions(pending, arrivals).dom().finite(),
        after_admissions(pending, arrivals).len() <= MAX_PENDING,
    decreases arrivals.len(),
{
    if arrivals.len() > 0 {
        lemma_admissions_keep_bound(pending, arrivals.drop_last());
    }
}

/// Requests with different identifiers that arrive at an empty registry, no
/// more of them than it has room for, are all admitted.
pub proof fn lemma_distinct_admissions_fill(arrivals: Seq<PendingAuthRequest>)
    requires
        arrivals.len() <= MAX_PENDING,
        forall|i: int, j: int|
            0 <= i < j < arrivals.len() ==> arrivals[i].req_id != arrivals[j].req_id,
    ensures
        after_admissions(Map::empty(), arrivals).dom().finite(),
        after_admissions(Map::empty(), arrivals).len() == arrivals.len(),
        forall|i: int|
            0 <= i < arrivals.len() ==> after_admissions(Map::empty(), arrivals).contains_key(
                #[trigger] arrivals[i].req_id,
            ) && after_admissions(Map::empty(), arrivals)[arrivals[i].req_id] == arrivals[i],
        forall|req_id: u32| #[trigger]
            after_admissions(Map::empty(), arrivals).contains_key(req_id) ==> exists|i: int|
                0 <= i < arrivals.len() && arrivals[i].req_id == req_id,
    decreases arrivals.len(),
{
    if arrivals.len() > 0 {
        let earlier = arrivals.drop_last();
        lemma_distinct_admissions_fill(earlier);
        let before = after_admissions(Map::empty(), earlier);
        let last = arrivals.last();
        assert(!before.contains_key(last.req_id)) by {
            if before.contains_key(last.req_id) {
                let i = choose|i: int| 0 <= i < earlier.len() && earlier[i].req_id == last.req_id;
                assert(arrivals[i].req_id == arrivals[arrivals.len() - 1].req_id);
            }
        }
        let after = after_admissions(Map::empty(), arrivals);
        assert(after == before.insert(last.req_id, last));
        assert forall|i: int| 0 <= i < arrivals.len() implies after.contains_key(
            #[trigger] arrivals[i].req_id,
        ) && after[arrivals[i].req_id] == arrivals[i] by {
            if i < earlier.len() {
                assert(earlier[i] == arrivals[i]);
                assert(before.contains_key(earlier[i].req_id));
            }
        }
        assert forall|req_id: u32| #[trigger] after.contains_key(req_id) implies exists|i: int|
            0 <= i < arrivals.len() && arrivals[i].req_id == req_id by {
            if req_id == last.req_id {
                assert(arrivals[arrivals.len() - 1].req_id == req_id);
            } else {
                assert(before.contains_key(req_id));
                let i = choose|i: int| 0 <= i < earlier.len() && earlier[i].req_id == req_id;
                assert(arrivals[i].req_id == req_id);
            }
        }
    }
}

/// Once as many requests with different identifiers as the registry has room
/// for have been admitted, one more is rejected and the registry stays as it
/// was: with every one of those requests and without the new one, unless its
/// identifier is that of one of them.
pub proof fn lemma_admission_beyond_bound_rejected(
    arrivals: Seq<PendingAuthRequest>,
    extra: PendingAuthRequest,
)
    requires
        arrivals.len() == MAX_PENDING,
        forall|i: int, j: int|
            0 <= i < j < arrivals.len() ==> arrivals[i].req_id != arrivals[j].req_id,
    ensures
        !has_room(after_admissions(Map::empty(), arrivals)),
        after_admissions(Map::empty(), arrivals.push(extra)) == after_admissions(
            Map::empty(),
            arrivals,
        ),
        after_admissions(Map::empty(), arrivals).len() == MAX_PENDING,
        (forall|i: int| 0 <= i < arrivals.len() ==> arrivals[i].req_id != extra.req_id)
            ==> !after_admissions(Map::empty(), arrivals).contains_key(extra.req_id),
{
    lemma_distinct_admissions_fill(arrivals);
    assert(arrivals.push(extra).drop_last() =~= arrivals);
}

/// The payloads that the steps ask the authenticator to authorise, in order.
pub open spec fn authorisations(steps: Seq<StepView>) -> Seq<Seq<char>>
    decreases steps.len(),
{
    if steps.len() == 0 {
        Seq::empty()
    } else {
        match steps.last() {
            StepView::Authorise(payload) => authorisations(steps.drop_last()).push(payload),
            _ => authorisations(steps.drop_last()),
        }
    }
}

/// The steps of a request from the outcome of its decision channel on: the
/// step that the outcome decides and, where that is an authorisation, the
/// reply that follows the authenticator's answer to it.
pub open spec fn steps_after_decision(
    decision: Option<bool>,
    req_id: u32,
    auth_req: Seq<char>,
    outcome: Result<Seq<char>, Seq<char>>,
) -> Seq<StepView> {
    if decision_step(decision, req_id, auth_req) is Authorise {
        seq![decision_step(decision, req_id, auth_req), authorised_step(outcome)]
    } else {
        seq![decision_step(decision, req_id, auth_req)]
    }
}

/// An approval has the authenticator asked once to authorise, and with the
/// payload as it was submitted; a denial and a channel that closed without a
/// decision have it not asked at all. This holds whatever the authenticator
/// answers.
pub proof fn lemma_decision_decides_authorisation(
    decision: Option<bool>,
    req_id: u32,
    auth_req: Seq<char>,
    outcome: Result<Seq<char>, Seq<char>>,
)
    ensures
        decision == Some(true) ==> authorisations(
            steps_after_decision(decision, req_id, auth_req, outcome),
        ) == seq![auth_req],
        decision != Some(true) ==> authorisations(
            steps_after_decision(decision, req_id, auth_req, outcome),
        ) == Seq::<Seq<char>>::empty(),
        steps_after_decision(decision, req_id, auth_req, outcome).last() is Reply,
{
    let steps = steps_after_decision(decision, req_id, auth_req, outcome);
    if decision == Some(true) {
        let first = steps.drop_last();
        assert(first =~= seq![StepView::Authorise(auth_req)]);
        assert(first.drop_last() =~= Seq::<StepView>::empty());
        assert(authorisations(first.drop_last()) == Seq::<Seq<char>>::empty());
        assert(authorisations(first) =~= seq![auth_req]);
        assert(authorisations(steps) == authorisations(first));
    } else {
        assert(steps.drop_last() =~= Seq::<StepView>::empty());
        assert(authorisations(steps.drop_last()) == Seq::<Seq<char>>::empty());
    }
}

/// Where the request is no longer in the registry when its channel closes,
/// abandoning it leaves the registry as it was.
pub proof fn lemma_abandonment_of_absent_request(pending: Map<u32, PendingAuthRequest>, req_id: u32)
    requires
        !pending.contains_key(req_id),
    ensures
        registry_after_decision(pending, None, req_id) == pending,
{
    assert(pending.remove(req_id) =~= pending);
}

/// A request whose channel closed without a decision is in the registry no
/// longer, whether or not it still was when the channel closed.
pub proof fn lemma_abandoned_request_is_gone(pending: Map<u32, PendingAuthRequest>, req_id: u32)
    ensures
        !registry_after_decision(pending, None, req_id).contains_key(req_id),
{
}

} // verus!
