use authd_requests::pending::PendingRegistry;
use authd_requests::requests::authorise::{
    authorised, await_authorisation_decision, enqueue, handle_authorisation, process_req,
    AppAuthRequest, AuthorisationStep, DecodedRequest,
};
use authd_requests::MAX_PENDING;
use serde_json::{Number, Value};
use std::time::SystemTime;
use tokio::sync::mpsc::error::TryRecvError;
use tokio::sync::mpsc::Receiver;

fn text(s: &str) -> Value {
    Value::String(s.to_string())
}

fn request(req_id: u32) -> AppAuthRequest {
    AppAuthRequest {
        req_id,
        app_id: format!("net.example.app{}", req_id),
        app_name: format!("App {}", req_id),
        app_vendor: "Example".to_string(),
    }
}

fn registered(req_id: u32) -> Result<DecodedRequest, String> {
    Ok(DecodedRequest::Registered(request(req_id)))
}

fn queue(auth_reqs: &mut PendingRegistry, req_id: u32, payload: &str) -> Receiver<bool> {
    match handle_authorisation(payload.to_string(), registered(req_id), auth_reqs) {
        AuthorisationStep::AwaitDecision { decisions, req_id: id, auth_req } => {
            assert_eq!(id, req_id);
            assert_eq!(auth_req, payload);
            decisions
        }
        _ => panic!("request {} was not admitted", req_id),
    }
}

fn full_registry() -> (PendingRegistry, Vec<Receiver<bool>>) {
    let mut auth_reqs = PendingRegistry::new();
    let mut receivers = Vec::new();
    for req_id in 0..64u32 {
        receivers.push(queue(&mut auth_reqs, req_id, "payload"));
    }
    (auth_reqs, receivers)
}

fn error_of(step: AuthorisationStep) -> String {
    match step {
        AuthorisationStep::Reply(Err(message)) => message,
        _ => panic!("the step is no failure"),
    }
}

#[test]
fn authorise_string_params_are_decoded() {
    match process_req(text("bAEAAAADPVFTO")) {
        AuthorisationStep::Decode(payload) => assert_eq!(payload, "bAEAAAADPVFTO"),
        _ => panic!("the payload is not sent to decoding"),
    }
}

#[test]
fn authorise_rejects_params_that_are_no_string() {
    assert_eq!(
        error_of(process_req(Value::Null)),
        "Incorrect params for 'authorise' method: Null"
    );
    assert_eq!(
        error_of(process_req(Value::Number(Number::from(12u32)))),
        "Incorrect params for 'authorise' method: Number(12)"
    );
    assert_eq!(
        error_of(process_req(Value::Array(vec![text("payload")]))),
        "Incorrect params for 'authorise' method: Array [String(\"payload\")]"
    );
}

#[test]
fn authorise_decode_failure_is_surfaced_verbatim() {
    let mut auth_reqs = PendingRegistry::new();
    let step = handle_authorisation(
        "garbage".to_string(),
        Err("AuthenticatorError: Failed to decode request".to_string()),
        &mut auth_reqs,
    );
    assert_eq!(error_of(step), "AuthenticatorError: Failed to decode request");
    assert_eq!(auth_reqs.len(), 0);
}

#[test]
fn authorise_unregistered_is_authorised_at_once() {
    let mut auth_reqs = PendingRegistry::new();
    let _waiting = queue(&mut auth_reqs, 5, "other");
    let step = handle_authorisation(
        "unregistered-payload".to_string(),
        Ok(DecodedRequest::Unregistered),
        &mut auth_reqs,
    );
    match step {
        AuthorisationStep::Authorise(payload) => assert_eq!(payload, "unregistered-payload"),
        _ => panic!("an unregistered request must be authorised at once"),
    }
    assert_eq!(auth_reqs.len(), 1);
    assert!(auth_reqs.contains(5));
    match authorised(Ok("token-123".to_string())) {
        AuthorisationStep::Reply(reply) => assert_eq!(reply, Ok(text("token-123"))),
        _ => panic!("the authenticator's answer must end the request"),
    }
}

#[test]
fn authorise_facade_failure_is_surfaced() {
    match authorised(Err("AuthError: no Safe is unlocked".to_string())) {
        AuthorisationStep::Reply(reply) => {
            assert_eq!(reply, Err("AuthError: no Safe is unlocked".to_string()))
        }
        _ => panic!("the authenticator's answer must end the request"),
    }
}

#[test]
fn authorise_registered_request_is_queued() {
    let mut auth_reqs = PendingRegistry::new();
    let before = SystemTime::now();
    let mut decisions = queue(&mut auth_reqs, 7, "payload-7");
    let after = SystemTime::now();
    assert_eq!(auth_reqs.len(), 1);
    let entry = auth_reqs.get(7).expect("the request is in the registry");
    assert_eq!(entry.req_id, 7);
    assert_eq!(entry.app_id, "net.example.app7");
    assert_eq!(entry.app_name, "App 7");
    assert_eq!(entry.app_vendor, "Example");
    assert!(!entry.notified);
    assert!(before <= entry.submitted_at && entry.submitted_at <= after);
    assert_eq!(decisions.try_recv(), Err(TryRecvError::Empty));
}

#[test]
fn authorise_queued_sender_reaches_the_returned_receiver() {
    let mut auth_reqs = PendingRegistry::new();
    let mut first = queue(&mut auth_reqs, 1, "one");
    let mut second = queue(&mut auth_reqs, 2, "two");
    let entry = auth_reqs.remove(2).expect("the request is in the registry");
    assert!(entry.decision_sender.try_send(true).is_ok());
    assert_eq!(second.try_recv(), Ok(true));
    assert_eq!(first.try_recv(), Err(TryRecvError::Empty));
    drop(entry);
    assert_eq!(second.try_recv(), Err(TryRecvError::Disconnected));
}

#[test]
fn authorise_sixty_fifth_request_is_rejected() {
    let (mut auth_reqs, _receivers) = full_registry();
    assert_eq!(auth_reqs.len(), MAX_PENDING);
    let step = handle_authorisation("payload".to_string(), registered(99), &mut auth_reqs);
    let message = error_of(step);
    assert!(message.contains("reached its maximum number (64)"));
    assert_eq!(
        message,
        "Authorisation request '99' is rejected by authd since it reached its maximum number (64) of pending auth requests"
    );
    assert_eq!(auth_reqs.len(), 64);
    assert!(!auth_reqs.contains(99));
    for req_id in 0..64u32 {
        assert!(auth_reqs.contains(req_id));
    }
}

#[test]
fn authorise_known_id_at_full_registry_is_rejected_too() {
    let (mut auth_reqs, mut receivers) = full_registry();
    let step = handle_authorisation("payload".to_string(), registered(3), &mut auth_reqs);
    assert_eq!(
        error_of(step),
        "Authorisation request '3' is rejected by authd since it reached its maximum number (64) of pending auth requests"
    );
    assert_eq!(auth_reqs.len(), 64);
    assert_eq!(receivers[3].try_recv(), Err(TryRecvError::Empty));
}

#[test]
fn authorise_registry_never_exceeds_its_bound() {
    let mut auth_reqs = PendingRegistry::new();
    let mut receivers = Vec::new();
    let mut rejected = 0;
    for req_id in 0..200u32 {
        match handle_authorisation("payload".to_string(), registered(req_id), &mut auth_reqs) {
            AuthorisationStep::AwaitDecision { decisions, .. } => receivers.push(decisions),
            AuthorisationStep::Reply(Err(_)) => rejected += 1,
            _ => panic!("a registered request is queued or rejected"),
        }
        assert!(auth_reqs.len() <= MAX_PENDING);
    }
    assert_eq!(auth_reqs.len(), 64);
    assert_eq!(receivers.len(), 64);
    assert_eq!(rejected, 136);
}

#[test]
fn authorise_room_returns_when_a_request_leaves() {
    let (mut auth_reqs, _receivers) = full_registry();
    assert!(auth_reqs.remove(10).is_some());
    let _decisions = queue(&mut auth_reqs, 99, "payload");
    assert_eq!(auth_reqs.len(), 64);
    assert!(auth_reqs.contains(99));
    assert!(!auth_reqs.contains(10));
}

#[test]
fn authorise_same_id_again_replaces_and_abandons_the_first() {
    let mut auth_reqs = PendingRegistry::new();
    let mut first = queue(&mut auth_reqs, 4, "first");
    let mut second = queue(&mut auth_reqs, 4, "second");
    assert_eq!(auth_reqs.len(), 1);
    assert_eq!(first.try_recv(), Err(TryRecvError::Disconnected));
    assert_eq!(second.try_recv(), Err(TryRecvError::Empty));
}

#[test]
fn authorise_approval_authorises_the_submitted_payload() {
    let mut auth_reqs = PendingRegistry::new();
    let mut decisions = queue(&mut auth_reqs, 8, "payload-8");
    let entry = auth_reqs.remove(8).expect("the request is in the registry");
    assert!(entry.decision_sender.try_send(true).is_ok());
    let decision = decisions.try_recv().ok();
    assert_eq!(decision, Some(true));
    match await_authorisation_decision(&mut auth_reqs, decision, 8, "payload-8".to_string()) {
        AuthorisationStep::Authorise(payload) => assert_eq!(payload, "payload-8"),
        _ => panic!("an approval must have the payload authorised"),
    }
    match authorised(Ok("granted".to_string())) {
        AuthorisationStep::Reply(reply) => assert_eq!(reply, Ok(text("granted"))),
        _ => panic!("the authenticator's answer must end the request"),
    }
}

#[test]
fn authorise_approval_leaves_the_registry_alone() {
    let mut auth_reqs = PendingRegistry::new();
    let _a = queue(&mut auth_reqs, 1, "one");
    let _b = queue(&mut auth_reqs, 2, "two");
    let step = await_authorisation_decision(&mut auth_reqs, Some(true), 1, "one".to_string());
    assert!(matches!(step, AuthorisationStep::Authorise(_)));
    assert_eq!(auth_reqs.len(), 2);
    assert!(auth_reqs.contains(1));
}

#[test]
fn authorise_denial_names_the_request_and_asks_nothing() {
    let mut auth_reqs = PendingRegistry::new();
    let mut decisions = queue(&mut auth_reqs, 2, "payload-2");
    let entry = auth_reqs.remove(2).expect("the request is in the registry");
    assert!(entry.decision_sender.try_send(false).is_ok());
    let decision = decisions.blocking_recv();
    assert_eq!(decision, Some(false));
    let step = await_authorisation_decision(&mut auth_reqs, decision, 2, "payload-2".to_string());
    assert!(!matches!(step, AuthorisationStep::Authorise(_)));
    assert_eq!(error_of(step), "Authorisation request '2' was denied");
    assert!(!auth_reqs.contains(2));
    assert_eq!(auth_reqs.len(), 0);
}

#[test]
fn authorise_denial_of_large_id_is_written_in_full() {
    let mut auth_reqs = PendingRegistry::new();
    let step =
        await_authorisation_decision(&mut auth_reqs, Some(false), u32::MAX, "p".to_string());
    assert_eq!(error_of(step), "Authorisation request '4294967295' was denied");
    let step = await_authorisation_decision(&mut auth_reqs, Some(false), 0, "p".to_string());
    assert_eq!(error_of(step), "Authorisation request '0' was denied");
}

#[test]
fn authorise_closed_channel_abandons_and_removes_the_request() {
    let mut auth_reqs = PendingRegistry::new();
    let _other = queue(&mut auth_reqs, 1, "one");
    let _decisions = queue(&mut auth_reqs, 6, "six");
    let step = await_authorisation_decision(&mut auth_reqs, None, 6, "six".to_string());
    assert_eq!(error_of(step), "Failed to get authorisation response");
    assert!(!auth_reqs.contains(6));
    assert!(auth_reqs.contains(1));
    assert_eq!(auth_reqs.len(), 1);
}

#[test]
fn authorise_abandoning_an_absent_request_is_harmless() {
    let mut auth_reqs = PendingRegistry::new();
    let _other = queue(&mut auth_reqs, 1, "one");
    let step = await_authorisation_decision(&mut auth_reqs, None, 6, "six".to_string());
    assert_eq!(error_of(step), "Failed to get authorisation response");
    assert_eq!(auth_reqs.len(), 1);
    assert!(auth_reqs.contains(1));
}

#[test]
fn enqueue_stores_what_it_is_given() {
    let mut auth_reqs = PendingRegistry::new();
    let (sender, receiver) = tokio::sync::mpsc::channel::<bool>(1);
    let stamp = SystemTime::UNIX_EPOCH;
    let step = enqueue(&mut auth_reqs, request(11), "raw".to_string(), stamp, sender, receiver);
    let mut decisions = match step {
        AuthorisationStep::AwaitDecision { decisions, req_id, auth_req } => {
            assert_eq!(req_id, 11);
            assert_eq!(auth_req, "raw");
            decisions
        }
        _ => panic!("the request was not admitted"),
    };
    let entry = auth_reqs.remove(11).expect("the request is in the registry");
    assert_eq!(entry.submitted_at, SystemTime::UNIX_EPOCH);
    assert_eq!(entry.app_id, "net.example.app11");
    assert!(!entry.notified);
    assert!(entry.decision_sender.try_send(false).is_ok());
    assert_eq!(decisions.try_recv(), Ok(false));
}

#[test]
fn enqueue_at_full_registry_drops_the_channel() {
    let (mut auth_reqs, _receivers) = full_registry();
    let (sender, receiver) = tokio::sync::mpsc::channel::<bool>(1);
    let step = enqueue(
        &mut auth_reqs,
        request(70),
        "raw".to_string(),
        SystemTime::UNIX_EPOCH,
        sender,
        receiver,
    );
    assert_eq!(
        error_of(step),
        "Authorisation request '70' is rejected by authd since it reached its maximum number (64) of pending auth requests"
    );
    assert_eq!(auth_reqs.len(), 64);
    assert!(!auth_reqs.contains(70));
}
