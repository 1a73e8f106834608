//! Unsubscribing an endpoint from the notifications of pending requests.

use crate::json::{as_text, debug_text, json_debug, shape, text_value, JsonShape};
use crate::subscribers::SubscriberRegistry;
use crate::text::{join, reply_view, surround};
use serde_json::Value;
use vstd::prelude::*;
use vstd::string::*;

verus! {

/// The message for parameters that are no string.
pub open spec fn not_a_string_message(params: Value) -> Seq<char> {
    "Incorrect params for 'unsubscribe' method: "@ + json_debug(params)
}

/// The confirmation that an endpoint is no longer subscribed.
pub open spec fn unsubscribed_message(endpoint: Seq<char>) -> Seq<char> {
    "Unsubscription successful. Endpoint '"@ + endpoint
        + "' will no longer receive authorisation requests notifications"@
}

/// The message for an endpoint that is not subscribed.
pub open spec fn not_subscribed_message(endpoint: Seq<char>) -> Seq<char> {
    "Unsubscription request ignored, no such the endpoint URL ('"@ + endpoint
        + "') was found to be subscribed"@
}

/// The endpoint that the parameters of an unsubscribe request name, or the
/// message that says what is wrong with them.
pub open spec fn parsed(params: Value) -> Result<Seq<char>, Seq<char>> {
    match shape(params) {
        JsonShape::Text(endpoint) => Ok(endpoint),
        _ => Err(not_a_string_message(params)),
    }
}

/// Reads the parameters of an unsubscribe request.
pub fn parse_params(params: &Value) -> (r: Result<String, String>)
    ensures
        reply_view(r) == parsed(*params),
{
    match as_text(params) {
        Some(endpoint) => Ok(String::from_str(endpoint)),
        None => {
            let shown = debug_text(params);
            Err(join("Incorrect params for 'unsubscribe' method: ", shown.as_str()))
        },
    }
}

/// The reply to the unsubscription of `url` at a registry. The URL is looked
/// up exactly as given.
pub open spec fn outcome(endpoints: Map<Seq<char>, Seq<char>>, url: Seq<char>) -> Result<
    Seq<char>,
    Seq<char>,
> {
    if endpoints.contains_key(url) {
        Ok(unsubscribed_message(url))
    } else {
        Err(not_subscribed_message(url))
    }
}

/// Unsubscribes an endpoint.
pub fn unsubscribe(endpoints: &mut SubscriberRegistry, url: &str) -> (r: Result<String, String>)
    requires
        old(endpoints).wf(),
    ensures
        final(endpoints).wf(),
        reply_view(r) == outcome(old(endpoints)@, url@),
        final(endpoints)@ == old(endpoints)@.remove(url@),
{
    match endpoints.remove(url) {
        Some(_) => Ok(
            surround(
                "Unsubscription successful. Endpoint '",
                url,
                "' will no longer receive authorisation requests notifications",
            ),
        ),
        None => Err(
            surround(
                "Unsubscription request ignored, no such the endpoint URL ('",
                url,
                "') was found to be subscribed",
            ),
        ),
    }
}

/// Handles an unsubscribe request: reads the parameters, unsubscribes the
/// endpoint and wraps the confirmation in a JSON string.
pub fn process_req(params: Value, notif_endpoints: &mut SubscriberRegistry) -> (r: Result<
    Value,
    String,
>)
    requires
        old(notif_endpoints).wf(),
    ensures
        final(notif_endpoints).wf(),
        match parsed(params) {
            Err(message) => {
                &&& r matches Err(e)
                &&& e@ == message
                &&& final(notif_endpoints)@ == old(notif_endpoints)@
            },
            Ok(url) => {
                &&& final(notif_endpoints)@ == old(notif_endpoints)@.remove(url)
                &&& match outcome(old(notif_endpoints)@, url) {
                    Ok(confirmation) => r matches Ok(v) && shape(v) == JsonShape::Text(
                        confirmation,
                    ),
                    Err(message) => r matches Err(e) && e@ == message,
                }
            },
        },
{
    match parse_params(&params) {
        Err(message) => Err(message),
        Ok(url) => {
            match unsubscribe(notif_endpoints, url.as_str()) {
                Ok(confirmation) => Ok(text_value(confirmation)),
                Err(message) => Err(message),
            }
        },
    }
}

/// Unsubscribing a URL that is not subscribed fails and leaves the registry
/// as it was.
pub proof fn lemma_unsubscribe_absent(endpoints: Map<Seq<char>, Seq<char>>, url: Seq<char>)
    requires
        !endpoints.contains_key(url),
    ensures
        outcome(endpoints, url) == Err::<Seq<char>, Seq<char>>(not_subscribed_message(url)),
        endpoints.remove(url) == endpoints,
{
    assert(endpoints.remove(url) =~= endpoints);
}

/// Unsubscribing a URL that is subscribed succeeds and removes that entry and
/// no other: the URL is gone, every other entry is as it was, and the
/// registry is one entry smaller.
pub proof fn lemma_unsubscribe_present(endpoints: Map<Seq<char>, Seq<char>>, url: Seq<char>)
    requires
        endpoints.dom().finite(),
        endpoints.contains_key(url),
    ensures
        outcome(endpoints, url) == Ok::<Seq<char>, Seq<char>>(unsubscribed_message(url)),
        !endpoints.remove(url).contains_key(url),
        forall|other: Seq<char>|
            other != url ==> (endpoints.remove(url).contains_key(other) <==> endpoints.contains_key(
                other,
            )),
        forall|other: Seq<char>|
            other != url && endpoints.contains_key(other) ==> endpoints.remove(url)[other]
                == endpoints[other],
        endpoints.remove(url).len() == endpoints.len() - 1,
{
}

} // verus!
