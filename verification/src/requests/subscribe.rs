//! Subscribing an endpoint to the notifications of pending requests.

use crate::json::{as_list, as_text, debug_text, json_debug, shape, text_value, JsonShape};
use crate::subscribers::SubscriberRegistry;
use crate::text::{debug_quoted, decimal, decimal_string, join, reply_view, str_debug, surround};
use crate::MAX_SUBSCRIBERS;
use serde_json::Value;
use vstd::prelude::*;
use vstd::string::*;

verus! {

/// The message for parameters that are no array.
pub open spec fn not_an_array_message(params: Value) -> Seq<char> {
    "Incorrect params for 'subscribe' method: "@ + json_debug(params)
}

/// The message for an array that is empty or has more than two elements.
pub open spec fn wrong_arity_message(params: Value) -> Seq<char> {
    "Incorrect number of params for 'subscribe' method: "@ + json_debug(params)
}

/// The message for a first element that is no string.
pub open spec fn bad_endpoint_message(params: Value) -> Seq<char> {
    "Invalid endpoint URL string passed as first param for 'subscribe' method: "@ + json_debug(
        params,
    )
}

/// The message for a second element that is no string.
pub open spec fn bad_cert_path_message(params: Value) -> Seq<char> {
    "Invalid certificate base path string passed as second param for 'subscribe' method: "@
        + json_debug(params)
}

/// The message for an endpoint that is subscribed already.
pub open spec fn already_subscribed_message(endpoint: Seq<char>) -> Seq<char> {
    "Subscription rejected. Endpoint '"@ + endpoint + "' is already subscribed"@
}

/// The message for a registry that is full.
pub open spec fn capacity_message() -> Seq<char> {
    "Subscription rejected. Maximum number of subscriptions ("@ + decimal(MAX_SUBSCRIBERS as nat)
        + ") has been already reached"@
}

/// The confirmation of a subscription.
pub open spec fn subscribed_message(endpoint: Seq<char>, cert_base_path: Seq<char>) -> Seq<char> {
    "Subscription successful. Endpoint '"@ + endpoint
        + "' will receive authorisation requests notifications (cert base path: "@ + str_debug(
        cert_base_path,
    ) + ")"@
}

/// What the parameters of a subscribe request ask for: the endpoint's URL and
/// the certificate base path, which is empty where the array has one element;
/// or the message that says what is wrong with them.
pub open spec fn parsed(params: Value) -> Result<(Seq<char>, Seq<char>), Seq<char>> {
    match shape(params) {
        JsonShape::List(args) => {
            if args.len() == 0 || args.len() > 2 {
                Err(wrong_arity_message(params))
            } else {
                match shape(args[0]) {
                    JsonShape::Text(endpoint) => {
                        if args.len() == 2 {
                            match shape(args[1]) {
                                JsonShape::Text(path) => Ok((endpoint, path)),
                                _ => Err(bad_cert_path_message(params)),
                            }
                        } else {
                            Ok((endpoint, Seq::empty()))
                        }
                    },
                    _ => Err(bad_endpoint_message(params)),
                }
            }
        },
        _ => Err(not_an_array_message(params)),
    }
}

/// Reads the parameters of a subscribe request.
pub fn parse_params(params: &Value) -> (r: Result<(String, String), String>)
    ensures
        match r {
            Ok((endpoint, path)) => parsed(*params) == Ok::<(Seq<char>, Seq<char>), Seq<char>>(
                (endpoint@, path@),
            ),
            Err(message) => parsed(*params) == Err::<(Seq<char>, Seq<char>), Seq<char>>(message@),
        },
{
    match as_list(params) {
        None => {
            let shown = debug_text(params);
            Err(join("Incorrect params for 'subscribe' method: ", shown.as_str()))
        },
        Some(args) => {
            if args.len() == 0 || args.len() > 2 {
                let shown = debug_text(params);
                Err(
                    join("Incorrect number of params for 'subscribe' method: ", shown.as_str()),
                )
            } else {
                match as_text(&args[0]) {
                    None => {
                        let shown = debug_text(params);
                        Err(
                            join("Invalid endpoint URL string passed as first param for 'subscribe' method: ", shown.as_str()),
                        )
                    },
                    Some(endpoint) => {
                        if args.len() == 2 {
                            match as_text(&args[1]) {
                                None => {
                                    let shown = debug_text(params);
                                    Err(
                                        join("Invalid certificate base path string passed as second param for 'subscribe' method: ", shown.as_str()),
                                    )
                                },
                                Some(path) => Ok(
                                    (String::from_str(endpoint), String::from_str(path)),
                                ),
                            }
                        } else {
                            Ok((String::from_str(endpoint), String::new()))
                        }
                    },
                }
            }
        },
    }
}

/// An endpoint's URL as the registry keys it: without its last character where
/// that is a `/`.
pub open spec fn normalised(url: Seq<char>) -> Seq<char> {
    if url.len() > 0 && url.last() == '/' {
        url.drop_last()
    } else {
        url
    }
}

/// Strips one trailing `/` from a URL.
pub fn normalise(url: &str) -> (key: String)
    ensures
        key@ == normalised(url@),
{
    let n = url.unicode_len();
    if n > 0 && url.get_char(n - 1) == '/' {
        String::from_str(url.substring_char(0, n - 1))
    } else {
        String::from_str(url)
    }
}

/// The reply to a subscription of `url` with `cert_base_path` at a registry:
/// the confirmation, or the message that says why it is rejected. A URL that
/// is subscribed is rejected whether or not the registry is full.
pub open spec fn outcome(
    endpoints: Map<Seq<char>, Seq<char>>,
    url: Seq<char>,
    cert_base_path: Seq<char>,
) -> Result<Seq<char>, Seq<char>> {
    if endpoints.contains_key(normalised(url)) {
        Err(already_subscribed_message(normalised(url)))
    } else if endpoints.len() >= MAX_SUBSCRIBERS {
        Err(capacity_message())
    } else {
        Ok(subscribed_message(normalised(url), cert_base_path))
    }
}

/// The registry after a subscription of `url` with `cert_base_path`: with the
/// endpoint added where the subscription is accepted, unchanged where it is
/// rejected.
pub open spec fn registry_after(
    endpoints: Map<Seq<char>, Seq<char>>,
    url: Seq<char>,
    cert_base_path: Seq<char>,
) -> Map<Seq<char>, Seq<char>> {
    if outcome(endpoints, url, cert_base_path) is Ok {
        endpoints.insert(normalised(url), cert_base_path)
    } else {
        endpoints
    }
}

/// Subscribes an endpoint.
pub fn subscribe(endpoints: &mut SubscriberRegistry, url: &str, cert_base_path: &str) -> (r: Result<
    String,
    String,
>)
    requires
        old(endpoints).wf(),
    ensures
        final(endpoints).wf(),
        reply_view(r) == outcome(old(endpoints)@, url@, cert_base_path@),
        final(endpoints)@ == registry_after(old(endpoints)@, url@, cert_base_path@),
{
    let key = normalise(url);
    if endpoints.contains(key.as_str()) {
        Err(surround("Subscription rejected. Endpoint '", key.as_str(), "' is already subscribed"))
    } else if endpoints.len() >= MAX_SUBSCRIBERS {
        let limit = decimal_string(MAX_SUBSCRIBERS as u64);
        Err(
            surround(
                "Subscription rejected. Maximum number of subscriptions (",
                limit.as_str(),
                ") has been already reached",
            ),
        )
    } else {
        let mut message = surround(
            "Subscription successful. Endpoint '",
            key.as_str(),
            "' will receive authorisation requests notifications (cert base path: ",
        );
        let quoted = debug_quoted(cert_base_path);
        message.append(quoted.as_str());
        message.append(")");
        endpoints.insert(key, String::from_str(cert_base_path));
        Ok(message)
    }
}

/// Handles a subscribe request: reads the parameters, subscribes the endpoint
/// and wraps the confirmation in a JSON string.
pub fn process_req(params: Value, notif_endpoints: &mut SubscriberRegistry) -> (r: Result<
    Value,
    String,
>)
    requires
        old(notif_endpoints).wf(),
    ensures
        final(notif_endpoints).wf(),
        match parsed(params) {
            Err(message) => {
                &&& r matches Err(e)
                &&& e@ == message
                &&& final(notif_endpoints)@ == old(notif_endpoints)@
            },
            Ok((url, path)) => {
                &&& final(notif_endpoints)@ == registry_after(old(notif_endpoints)@, url, path)
                &&& match outcome(old(notif_endpoints)@, url, path) {
                    Ok(confirmation) => r matches Ok(v) && shape(v) == JsonShape::Text(
                        confirmation,
                    ),
                    Err(message) => r matches Err(e) && e@ == message,
                }
            },
        },
{
    match parse_params(&params) {
        Err(message) => Err(message),
        Ok((url, path)) => {
            match subscribe(notif_endpoints, url.as_str(), path.as_str()) {
                Ok(confirmation) => Ok(text_value(confirmation)),
                Err(message) => Err(message),
            }
        },
    }
}

/// A URL and the same URL followed by one `/` are the same key.
pub proof fn lemma_trailing_slash_is_one_key(url: Seq<char>)
    requires
        url.len() == 0 || url.last() != '/',
    ensures
        normalised(url) == url,
        normalised(url.push('/')) == url,
{
    assert(url.push('/').drop_last() =~= url);
}

/// Once a URL is subscribed in one spelling, with or without the trailing
/// `/`, a subscription in the other spelling is rejected as a duplicate and
/// leaves the registry as the first subscription made it.
pub proof fn lemma_other_spelling_is_duplicate(
    endpoints: Map<Seq<char>, Seq<char>>,
    url: Seq<char>,
    first_path: Seq<char>,
    second_path: Seq<char>,
)
    requires
        endpoints.dom().finite(),
        url.len() == 0 || url.last() != '/',
        !endpoints.contains_key(url),
        endpoints.len() < MAX_SUBSCRIBERS,
    ensures
        outcome(endpoints, url.push('/'), first_path) is Ok,
        outcome(registry_after(endpoints, url.push('/'), first_path), url, second_path) == Err::<
            Seq<char>,
            Seq<char>,
        >(already_subscribed_message(url)),
        registry_after(registry_after(endpoints, url.push('/'), first_path), url, second_path)
            == endpoints.insert(url, first_path),
        outcome(endpoints, url, first_path) is Ok,
        outcome(registry_after(endpoints, url, first_path), url.push('/'), second_path) == Err::<
            Seq<char>,
            Seq<char>,
        >(already_subscribed_message(url)),
        registry_after(registry_after(endpoints, url, first_path), url.push('/'), second_path)
            == endpoints.insert(url, first_path),
{
    lemma_trailing_slash_is_one_key(url);
}

/// A subscription never takes a registry over its bound.
pub proof fn lemma_subscription_keeps_bound(
    endpoints: Map<Seq<char>, Seq<char>>,
    url: Seq<char>,
    cert_base_path: Seq<char>,
)
    requires
        endpoints.dom().finite(),
        endpoints.len() <= MAX_SUBSCRIBERS,
    ensures
        registry_after(endpoints, url, cert_base_path).dom().finite(),
        registry_after(endpoints, url, cert_base_path).len() <= MAX_SUBSCRIBERS,
{
}

/// At a full registry a URL that is not subscribed is rejected for want of
/// room, and the registry stays as it was.
pub proof fn lemma_full_registry_rejects(
    endpoints: Map<Seq<char>, Seq<char>>,
    url: Seq<char>,
    cert_base_path: Seq<char>,
)
    requires
        endpoints.dom().finite(),
        endpoints.len() >= MAX_SUBSCRIBERS,
        !endpoints.contains_key(normalised(url)),
    ensures
        outcome(endpoints, url, cert_base_path) == Err::<Seq<char>, Seq<char>>(capacity_message()),
        registry_after(endpoints, url, cert_base_path) == endpoints,
{
}

/// Of four subscriptions of different endpoints at an empty registry the
/// first three are accepted and the fourth is rejected for want of room,
/// with the three endpoints still subscribed as they were.
pub proof fn lemma_fourth_subscription_rejected(urls: Seq<Seq<char>>, paths: Seq<Seq<char>>)
    requires
        urls.len() == 4,
        paths.len() == 4,
        forall|i: int, j: int| 0 <= i < j < 4 ==> normalised(urls[i]) != normalised(urls[j]),
    ensures
        ({
            let none = Map::<Seq<char>, Seq<char>>::empty();
            let one = registry_after(none, urls[0], paths[0]);
            let two = registry_after(one, urls[1], paths[1]);
            let three = registry_after(two, urls[2], paths[2]);
            &&& outcome(none, urls[0], paths[0]) is Ok
            &&& outcome(one, urls[1], paths[1]) is Ok
            &&& outcome(two, urls[2], paths[2]) is Ok
            &&& outcome(three, urls[3], paths[3]) == Err::<Seq<char>, Seq<char>>(
                capacity_message(),
            )
            &&& registry_after(three, urls[3], paths[3]) == three
            &&& three.len() == 3
            &&& forall|i: int|
                0 <= i < 3 ==> three.contains_key(normalised(urls[i])) && three[normalised(
                    urls[i],
                )] == paths[i]
        }),
{
    let none = Map::<Seq<char>, Seq<char>>::empty();
    let one = registry_after(none, urls[0], paths[0]);
    let two = registry_after(one, urls[1], paths[1]);
    assert(one =~= none.insert(normalised(urls[0]), paths[0]));
    assert(one.len() == 1);
    assert(!one.contains_key(normalised(urls[1])));
    assert(two.len() == 2);
    assert(!two.contains_key(normalised(urls[2])));
}

} // verus!
