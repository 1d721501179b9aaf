//! Ingestion: what to do with an event posted to a handler's URL.
//!
//! The pipeline is: known handler, signature (where the handler has a key),
//! body as JSON, filters, routes, envelope. Its outcome is an action for the
//! caller: answer with an error, answer without publishing, or publish.

use crate::crd::HandlerModel;
use crate::filter::{
    filter_models, filters_pass, route, route_models, route_to_topic, should_process_event,
    FilterFailure,
};
use crate::handler_id::{handler_publish_key, publish_key};
use crate::handlers::{auth_failure, authenticate, rightly_signed, HeaderEntry, HeaderModel};
use crate::json::{
    json_document, lemma_object_view, parse_json, parsed_model, JsonModel, JsonValue,
};
use crate::signature::unix_now;
use crate::state::HandlerConfig;
use crate::text::str_equal;
use vstd::prelude::*;
use vstd::string::StringExecFns;

verus! {

/// The body of a success answer.
#[derive(Debug)]
pub struct WebhookResponse {
    pub success: bool,
    pub message: String,
}

/// The body of an error answer.
#[derive(Debug)]
pub struct ErrorResponse {
    pub error: String,
}

/// The envelope published for an accepted event.
#[derive(Debug)]
pub struct KafkaMessage {
    /// The request's headers: each name once, with its last value.
    pub headers: Vec<(String, String)>,
    /// The event: the request body as JSON, or `{"raw": <body>}`.
    pub body: JsonValue,
    /// When the event was received, as an RFC 3339 timestamp.
    pub received_at: String,
}

/// The mathematical value of a [`KafkaMessage`].
pub ghost struct EnvelopeModel {
    pub headers: Seq<(Seq<char>, Seq<char>)>,
    pub body: JsonModel,
    pub received_at: Seq<char>,
}

impl View for KafkaMessage {
    type V = EnvelopeModel;

    open spec fn view(&self) -> EnvelopeModel {
        EnvelopeModel {
            headers: self.headers.deep_view(),
            body: self.body@,
            received_at: self.received_at@,
        }
    }
}

/// What the caller is to do with a request.
#[derive(Debug)]
pub enum WebhookAction {
    /// Answer with this status and error; publish nothing.
    Reject { status: u16, error: ErrorResponse },
    /// Answer 200 with this body; publish nothing.
    Discard(WebhookResponse),
    /// Publish `message` to `topic` under `key`, then answer by
    /// [`finish_webhook`].
    Publish { topic: String, key: String, message: KafkaMessage },
}

/// The mathematical value of a [`WebhookAction`].
pub ghost enum WebhookPlan {
    Reject { status: u16, error: Seq<char> },
    Discard { success: bool, message: Seq<char> },
    Publish { topic: Seq<char>, key: Seq<char>, envelope: EnvelopeModel },
}

impl View for WebhookAction {
    type V = WebhookPlan;

    open spec fn view(&self) -> WebhookPlan {
        match self {
            WebhookAction::Reject { status, error } => WebhookPlan::Reject {
                status: *status,
                error: error.error@,
            },
            WebhookAction::Discard(response) => WebhookPlan::Discard {
                success: response.success,
                message: response.message@,
            },
            WebhookAction::Publish { topic, key, message } => WebhookPlan::Publish {
                topic: topic@,
                key: key@,
                envelope: message@,
            },
        }
    }
}

/// Whether no header after `headers[i]` has its name.
pub open spec fn is_last_of_name(headers: Seq<HeaderModel>, i: int) -> bool {
    forall|j: int| i < j < headers.len() ==> (#[trigger] headers[j]).name != headers[i].name
}

/// The text that the envelope holds for a header value: the value itself,
/// or nothing where it is no text.
pub open spec fn value_text(value: Option<Seq<char>>) -> Seq<char> {
    match value {
        Some(text) => text,
        None => Seq::empty(),
    }
}

/// The headers of the envelope: of the headers of one name, the last one;
/// each with its value as text.
pub open spec fn envelope_headers(headers: Seq<HeaderModel>) -> Seq<(Seq<char>, Seq<char>)>
    decreases headers.len(),
{
    if headers.len() == 0 {
        Seq::empty()
    } else {
        let rest = envelope_headers(headers.skip(1));
        if is_last_of_name(headers, 0) {
            seq![(headers[0].name, value_text(headers[0].value))] + rest
        } else {
            rest
        }
    }
}

/// Whether `entry` is the name and the text of a header that is the last of
/// its name.
pub open spec fn is_last_header(headers: Seq<HeaderModel>, entry: (Seq<char>, Seq<char>)) -> bool {
    exists|i: int|
        0 <= i < headers.len() && is_last_of_name(headers, i) && entry == (
            (#[trigger] headers[i]).name,
            value_text(headers[i].value),
        )
}

/// Whether `entries` holds an entry for `name`.
pub open spec fn has_name(entries: Seq<(Seq<char>, Seq<char>)>, name: Seq<char>) -> bool {
    exists|k: int| 0 <= k < entries.len() && (#[trigger] entries[k]).0 == name
}

/// The envelope holds each header name of the request once, with the text
/// of the last header of that name.
pub proof fn lemma_envelope_headers(headers: Seq<HeaderModel>)
    ensures
        forall|k: int|
            0 <= k < envelope_headers(headers).len() ==> is_last_header(
                headers,
                #[trigger] envelope_headers(headers)[k],
            ),
        forall|i: int|
            0 <= i < headers.len() ==> has_name(
                envelope_headers(headers),
                (#[trigger] headers[i]).name,
            ),
        forall|j: int, k: int|
            0 <= j < k < envelope_headers(headers).len() ==> (#[trigger] envelope_headers(
                headers,
            )[j]).0 != (#[trigger] envelope_headers(headers)[k]).0,
    decreases headers.len(),
{
    if headers.len() > 0 {
        let rest = headers.skip(1);
        let tail = envelope_headers(rest);
        let all = envelope_headers(headers);
        let first = (headers[0].name, value_text(headers[0].value));
        let kept = is_last_of_name(headers, 0);
        let shift: int = if kept {
            1
        } else {
            0
        };
        lemma_envelope_headers(rest);
        assert forall|k: int| 0 <= k < tail.len() implies all[k + shift] == tail[k] by {}
        // an entry of the tail stands for a header that is the last of its name
        assert forall|k: int| 0 <= k < tail.len() implies is_last_header(
            headers,
            #[trigger] tail[k],
        ) by {
            assert(is_last_header(rest, tail[k]));
            let i = choose|i: int|
                0 <= i < rest.len() && is_last_of_name(rest, i) && tail[k] == (
                    (#[trigger] rest[i]).name,
                    value_text(rest[i].value),
                );
            assert(rest[i] == headers[i + 1]);
            assert forall|j: int| i + 1 < j < headers.len() implies (#[trigger] headers[j]).name
                != headers[i + 1].name by {
                assert(rest[j - 1] == headers[j]);
            }
            assert(is_last_of_name(headers, i + 1));
        }
        assert forall|k: int| 0 <= k < all.len() implies is_last_header(headers, #[trigger] all[k]) by {
            if kept && k == 0 {
                assert(all[0] == first);
            } else {
                assert(all[k] == tail[k - shift]);
            }
        }
        assert forall|i: int| 0 <= i < headers.len() implies has_name(
            all,
            (#[trigger] headers[i]).name,
        ) by {
            if i == 0 && kept {
                assert(all[0].0 == headers[0].name);
            } else {
                // some header of the rest has this name
                let j: int = if i == 0 {
                    choose|j: int| 0 < j < headers.len() && (#[trigger] headers[j]).name == headers[0].name
                } else {
                    i
                };
                assert(rest[j - 1] == headers[j]);
                assert(has_name(tail, rest[j - 1].name));
                let k = choose|k: int| 0 <= k < tail.len() && (#[trigger] tail[k]).0 == rest[j - 1].name;
                assert(all[k + shift] == tail[k]);
            }
        }
        assert forall|j: int, k: int| 0 <= j < k < all.len() implies (#[trigger] all[j]).0 != (
            #[trigger] all[k]).0 by {
            if kept && j == 0 {
                assert(all[k] == tail[k - 1]);
                assert(is_last_header(rest, tail[k - 1]));
                let i = choose|i: int|
                    0 <= i < rest.len() && is_last_of_name(rest, i) && tail[k - 1] == (
                        (#[trigger] rest[i]).name,
                        value_text(rest[i].value),
                    );
                assert(rest[i] == headers[i + 1]);
            } else {
                assert(all[j] == tail[j - shift]);
                assert(all[k] == tail[k - shift]);
            }
        }
    }
}

/// The event that a request body stands for: the JSON it parses to, or an
/// object with the one member `raw` that holds the body as a string.
pub open spec fn embedded_body(body: Seq<char>, parsed: Option<JsonModel>) -> JsonModel {
    match parsed {
        Some(value) => value,
        None => JsonModel::Object(seq![("raw"@, JsonModel::Str(body))]),
    }
}

/// The signing key of an optional routing-table entry, where it has one.
pub open spec fn signing_key(handler: Option<&HandlerConfig>) -> Option<Seq<char>> {
    match handler {
        Some(config) => config@.signature_key,
        None => None,
    }
}

/// The value of an optional routing-table entry.
pub open spec fn handler_model(handler: Option<&HandlerConfig>) -> Option<HandlerModel> {
    match handler {
        Some(config) => Some(config@),
        None => None,
    }
}

/// What becomes of an authenticated event of the handler `id`.
pub open spec fn event_plan(
    config: HandlerModel,
    id: u128,
    headers: Seq<HeaderModel>,
    event: JsonModel,
    received_at: Seq<char>,
) -> WebhookPlan {
    let verdict = match config.filters {
        Some(filters) => filters_pass(event, filters),
        None => Ok(true),
    };
    match verdict {
        Err(e) => WebhookPlan::Reject { status: 500, error: "Filter error: "@ + e.message() },
        Ok(false) => WebhookPlan::Discard {
            success: true,
            message: "Event filtered, not sent to Kafka"@,
        },
        Ok(true) => {
            let routed = match config.routes {
                Some(routes) => route(event, routes),
                None => Ok(None),
            };
            match routed {
                Err(e) => WebhookPlan::Reject {
                    status: 500,
                    error: "Routing error: "@ + e.message(),
                },
                Ok(choice) => WebhookPlan::Publish {
                    topic: match choice {
                        Some(topic) => topic,
                        None => config.topic,
                    },
                    key: publish_key(id),
                    envelope: EnvelopeModel {
                        headers: envelope_headers(headers),
                        body: event,
                        received_at,
                    },
                },
            }
        },
    }
}

/// What becomes of a request to the URL of the handler `id`, received at
/// `received_at`, judged at the time `now`. `handler` is the routing
/// table's entry for `id`; `parsed` is the body as JSON, where it is JSON.
pub open spec fn webhook_plan(
    handler: Option<HandlerModel>,
    id: u128,
    headers: Seq<HeaderModel>,
    body: Seq<char>,
    parsed: Option<JsonModel>,
    now: i64,
    received_at: Seq<char>,
) -> WebhookPlan {
    match handler {
        None => WebhookPlan::Reject { status: 404, error: "Handler not found"@ },
        Some(config) => {
            let denied = match config.signature_key {
                Some(key) => auth_failure(key, headers, body, now),
                None => None,
            };
            match denied {
                Some(failure) => WebhookPlan::Reject { status: 401, error: failure.text() },
                None => event_plan(config, id, headers, embedded_body(body, parsed), received_at),
            }
        },
    }
}

/// Reads the clock with `chrono::Utc::now().to_rfc3339()`.
///
/// Trusted, with nothing claimed of the text. The call panics on a machine
/// whose clock is set before 1970.
#[verifier::external_body]
fn rfc3339_now() -> String {
    chrono::Utc::now().to_rfc3339()
}

/// The headers for the envelope.
pub fn collect_headers(headers: &Vec<HeaderEntry>) -> (out: Vec<(String, String)>)
    ensures
        out.deep_view() == envelope_headers(headers.deep_view()),
{
    let ghost models = headers.deep_view();
    let n = headers.len();
    let mut out: Vec<(String, String)> = Vec::new();
    let mut i: usize = 0;
    assert(models.skip(0) == models);
    assert(out.deep_view() =~= Seq::<(Seq<char>, Seq<char>)>::empty());
    while i < n
        invariant
            n == headers.len(),
            i <= n,
            models == headers.deep_view(),
            envelope_headers(models) == out.deep_view() + envelope_headers(models.skip(i as int)),
        decreases n - i,
    {
        let ghost rest = models.skip(i as int);
        let mut last = true;
        let mut j: usize = i + 1;
        while j < n
            invariant
                n == headers.len(),
                i < j <= n,
                models == headers.deep_view(),
                last <==> forall|k: int| i < k < j ==> (#[trigger] models[k]).name != models[i as int].name,
            decreases n - j,
        {
            assert(models[j as int] == headers@[j as int]@);
            assert(models[i as int] == headers@[i as int]@);
            if str_equal(headers[j].name.as_str(), headers[i].name.as_str()) {
                last = false;
            }
            j = j + 1;
        }
        proof {
            assert(models[i as int] == headers@[i as int]@);
            assert(rest.skip(1) == models.skip(i + 1));
            assert(last == is_last_of_name(rest, 0)) by {
                if last {
                    assert forall|k: int| 0 < k < rest.len() implies (#[trigger] rest[k]).name
                        != rest[0].name by {
                        assert(rest[k] == models[i + k]);
                    }
                }
                if is_last_of_name(rest, 0) {
                    assert forall|k: int| i < k < n implies (#[trigger] models[k]).name
                        != models[i as int].name by {
                        assert(rest[k - i] == models[k]);
                    }
                }
            }
        }
        if last {
            let value = match &headers[i].value {
                Some(text) => text.clone(),
                None => String::new(),
            };
            let ghost before = out.deep_view();
            out.push((headers[i].name.clone(), value));
            proof {
                assert(out.deep_view() =~= before.push(
                    (rest[0].name, value_text(rest[0].value)),
                ));
                assert(before + (seq![(rest[0].name, value_text(rest[0].value))]
                    + envelope_headers(rest.skip(1))) =~= before.push(
                    (rest[0].name, value_text(rest[0].value)),
                ) + envelope_headers(rest.skip(1)));
            }
        }
        i = i + 1;
    }
    assert(envelope_headers(models.skip(n as int)) =~= Seq::<(Seq<char>, Seq<char>)>::empty());
    assert(out.deep_view() + Seq::<(Seq<char>, Seq<char>)>::empty() =~= out.deep_view());
    out
}

/// The event for a request body: the parsed JSON where there is one, else
/// the body wrapped as `{"raw": <body>}`.
pub fn embed_body(body: &str, parsed: Option<JsonValue>) -> (event: JsonValue)
    ensures
        event@ == embedded_body(body@, parsed_model(parsed)),
{
    match parsed {
        Some(value) => value,
        None => {
            let mut members: Vec<(String, JsonValue)> = Vec::new();
            members.push((String::from_str("raw"), JsonValue::Str(String::from_str(body))));
            proof {
                lemma_object_view(members);
                assert(JsonValue::Object(members)@->Object_0 =~= seq![
                    ("raw"@, JsonModel::Str(body@)),
                ]);
            }
            JsonValue::Object(members)
        },
    }
}

fn refuse(status: u16, error: &str) -> (action: WebhookAction)
    ensures
        action@ == (WebhookPlan::Reject { status, error: error@ }),
{
    WebhookAction::Reject { status, error: ErrorResponse { error: String::from_str(error) } }
}

fn reject(status: u16, prefix: &str, detail: &str) -> (action: WebhookAction)
    ensures
        action@ == (WebhookPlan::Reject { status, error: prefix@ + detail@ }),
{
    let mut error = String::from_str(prefix);
    error.append(detail);
    WebhookAction::Reject { status, error: ErrorResponse { error } }
}

/// Decides on an authenticated event: filters, routes, envelope.
pub fn plan_event(
    config: &HandlerConfig,
    id: u128,
    headers: &Vec<HeaderEntry>,
    event: JsonValue,
    received_at: String,
) -> (action: WebhookAction)
    ensures
        action@ == event_plan(config@, id, headers.deep_view(), event@, received_at@),
{
    match &config.filters {
        Some(filters) => {
            assert(filters.deep_view() =~= filter_models(filters@));
            match should_process_event(&event, filters.as_slice()) {
                Err(e) => {
                    let detail = e.message();
                    return reject(500, "Filter error: ", detail.as_str());
                },
                Ok(false) => {
                    return WebhookAction::Discard(
                        WebhookResponse {
                            success: true,
                            message: String::from_str("Event filtered, not sent to Kafka"),
                        },
                    );
                },
                Ok(true) => {},
            }
        },
        None => {},
    }
    let topic = match &config.routes {
        Some(routes) => {
            assert(routes.deep_view() =~= route_models(routes@));
            match route_to_topic(&event, routes.as_slice()) {
                Err(e) => {
                    let detail = e.message();
                    return reject(500, "Routing error: ", detail.as_str());
                },
                Ok(Some(routed)) => routed,
                Ok(None) => config.topic.clone(),
            }
        },
        None => config.topic.clone(),
    };
    WebhookAction::Publish {
        topic,
        key: handler_publish_key(id),
        message: KafkaMessage { headers: collect_headers(headers), body: event, received_at },
    }
}

/// Decides on a request to the URL of the handler `id`, given the time at
/// which its signature is judged and the time it was received.
///
/// `handler` is the routing table's entry for `id`, `None` where it has
/// none. `parsed` is the request body as JSON, `None` where it is no JSON.
pub fn plan_webhook(
    handler: Option<&HandlerConfig>,
    id: u128,
    headers: &Vec<HeaderEntry>,
    body: &str,
    parsed: Option<JsonValue>,
    now: i64,
    received_at: String,
) -> (action: WebhookAction)
    ensures
        action@ == webhook_plan(
            handler_model(handler),
            id,
            headers.deep_view(),
            body@,
            parsed_model(parsed),
            now,
            received_at@,
        ),
{
    let config = match handler {
        Some(config) => config,
        None => {
            return refuse(404, "Handler not found");
        },
    };
    match &config.signature_key {
        Some(key) => match authenticate(key.as_str(), headers, body, now) {
            Some(failure) => {
                return refuse(401, failure.message());
            },
            None => {},
        },
        None => {},
    }
    plan_event(config, id, headers, embed_body(body, parsed), received_at)
}

/// Decides on a request to the URL of the handler `id`, received now.
///
/// The time of receipt is taken first. The clock is read once more where
/// the handler has a signing key, to judge the signature; the body is read
/// as JSON once the request is authenticated. The decision is that of
/// [`plan_webhook`] for those readings.
pub fn handle_webhook(
    handler: Option<&HandlerConfig>,
    id: u128,
    headers: &Vec<HeaderEntry>,
    body: &str,
) -> (action: WebhookAction)
    ensures
        exists|now: i64, received_at: Seq<char>|
            action@ == #[trigger] webhook_plan(
                handler_model(handler),
                id,
                headers.deep_view(),
                body@,
                json_document(body@),
                now,
                received_at,
            ),
        handler is None ==> action@ == (WebhookPlan::Reject {
            status: 404,
            error: "Handler not found"@,
        }),
        action@ matches WebhookPlan::Publish { key, envelope, .. } ==> key == publish_key(id)
            && envelope.body == embedded_body(body@, json_document(body@)),
        signing_key(handler) is Some && !rightly_signed(
            signing_key(handler)->Some_0,
            headers.deep_view(),
            body@,
        ) ==> action@ is Reject && action@->Reject_status == 401,
{
    let received_at = rfc3339_now();
    let ghost stamp = received_at@;
    let ghost model = handler_model(handler);
    let ghost document = json_document(body@);
    let config = match handler {
        Some(config) => config,
        None => {
            let action = refuse(404, "Handler not found");
            assert(action@ == webhook_plan(model, id, headers.deep_view(), body@, document, 0, stamp));
            return action;
        },
    };
    let ghost mut judged_at: i64 = 0;
    match &config.signature_key {
        Some(key) => {
            let now = unix_now();
            proof {
                judged_at = now;
            }
            match authenticate(key.as_str(), headers, body, now) {
                Some(failure) => {
                    let action = refuse(401, failure.message());
                    assert(action@ == webhook_plan(
                        model,
                        id,
                        headers.deep_view(),
                        body@,
                        document,
                        now,
                        stamp,
                    ));
                    return action;
                },
                None => {},
            }
        },
        None => {},
    }
    let action = plan_event(config, id, headers, embed_body(body, parse_json(body)), received_at);
    assert(action@ == webhook_plan(
        model,
        id,
        headers.deep_view(),
        body@,
        document,
        judged_at,
        stamp,
    ));
    action
}

/// How the publish of an accepted event ended.
#[derive(Debug, Clone, Copy, PartialEq, Eq, Structural)]
pub enum PublishOutcome {
    Sent,
    /// The envelope could not be written as JSON.
    NotSerialized,
    /// The broker did not take the message within the deadline.
    NotSent,
}

/// The answer to an event once its publish has ended: 200 and the topic
/// where it was sent, else 500.
pub fn finish_webhook(topic: &str, outcome: PublishOutcome) -> (r: Result<
    WebhookResponse,
    (u16, ErrorResponse),
>)
    ensures
        match outcome {
            PublishOutcome::Sent => r matches Ok(response) && response.success
                && response.message@ == "Webhook sent to topic: "@ + topic@,
            PublishOutcome::NotSerialized => r matches Err(e) && e.0 == 500 && e.1.error@
                == "Failed to process message"@,
            PublishOutcome::NotSent => r matches Err(e) && e.0 == 500 && e.1.error@
                == "Failed to send to Kafka"@,
        },
{
    match outcome {
        PublishOutcome::Sent => {
            let mut message = String::from_str("Webhook sent to topic: ");
            message.append(topic);
            Ok(WebhookResponse { success: true, message })
        },
        PublishOutcome::NotSerialized => Err(
            (500, ErrorResponse { error: String::from_str("Failed to process message") }),
        ),
        PublishOutcome::NotSent => Err(
            (500, ErrorResponse { error: String::from_str("Failed to send to Kafka") }),
        ),
    }
}

/// An event is published only for a known handler, and never when a filter
/// of the handler is false on it.
pub proof fn lemma_publish_needs_handler_and_filters(
    handler: Option<HandlerModel>,
    id: u128,
    headers: Seq<HeaderModel>,
    body: Seq<char>,
    parsed: Option<JsonModel>,
    now: i64,
    received_at: Seq<char>,
)
    requires
        webhook_plan(handler, id, headers, body, parsed, now, received_at) is Publish,
    ensures
        handler is Some,
        handler->Some_0.filters matches Some(filters) ==> filters_pass(
            embedded_body(body, parsed),
            filters,
        ) == Ok::<bool, FilterFailure>(true),
        webhook_plan(handler, id, headers, body, parsed, now, received_at)->Publish_key
            == publish_key(id),
        webhook_plan(handler, id, headers, body, parsed, now, received_at)->Publish_envelope.body
            == embedded_body(body, parsed),
{
}

/// Any two events that are published for one handler carry the same key,
/// whatever else differs between the two requests.
pub proof fn lemma_same_handler_same_key(
    id: u128,
    first_handler: Option<HandlerModel>,
    first_headers: Seq<HeaderModel>,
    first_body: Seq<char>,
    first_parsed: Option<JsonModel>,
    first_now: i64,
    first_received_at: Seq<char>,
    second_handler: Option<HandlerModel>,
    second_headers: Seq<HeaderModel>,
    second_body: Seq<char>,
    second_parsed: Option<JsonModel>,
    second_now: i64,
    second_received_at: Seq<char>,
)
    requires
        webhook_plan(
            first_handler,
            id,
            first_headers,
            first_body,
            first_parsed,
            first_now,
            first_received_at,
        ) is Publish,
        webhook_plan(
            second_handler,
            id,
            second_headers,
            second_body,
            second_parsed,
            second_now,
            second_received_at,
        ) is Publish,
    ensures
        webhook_plan(
            first_handler,
            id,
            first_headers,
            first_body,
            first_parsed,
            first_now,
            first_received_at,
        )->Publish_key == webhook_plan(
            second_handler,
            id,
            second_headers,
            second_body,
            second_parsed,
            second_now,
            second_received_at,
        )->Publish_key,
{
}

/// A request for an identity that the routing table does not hold is
/// answered 404.
pub proof fn lemma_unknown_handler_not_found(
    id: u128,
    headers: Seq<HeaderModel>,
    body: Seq<char>,
    parsed: Option<JsonModel>,
    now: i64,
    received_at: Seq<char>,
)
    ensures
        webhook_plan(None, id, headers, body, parsed, now, received_at) == (WebhookPlan::Reject {
            status: 404,
            error: "Handler not found"@,
        }),
{
}

/// An event for a handler without signing key, filters and routes is
/// published to the handler's topic under the handler's key, with the body
/// as the event.
pub proof fn lemma_plain_handler_publishes(
    config: HandlerModel,
    id: u128,
    headers: Seq<HeaderModel>,
    body: Seq<char>,
    parsed: Option<JsonModel>,
    now: i64,
    received_at: Seq<char>,
)
    requires
        config.signature_key is None,
        config.filters is None,
        config.routes is None,
    ensures
        webhook_plan(Some(config), id, headers, body, parsed, now, received_at)
            == (WebhookPlan::Publish {
            topic: config.topic,
            key: publish_key(id),
            envelope: EnvelopeModel {
                headers: envelope_headers(headers),
                body: embedded_body(body, parsed),
                received_at,
            },
        }),
{
}

/// An authenticated event on which a filter of the handler is false is
/// answered 200 with the notice that it was filtered, and is not published.
pub proof fn lemma_filtered_event_discarded(
    config: HandlerModel,
    id: u128,
    headers: Seq<HeaderModel>,
    event: JsonModel,
    received_at: Seq<char>,
)
    requires
        config.filters matches Some(filters) && filters_pass(event, filters) == Ok::<
            bool,
            FilterFailure,
        >(false),
    ensures
        event_plan(config, id, headers, event, received_at) == (WebhookPlan::Discard {
            success: true,
            message: "Event filtered, not sent to Kafka"@,
        }),
{
}

/// An authenticated event that passes the filters is published to the topic
/// that the routes pick, and to the handler's default topic where no route
/// matches.
pub proof fn lemma_routed_event_topic(
    config: HandlerModel,
    id: u128,
    headers: Seq<HeaderModel>,
    event: JsonModel,
    received_at: Seq<char>,
)
    requires
        config.filters matches Some(filters) ==> filters_pass(event, filters) == Ok::<
            bool,
            FilterFailure,
        >(true),
        config.routes matches Some(routes) && route(event, routes) is Ok,
    ensures
        event_plan(config, id, headers, event, received_at) is Publish,
        event_plan(config, id, headers, event, received_at)->Publish_topic == match route(
            event,
            config.routes->Some_0,
        )->Ok_0 {
            Some(topic) => topic,
            None => config.topic,
        },
{
}

/// A handler with a signing key takes no request whose signature is not
/// the one expected under that key for the request's timestamp and body:
/// the answer is 401 whatever the clock reads, and nothing is published.
pub proof fn lemma_wrong_signature_rejected(
    config: HandlerModel,
    id: u128,
    headers: Seq<HeaderModel>,
    body: Seq<char>,
    parsed: Option<JsonModel>,
    now: i64,
    received_at: Seq<char>,
)
    requires
        config.signature_key matches Some(key) && !rightly_signed(key, headers, body),
    ensures
        webhook_plan(Some(config), id, headers, body, parsed, now, received_at) matches WebhookPlan::Reject {
            status,
            ..
        } && status == 401,
{
}

/// A handler with a signing key takes no request that fails
/// authentication: the answer is 401 and nothing is published.
pub proof fn lemma_unauthenticated_rejected(
    config: HandlerModel,
    id: u128,
    headers: Seq<HeaderModel>,
    body: Seq<char>,
    parsed: Option<JsonModel>,
    now: i64,
    received_at: Seq<char>,
)
    requires
        config.signature_key matches Some(key) && auth_failure(key, headers, body, now) is Some,
    ensures
        webhook_plan(Some(config), id, headers, body, parsed, now, received_at) matches WebhookPlan::Reject {
            status,
            ..
        } && status == 401,
{
}

} // verus!
