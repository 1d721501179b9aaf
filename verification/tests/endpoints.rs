use webhook_operator::controller::{reconcile, Reconciled, WatchEvent};
use webhook_operator::crd::{Filter, FilterValue, Route, RouteMapping};
use webhook_operator::handlers::config::{
    admit_request, create_handler, creation_failed, new_handler, plan_creation, ConfigRequest,
    CreateFailure,
};
use webhook_operator::handlers::webhook::{
    collect_headers, embed_body, finish_webhook, handle_webhook, plan_webhook, PublishOutcome,
    WebhookAction,
};
use webhook_operator::handlers::{authenticate, find_header, AuthFailure, HeaderEntry};
use webhook_operator::json::{parse_json, JsonValue};
use webhook_operator::signature::sign;
use webhook_operator::state::{HandlerConfig, RoutingTable};

const ID: u128 = 0x550e8400_e29b_41d4_a716_446655440000;
const ID_TEXT: &str = "550e8400-e29b-41d4-a716-446655440000";

fn header(name: &str, value: &str) -> HeaderEntry {
    HeaderEntry { name: name.to_string(), value: Some(value.to_string()) }
}

fn signed_headers(key: &str, timestamp: i64, body: &str) -> Vec<HeaderEntry> {
    let timestamp = timestamp.to_string();
    let signature = sign(key, &timestamp, body).unwrap();
    vec![header("x-signature", &format!("sha256={}", signature)), header("x-timestamp", &timestamp)]
}

fn parse(body: &str) -> Option<JsonValue> {
    parse_json(body)
}

fn handler(topic: &str) -> HandlerConfig {
    HandlerConfig { topic: topic.to_string(), signature_key: None, filters: None, routes: None }
}

fn request(topic: &str) -> ConfigRequest {
    ConfigRequest { topic: topic.to_string(), signature_key: None, filters: None, routes: None }
}

fn rejected(action: &WebhookAction) -> (u16, String) {
    match action {
        WebhookAction::Reject { status, error } => (*status, error.error.clone()),
        other => panic!("not rejected: {:?}", other),
    }
}

fn published(action: WebhookAction) -> (String, String, JsonValue, Vec<(String, String)>, String) {
    match action {
        WebhookAction::Publish { topic, key, message } => {
            (topic, key, message.body, message.headers, message.received_at)
        }
        other => panic!("not published: {:?}", other),
    }
}

#[test]
fn create_then_ingest() {
    let now = chrono::Utc::now().timestamp();
    let body = r#"{"topic":"t0"}"#;
    let headers = signed_headers("admin", now, body);
    let created =
        create_handler("admin", "http://localhost:8080", "default", &headers, body, Ok(request("t0")))
            .unwrap();
    let id = created.response.handler_id;
    let id_text = uuid::Uuid::from_u128(id).to_string();
    assert_eq!(created.response.webhook_url, format!("http://localhost:8080/handler/{}", id_text));
    assert_eq!(created.resource.name, Some(format!("handler-{}", id_text)));
    assert_eq!(created.resource.namespace, Some("default".to_string()));
    assert_eq!(created.resource.spec.topic, "t0");
    let status = created.resource.status.as_ref().unwrap();
    assert!(status.ready);
    assert_eq!(status.handler_url, Some(created.response.webhook_url.clone()));
    assert_eq!(uuid::Uuid::from_u128(id).get_version_num(), 4);

    // the reconciler sees the resource
    let mut table = RoutingTable::new();
    assert_eq!(reconcile(&mut table, &WatchEvent::Applied(created.resource)), Reconciled::Upserted(id));

    // an event arrives
    let event = r#"{"k":1}"#;
    let action = handle_webhook(table.get(id), id, &[header("content-type", "application/json")].into(), event);
    let (topic, key, body, headers, received_at) = published(action);
    assert_eq!(topic, "t0");
    assert_eq!(key, id_text);
    assert_eq!(body, JsonValue::Object(vec![("k".to_string(), JsonValue::Int(1))]));
    assert_eq!(headers, vec![("content-type".to_string(), "application/json".to_string())]);
    let stamp = chrono::DateTime::parse_from_rfc3339(&received_at).unwrap();
    assert!((stamp.timestamp() - now).abs() <= 5);
}

#[test]
fn each_created_handler_has_its_own_identity() {
    let now = chrono::Utc::now().timestamp();
    let headers = signed_headers("admin", now, "{}");
    let first = create_handler("admin", "u", "ns", &headers, "{}", Ok(request("t"))).unwrap();
    let second = create_handler("admin", "u", "ns", &headers, "{}", Ok(request("t"))).unwrap();
    assert_ne!(first.response.handler_id, second.response.handler_id);
}

#[test]
fn filtered_out_event_is_not_published() {
    let mut config = handler("t0");
    config.filters = Some(vec![Filter {
        path: "$.event".to_string(),
        operator: "in".to_string(),
        value: FilterValue::StringArray(vec!["a".to_string(), "b".to_string()]),
    }]);
    let body = r#"{"event":"c"}"#;
    match handle_webhook(Some(&config), ID, &Vec::new(), body) {
        WebhookAction::Discard(response) => {
            assert!(response.success);
            assert_eq!(response.message, "Event filtered, not sent to Kafka");
        }
        other => panic!("not discarded: {:?}", other),
    }
    let body = r#"{"event":"a"}"#;
    let (topic, ..) = published(handle_webhook(Some(&config), ID, &Vec::new(), body));
    assert_eq!(topic, "t0");
}

#[test]
fn routed_event_goes_to_the_mapped_topic() {
    let mut config = handler("fallback");
    config.routes = Some(vec![Route {
        path: "$.account".to_string(),
        mapping: vec![RouteMapping { value: "A1".to_string(), topic: "acc-A1".to_string() }],
    }]);
    let body = r#"{"account":"A1"}"#;
    let (topic, key, ..) =
        published(handle_webhook(Some(&config), ID, &Vec::new(), body));
    assert_eq!(topic, "acc-A1");
    assert_eq!(key, ID_TEXT);
    let body = r#"{"account":"Z"}"#;
    let (topic, key, ..) =
        published(handle_webhook(Some(&config), ID, &Vec::new(), body));
    assert_eq!(topic, "fallback");
    assert_eq!(key, ID_TEXT);
}

#[test]
fn bad_signature_is_unauthorized() {
    let mut config = handler("t0");
    config.signature_key = Some("S".to_string());
    let now = chrono::Utc::now().timestamp();
    let body = r#"{"k":1}"#;
    let wrong = signed_headers("S2", now, body);
    let action = handle_webhook(Some(&config), ID, &wrong, body);
    assert_eq!(rejected(&action), (401, "Invalid signature".to_string()));
    let right = signed_headers("S", now, body);
    let (topic, ..) = published(handle_webhook(Some(&config), ID, &right, body));
    assert_eq!(topic, "t0");
}

#[test]
fn missing_signature_headers_are_unauthorized() {
    let mut config = handler("t0");
    config.signature_key = Some("S".to_string());
    let now = 1_700_000_000i64;
    let signed = signed_headers("S", now, "b");
    let plan = |headers: &Vec<HeaderEntry>| {
        plan_webhook(Some(&config), ID, headers, "b", None, now, "2024".to_string())
    };
    assert_eq!(rejected(&plan(&Vec::new())), (401, "Missing X-Signature header".to_string()));
    let only_signature = vec![header("x-signature", signed[0].value.as_ref().unwrap())];
    assert_eq!(rejected(&plan(&only_signature)), (401, "Missing X-Timestamp header".to_string()));
    let only_timestamp = vec![header("x-timestamp", "1700000000")];
    assert_eq!(rejected(&plan(&only_timestamp)), (401, "Missing X-Signature header".to_string()));
    let not_text = vec![
        HeaderEntry { name: "x-signature".to_string(), value: None },
        header("x-timestamp", "1700000000"),
    ];
    assert_eq!(rejected(&plan(&not_text)), (401, "Missing X-Signature header".to_string()));
    let bad_timestamp =
        vec![header("x-signature", signed[0].value.as_ref().unwrap()), header("x-timestamp", "soon")];
    assert_eq!(rejected(&plan(&bad_timestamp)), (401, "Invalid signature".to_string()));
    assert!(matches!(plan(&signed), WebhookAction::Publish { .. }));
}

#[test]
fn handler_with_an_empty_key_takes_no_request() {
    let mut config = handler("t0");
    config.signature_key = Some(String::new());
    let headers = vec![header("x-signature", "abc"), header("x-timestamp", "1000")];
    let action = plan_webhook(Some(&config), ID, &headers, "b", None, 1000, String::new());
    assert_eq!(rejected(&action), (401, "Invalid signature".to_string()));
}

#[test]
fn old_admin_timestamp_is_unauthorized() {
    let now = chrono::Utc::now().timestamp();
    let body = r#"{"topic":"t0"}"#;
    let headers = signed_headers("admin", now - 400, body);
    let error = create_handler("admin", "u", "ns", &headers, body, Ok(request("t0"))).unwrap_err();
    assert_eq!(error.0, 401);
    assert_eq!(error.1.error, "Invalid signature");
}

#[test]
fn admin_request_is_authenticated_before_its_body_is_judged() {
    let now = 1_700_000_000i64;
    let body = "not json";
    let unsigned = plan_creation(
        "admin",
        "u",
        "ns",
        &Vec::new(),
        body,
        Err("expected ident at line 1 column 2".to_string()),
        now,
        ID,
    )
    .unwrap_err();
    assert_eq!(unsigned.0, 401);
    assert_eq!(unsigned.1.error, "Missing X-Signature header");
    let signed = plan_creation(
        "admin",
        "u",
        "ns",
        &signed_headers("admin", now, body),
        body,
        Err("expected ident at line 1 column 2".to_string()),
        now,
        ID,
    )
    .unwrap_err();
    assert_eq!(signed.0, 400);
    assert_eq!(signed.1.error, "Invalid request body: expected ident at line 1 column 2");
}

#[test]
fn planned_creation_uses_the_given_identity() {
    let now = 1_700_000_000i64;
    let body = r#"{"topic":"t0","signature_key":"S"}"#;
    let mut wanted = request("t0");
    wanted.signature_key = Some("S".to_string());
    let created = plan_creation(
        "admin",
        "https://hooks.example.com",
        "webhooks",
        &signed_headers("admin", now + 300, body),
        body,
        Ok(wanted),
        now,
        ID,
    )
    .unwrap();
    assert_eq!(created.response.handler_id, ID);
    assert_eq!(
        created.response.webhook_url,
        format!("https://hooks.example.com/handler/{}", ID_TEXT)
    );
    assert_eq!(created.resource.name, Some(format!("handler-{}", ID_TEXT)));
    assert_eq!(created.resource.namespace, Some("webhooks".to_string()));
    assert_eq!(created.resource.spec.signature_key, Some("S".to_string()));
    let late = plan_creation(
        "admin",
        "u",
        "ns",
        &signed_headers("admin", now + 301, body),
        body,
        Ok(request("t0")),
        now,
        ID,
    );
    assert_eq!(late.unwrap_err().0, 401);
}

#[test]
fn creation_failures_are_server_errors() {
    let (status, error) = creation_failed(&CreateFailure::NoClient);
    assert_eq!((status, error.error.as_str()), (500, "Internal server error"));
    let (status, error) = creation_failed(&CreateFailure::Refused("already exists".to_string()));
    assert_eq!((status, error.error.as_str()), (500, "Failed to create handler: already exists"));
}

#[test]
fn unknown_handler_is_not_found() {
    let table = RoutingTable::new();
    let id = uuid::Uuid::new_v4().as_u128();
    let action = handle_webhook(table.get(id), id, &Vec::new(), "{}");
    assert_eq!(rejected(&action), (404, "Handler not found".to_string()));
}

#[test]
fn json_body_is_embedded_as_a_value_and_other_text_as_raw() {
    let json = r#"{"a":[1,"two",null,true,1.5]}"#;
    assert_eq!(
        embed_body(json, parse(json)),
        JsonValue::Object(vec![(
            "a".to_string(),
            JsonValue::Array(vec![
                JsonValue::Int(1),
                JsonValue::Str("two".to_string()),
                JsonValue::Null,
                JsonValue::Bool(true),
                JsonValue::Number("1.5".to_string()),
            ])
        )])
    );
    assert_eq!(embed_body("\"text\"", parse("\"text\"")), JsonValue::Str("text".to_string()));
    for raw in ["not json", "", "{\"a\":", "caf\u{e9} \"quoted\"\n"] {
        assert_eq!(parse(raw), None);
        assert_eq!(
            embed_body(raw, parse(raw)),
            JsonValue::Object(vec![("raw".to_string(), JsonValue::Str(raw.to_string()))])
        );
    }
}

#[test]
fn raw_body_can_be_filtered_on() {
    let mut config = handler("t0");
    config.filters = Some(vec![Filter {
        path: "$.raw".to_string(),
        operator: "contains".to_string(),
        value: FilterValue::String("ping".to_string()),
    }]);
    let (_, _, body, ..) =
        published(handle_webhook(Some(&config), ID, &Vec::new(), "a ping b"));
    assert_eq!(
        body,
        JsonValue::Object(vec![("raw".to_string(), JsonValue::Str("a ping b".to_string()))])
    );
    assert!(matches!(
        handle_webhook(Some(&config), ID, &Vec::new(), "pong"),
        WebhookAction::Discard(_)
    ));
}

#[test]
fn filter_and_route_errors_are_server_errors() {
    let mut config = handler("t0");
    config.filters = Some(vec![Filter {
        path: "$.event".to_string(),
        operator: "equals".to_string(),
        value: FilterValue::String("a".to_string()),
    }]);
    let action = handle_webhook(Some(&config), ID, &Vec::new(), "{}");
    assert_eq!(rejected(&action), (500, "Filter error: Field not found: event".to_string()));

    config.filters.as_mut().unwrap()[0].operator = "like".to_string();
    let body = r#"{"event":"a"}"#;
    let action = handle_webhook(Some(&config), ID, &Vec::new(), body);
    assert_eq!(rejected(&action), (500, "Filter error: Unknown filter operator: like".to_string()));

    let mut config = handler("t0");
    config.routes = Some(vec![Route { path: "items[9]".to_string(), mapping: Vec::new() }]);
    let body = r#"{"items":[1]}"#;
    let action = handle_webhook(Some(&config), ID, &Vec::new(), body);
    assert_eq!(rejected(&action), (500, "Routing error: Array index out of bounds: 9".to_string()));
}

#[test]
fn filters_run_before_routes() {
    let mut config = handler("t0");
    config.filters = Some(vec![Filter {
        path: "n".to_string(),
        operator: "equals".to_string(),
        value: FilterValue::Number(1),
    }]);
    config.routes = Some(vec![Route { path: "missing".to_string(), mapping: Vec::new() }]);
    let body = r#"{"n":2}"#;
    assert!(matches!(
        handle_webhook(Some(&config), ID, &Vec::new(), body),
        WebhookAction::Discard(_)
    ));
}

#[test]
fn envelope_keeps_the_last_value_of_each_header() {
    let headers = vec![
        header("accept", "a"),
        header("x-trace", "1"),
        header("accept", "b"),
        HeaderEntry { name: "x-binary".to_string(), value: None },
        header("x-trace", "2"),
        header("host", "h"),
    ];
    assert_eq!(
        collect_headers(&headers),
        vec![
            ("accept".to_string(), "b".to_string()),
            ("x-binary".to_string(), String::new()),
            ("x-trace".to_string(), "2".to_string()),
            ("host".to_string(), "h".to_string()),
        ]
    );
    assert_eq!(collect_headers(&Vec::new()), Vec::new());
    let (.., collected, received_at) = published(plan_webhook(
        Some(&handler("t0")),
        ID,
        &headers,
        "{}",
        parse("{}"),
        0,
        "2024-05-01T10:00:00+00:00".to_string(),
    ));
    assert_eq!(collected.len(), 4);
    assert_eq!(received_at, "2024-05-01T10:00:00+00:00");
}

#[test]
fn header_lookup_takes_the_first_of_a_name() {
    let headers = vec![
        header("a", "1"),
        HeaderEntry { name: "b".to_string(), value: None },
        header("a", "2"),
        header("b", "text"),
    ];
    assert_eq!(find_header(&headers, "a"), Some("1"));
    assert_eq!(find_header(&headers, "b"), None);
    assert_eq!(find_header(&headers, "c"), None);
    assert_eq!(find_header(&headers, "A"), None);
}

#[test]
fn authenticate_names_what_is_wrong() {
    let now = 1_700_000_000i64;
    let headers = signed_headers("key", now, "body");
    assert_eq!(authenticate("key", &headers, "body", now), None);
    assert_eq!(authenticate("key", &headers, "body", now + 301), Some(AuthFailure::InvalidSignature));
    assert_eq!(authenticate("other", &headers, "body", now), Some(AuthFailure::InvalidSignature));
    assert_eq!(authenticate("key", &headers, "tampered", now), Some(AuthFailure::InvalidSignature));
    assert_eq!(authenticate("", &headers, "body", now), Some(AuthFailure::InvalidSignature));
    assert_eq!(
        authenticate("key", &headers[1..].iter().map(|h| header(&h.name, h.value.as_ref().unwrap())).collect(), "body", now),
        Some(AuthFailure::MissingSignature)
    );
    assert_eq!(AuthFailure::MissingSignature.message(), "Missing X-Signature header");
    assert_eq!(AuthFailure::MissingTimestamp.message(), "Missing X-Timestamp header");
    assert_eq!(AuthFailure::InvalidSignature.message(), "Invalid signature");
}

#[test]
fn answer_after_publish() {
    let sent = finish_webhook("acc-A1", PublishOutcome::Sent).unwrap();
    assert!(sent.success);
    assert_eq!(sent.message, "Webhook sent to topic: acc-A1");
    let (status, error) = finish_webhook("t", PublishOutcome::NotSent).unwrap_err();
    assert_eq!((status, error.error.as_str()), (500, "Failed to send to Kafka"));
    let (status, error) = finish_webhook("t", PublishOutcome::NotSerialized).unwrap_err();
    assert_eq!((status, error.error.as_str()), (500, "Failed to process message"));
}

#[test]
fn parse_json_reads_documents() {
    assert_eq!(parse_json("null"), Some(JsonValue::Null));
    assert_eq!(parse_json("true"), Some(JsonValue::Bool(true)));
    assert_eq!(parse_json(" 42 "), Some(JsonValue::Int(42)));
    assert_eq!(parse_json("-9223372036854775808"), Some(JsonValue::Int(i64::MIN)));
    assert_eq!(parse_json("9223372036854775807"), Some(JsonValue::Int(i64::MAX)));
    assert_eq!(
        parse_json("9223372036854775808"),
        Some(JsonValue::Number("9223372036854775808".to_string()))
    );
    assert_eq!(parse_json("1.5"), Some(JsonValue::Number("1.5".to_string())));
    assert_eq!(parse_json("1.0"), Some(JsonValue::Number("1.0".to_string())));
    assert_eq!(parse_json("\"a\\u00e9\""), Some(JsonValue::Str("a\u{e9}".to_string())));
    assert_eq!(
        parse_json("[1,[2],{}]"),
        Some(JsonValue::Array(vec![
            JsonValue::Int(1),
            JsonValue::Array(vec![JsonValue::Int(2)]),
            JsonValue::Object(Vec::new()),
        ]))
    );
    let doc = parse_json(r#"{"b":{"c":null},"a":1}"#).unwrap();
    assert_eq!(doc.get_member("a"), Some(&JsonValue::Int(1)));
    assert_eq!(
        doc.get_member("b"),
        Some(&JsonValue::Object(vec![("c".to_string(), JsonValue::Null)]))
    );
    assert_eq!(doc.get_member("c"), None);
    for text in ["", "{", "[1,]", "{'a':1}", "nul", "1 2", "{\"a\":1}x"] {
        assert_eq!(parse_json(text), None, "{:?}", text);
    }
}

#[test]
fn parse_json_keeps_the_last_of_two_members_of_one_name() {
    let doc = parse_json(r#"{"a":1,"a":2}"#).unwrap();
    assert_eq!(doc.get_member("a"), Some(&JsonValue::Int(2)));
}

#[test]
fn admission_checks_the_signature_then_the_body() {
    let now = 1_700_000_000i64;
    let body = r#"{"topic":"t0"}"#;
    let signed = signed_headers("admin", now, body);
    let taken = admit_request("admin", &signed, body, Ok(request("t0")), now).unwrap();
    assert_eq!(taken.topic, "t0");
    let refused = admit_request("admin", &signed, body, Err("bad".to_string()), now).unwrap_err();
    assert_eq!((refused.0, refused.1.error.as_str()), (400, "Invalid request body: bad"));
    let refused = admit_request("other", &signed, body, Ok(request("t0")), now).unwrap_err();
    assert_eq!((refused.0, refused.1.error.as_str()), (401, "Invalid signature"));
    let refused = admit_request("admin", &signed, body, Ok(request("t0")), now + 400).unwrap_err();
    assert_eq!((refused.0, refused.1.error.as_str()), (401, "Invalid signature"));
    let refused = admit_request("admin", &signed[..1].iter().map(|h| header(&h.name, h.value.as_ref().unwrap())).collect(), body, Ok(request("t0")), now).unwrap_err();
    assert_eq!((refused.0, refused.1.error.as_str()), (401, "Missing X-Timestamp header"));
}

#[test]
fn new_handler_builds_the_resource_and_the_answer() {
    let mut wanted = request("orders");
    wanted.filters = Some(vec![Filter {
        path: "$.kind".to_string(),
        operator: "equals".to_string(),
        value: FilterValue::String("order".to_string()),
    }]);
    let new = new_handler("https://h.example", "prod", wanted, ID);
    assert_eq!(new.response.handler_id, ID);
    assert_eq!(new.response.webhook_url, format!("https://h.example/handler/{}", ID_TEXT));
    assert_eq!(new.resource.name.as_deref(), Some(format!("handler-{}", ID_TEXT).as_str()));
    assert_eq!(new.resource.namespace.as_deref(), Some("prod"));
    assert_eq!(new.resource.spec.topic, "orders");
    assert_eq!(new.resource.spec.filters.as_ref().unwrap().len(), 1);
    assert_eq!(new.resource.spec.filters.as_ref().unwrap()[0].path, "$.kind");
    let status = new.resource.status.unwrap();
    assert!(status.ready);
    assert_eq!(status.handler_url, Some(new.response.webhook_url));
}

#[test]
fn json_values_clone_deeply() {
    let doc = parse_json(r#"{"a":[1,{"b":"c"},null,2.5,true],"d":{}}"#).unwrap();
    let copy = doc.clone();
    assert_eq!(copy, doc);
    assert_eq!(JsonValue::Null.clone(), JsonValue::Null);
}

#[test]
fn empty_admin_key_creates_nothing() {
    let now = chrono::Utc::now().timestamp();
    let body = r#"{"topic":"t0"}"#;
    for headers in [
        Vec::new(),
        vec![header("x-signature", "sha256=00"), header("x-timestamp", &now.to_string())],
        signed_headers("admin", now, body),
    ] {
        let refused = create_handler("", "u", "ns", &headers, body, Ok(request("t0"))).unwrap_err();
        assert_eq!(refused.0, 401);
        let refused = plan_creation("", "u", "ns", &headers, body, Ok(request("t0")), now, ID)
            .unwrap_err();
        assert_eq!(refused.0, 401);
    }
}

#[test]
fn wrongly_signed_request_is_unauthorized_whatever_the_time() {
    let mut config = handler("t0");
    config.signature_key = Some("S".to_string());
    let body = "payload";
    let signed_at = 1_700_000_000i64;
    let wrong = signed_headers("S2", signed_at, body);
    for now in [i64::MIN, 0, signed_at - 301, signed_at, signed_at + 300, i64::MAX] {
        let action =
            plan_webhook(Some(&config), ID, &wrong, body, None, now, "received".to_string());
        assert_eq!(rejected(&action).0, 401, "now {}", now);
    }
}
