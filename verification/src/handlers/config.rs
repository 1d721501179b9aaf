//! The admin endpoint: what to do with a request to create a handler.

use crate::crd::{
    Filter, HandlerModel, ResourceModel, Route, StatusModel, WebhookHandler, WebhookHandlerSpec,
    WebhookHandlerStatus,
};
use crate::handler_id::{
    handler_id_of_name, handler_name, handler_resource_name, handler_url, handler_webhook_url,
    random_uuid, uuid_text,
};
use crate::handlers::{
    auth_failure, authenticate, header_text, rightly_signed, HeaderEntry, HeaderModel,
};
use crate::signature::{unix_now, within_skew};
use crate::text::parse_i64;
use vstd::prelude::*;
use vstd::string::StringExecFns;

verus! {

/// The body of a request to create a handler.
#[derive(Debug)]
pub struct ConfigRequest {
    pub topic: String,
    pub signature_key: Option<String>,
    pub filters: Option<Vec<Filter>>,
    pub routes: Option<Vec<Route>>,
}

impl View for ConfigRequest {
    type V = HandlerModel;

    open spec fn view(&self) -> HandlerModel {
        HandlerModel {
            topic: self.topic@,
            signature_key: self.signature_key.deep_view(),
            filters: self.filters.deep_view(),
            routes: self.routes.deep_view(),
        }
    }
}

/// The body of the answer for a created handler.
#[derive(Debug)]
pub struct ConfigResponse {
    pub handler_id: u128,
    pub webhook_url: String,
}

/// The body of an error answer.
#[derive(Debug)]
pub struct ErrorResponse {
    pub error: String,
}

/// A handler that is to be created: the resource for the cluster, and the
/// answer to give once the cluster has taken it.
#[derive(Debug)]
pub struct NewHandler {
    pub resource: WebhookHandler,
    pub response: ConfigResponse,
}

/// The decision on a request to create a handler: the answer that refuses
/// it, or the resource to create with the identity and the URL to answer.
pub ghost enum CreationPlan {
    Reject { status: u16, error: Seq<char> },
    Create { resource: ResourceModel, id: u128, url: Seq<char> },
}

/// The value of a decision.
pub open spec fn creation_model(r: Result<NewHandler, (u16, ErrorResponse)>) -> CreationPlan {
    match r {
        Err(e) => CreationPlan::Reject { status: e.0, error: e.1.error@ },
        Ok(new) => CreationPlan::Create {
            resource: new.resource@,
            id: new.response.handler_id,
            url: new.response.webhook_url@,
        },
    }
}

/// The handler `id` with the configuration `spec`, as it is created in
/// `namespace`: the resource named `handler-<id>`, whose status is ready and
/// holds the handler's URL, and that URL for the answer.
pub open spec fn created(
    external_url: Seq<char>,
    namespace: Seq<char>,
    spec: HandlerModel,
    id: u128,
) -> CreationPlan {
    CreationPlan::Create {
        resource: ResourceModel {
            name: Some(handler_name(id)),
            namespace: Some(namespace),
            spec,
            status: Some(
                StatusModel { handler_url: Some(handler_url(external_url, id)), ready: true },
            ),
        },
        id,
        url: handler_url(external_url, id),
    }
}

/// The value of a parsed request.
pub open spec fn request_model(request: Result<ConfigRequest, String>) -> Result<
    HandlerModel,
    Seq<char>,
> {
    match request {
        Ok(request) => Ok(request@),
        Err(reason) => Err(reason@),
    }
}

/// Whether a request to create a handler is taken, judged at the time
/// `now`: the configuration it asks for, or the answer that refuses it.
pub open spec fn admission(
    api_signing_key: Seq<char>,
    headers: Seq<HeaderModel>,
    body: Seq<char>,
    request: Result<HandlerModel, Seq<char>>,
    now: i64,
) -> Result<HandlerModel, (u16, Seq<char>)> {
    match auth_failure(api_signing_key, headers, body, now) {
        Some(failure) => Err((401u16, failure.text())),
        None => match request {
            Err(reason) => Err((400u16, "Invalid request body: "@ + reason)),
            Ok(spec) => Ok(spec),
        },
    }
}

/// What becomes of a request to create a handler, judged at the time `now`,
/// with `id` as the identity drawn for it: 401 unless it is authenticated
/// under the admin key, 400 unless its body is a handler configuration,
/// else the handler `id` with that configuration.
pub open spec fn creation_plan(
    api_signing_key: Seq<char>,
    external_url: Seq<char>,
    namespace: Seq<char>,
    headers: Seq<HeaderModel>,
    body: Seq<char>,
    request: Result<HandlerModel, Seq<char>>,
    now: i64,
    id: u128,
) -> CreationPlan {
    match admission(api_signing_key, headers, body, request, now) {
        Err(refusal) => CreationPlan::Reject { status: refusal.0, error: refusal.1 },
        Ok(spec) => created(external_url, namespace, spec, id),
    }
}

/// Judges a request to create a handler at the time `now`: it has to be
/// authenticated under the admin key, and its body has to be a handler
/// configuration.
pub fn admit_request(
    api_signing_key: &str,
    headers: &Vec<HeaderEntry>,
    body: &str,
    request: Result<ConfigRequest, String>,
    now: i64,
) -> (r: Result<ConfigRequest, (u16, ErrorResponse)>)
    ensures
        match r {
            Ok(taken) => admission(
                api_signing_key@,
                headers.deep_view(),
                body@,
                request_model(request),
                now,
            ) == Ok::<HandlerModel, (u16, Seq<char>)>(taken@),
            Err(e) => admission(
                api_signing_key@,
                headers.deep_view(),
                body@,
                request_model(request),
                now,
            ) == Err::<HandlerModel, (u16, Seq<char>)>((e.0, e.1.error@)),
        },
{
    match authenticate(api_signing_key, headers, body, now) {
        Some(failure) => {
            return Err((401, ErrorResponse { error: String::from_str(failure.message()) }));
        },
        None => {},
    }
    match request {
        Ok(request) => Ok(request),
        Err(reason) => {
            let mut error = String::from_str("Invalid request body: ");
            error.append(reason.as_str());
            Err((400, ErrorResponse { error }))
        },
    }
}

/// The handler `id` with the configuration `request`: its resource, named
/// `handler-<id>`, ready, and with its URL in the status; and the answer
/// that tells the URL.
pub fn new_handler(external_url: &str, namespace: &str, request: ConfigRequest, id: u128) -> (new:
    NewHandler)
    ensures
        creation_model(Ok(new)) == created(external_url@, namespace@, request@, id),
        handler_id_of_name(new.resource.name.deep_view()) == Some(id),
{
    let webhook_url = handler_webhook_url(external_url, id);
    let resource = WebhookHandler {
        name: Some(handler_resource_name(id)),
        namespace: Some(String::from_str(namespace)),
        spec: WebhookHandlerSpec {
            topic: request.topic,
            signature_key: request.signature_key,
            filters: request.filters,
            routes: request.routes,
        },
        status: Some(WebhookHandlerStatus { handler_url: Some(webhook_url.clone()), ready: true }),
    };
    NewHandler { resource, response: ConfigResponse { handler_id: id, webhook_url } }
}

/// Decides on a request to create a handler, given the time at which its
/// signature is judged and the identity for the new handler.
///
/// `request` is the body read as a handler configuration, or the reason why
/// it is none.
pub fn plan_creation(
    api_signing_key: &str,
    external_url: &str,
    namespace: &str,
    headers: &Vec<HeaderEntry>,
    body: &str,
    request: Result<ConfigRequest, String>,
    now: i64,
    id: u128,
) -> (r: Result<NewHandler, (u16, ErrorResponse)>)
    ensures
        creation_model(r) == creation_plan(
            api_signing_key@,
            external_url@,
            namespace@,
            headers.deep_view(),
            body@,
            request_model(request),
            now,
            id,
        ),
        r matches Ok(new) ==> handler_id_of_name(new.resource.name.deep_view()) == Some(id),
{
    match admit_request(api_signing_key, headers, body, request, now) {
        Ok(taken) => Ok(new_handler(external_url, namespace, taken, id)),
        Err(e) => Err(e),
    }
}

/// Decides on a request to create a handler, received now.
///
/// The request is judged at the moment the clock is read; where it is
/// taken, a fresh identity is drawn for the handler. The decision is that of
/// [`plan_creation`] for that moment and that identity.
pub fn create_handler(
    api_signing_key: &str,
    external_url: &str,
    namespace: &str,
    headers: &Vec<HeaderEntry>,
    body: &str,
    request: Result<ConfigRequest, String>,
) -> (r: Result<NewHandler, (u16, ErrorResponse)>)
    ensures
        exists|now: i64, id: u128|
            creation_model(r) == #[trigger] creation_plan(
                api_signing_key@,
                external_url@,
                namespace@,
                headers.deep_view(),
                body@,
                request_model(request),
                now,
                id,
            ),
        r matches Ok(new) ==> handler_id_of_name(new.resource.name.deep_view()) == Some(
            new.response.handler_id,
        ),
        r matches Err(e) ==> e.0 == 401 || e.0 == 400,
        api_signing_key@.len() == 0 || !rightly_signed(
            api_signing_key@,
            headers.deep_view(),
            body@,
        ) ==> r is Err && r->Err_0.0 == 401,
{
    let now = unix_now();
    match admit_request(api_signing_key, headers, body, request, now) {
        Ok(taken) => {
            let id = random_uuid();
            let new = new_handler(external_url, namespace, taken, id);
            assert(creation_model(Ok(new)) == creation_plan(
                api_signing_key@,
                external_url@,
                namespace@,
                headers.deep_view(),
                body@,
                request_model(request),
                now,
                id,
            ));
            Ok(new)
        },
        Err(e) => {
            assert(creation_model(Err(e)) == creation_plan(
                api_signing_key@,
                external_url@,
                namespace@,
                headers.deep_view(),
                body@,
                request_model(request),
                now,
                0u128,
            ));
            Err(e)
        },
    }
}

/// A request that is signed under the admin key, whose timestamp is within
/// the skew window and whose body is a handler configuration creates the
/// handler: the answer carries the identity drawn for it and the URL
/// `<external_url>/handler/<identity>`, and the resource holds the
/// configuration asked for.
pub proof fn lemma_signed_request_creates_handler(
    api_signing_key: Seq<char>,
    external_url: Seq<char>,
    namespace: Seq<char>,
    headers: Seq<HeaderModel>,
    body: Seq<char>,
    spec: HandlerModel,
    now: i64,
    id: u128,
)
    requires
        api_signing_key.len() > 0,
        rightly_signed(api_signing_key, headers, body),
        parse_i64(header_text(headers, "x-timestamp"@)->Some_0) matches Some(ts) && within_skew(
            now as int,
            ts as int,
        ),
    ensures
        creation_plan(api_signing_key, external_url, namespace, headers, body, Ok(spec), now, id)
            == created(external_url, namespace, spec, id),
        created(external_url, namespace, spec, id)->Create_id == id,
        created(external_url, namespace, spec, id)->Create_url == external_url + "/handler/"@
            + uuid_text(id),
        created(external_url, namespace, spec, id)->Create_resource.spec == spec,
{
}

/// A request to create a handler whose timestamp is a number outside the
/// skew window is answered 401, whatever it is signed with.
pub proof fn lemma_stale_admin_request_rejected(
    api_signing_key: Seq<char>,
    external_url: Seq<char>,
    namespace: Seq<char>,
    headers: Seq<HeaderModel>,
    body: Seq<char>,
    request: Result<HandlerModel, Seq<char>>,
    now: i64,
    id: u128,
)
    requires
        header_text(headers, "x-timestamp"@) matches Some(timestamp) && (parse_i64(timestamp)
            matches Some(ts) && !within_skew(now as int, ts as int)),
    ensures
        creation_plan(api_signing_key, external_url, namespace, headers, body, request, now, id)
            matches CreationPlan::Reject { status, .. } && status == 401,
{
}

/// With an empty admin key no request creates a handler: every one is
/// answered 401.
pub proof fn lemma_empty_admin_key_rejects(
    external_url: Seq<char>,
    namespace: Seq<char>,
    headers: Seq<HeaderModel>,
    body: Seq<char>,
    request: Result<HandlerModel, Seq<char>>,
    now: i64,
    id: u128,
)
    ensures
        creation_plan(Seq::empty(), external_url, namespace, headers, body, request, now, id)
            matches CreationPlan::Reject { status, .. } && status == 401,
{
}

/// Why the cluster did not take a new handler.
#[derive(Debug)]
pub enum CreateFailure {
    /// No client for the cluster API could be made.
    NoClient,
    /// The cluster API refused the resource, with its words.
    Refused(String),
}

/// The answer where the cluster did not take the new handler: 500.
pub fn creation_failed(failure: &CreateFailure) -> (r: (u16, ErrorResponse))
    ensures
        r.0 == 500,
        r.1.error@ == match *failure {
            CreateFailure::NoClient => "Internal server error"@,
            CreateFailure::Refused(reason) => "Failed to create handler: "@ + reason@,
        },
{
    match failure {
        CreateFailure::NoClient => (
            500,
            ErrorResponse { error: String::from_str("Internal server error") },
        ),
        CreateFailure::Refused(reason) => {
            let mut error = String::from_str("Failed to create handler: ");
            error.append(reason.as_str());
            (500, ErrorResponse { error })
        },
    }
}

} // verus!
