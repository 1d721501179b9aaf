//! The declarative handler configuration: what a handler resource's `spec`
//! and `status` hold, with the mathematical value of each type.

use vstd::prelude::*;

verus! {

/// One value-to-topic rule of a [`Route`].
#[derive(Debug)]
pub struct RouteMapping {
    /// Value to match (e.g., "account123")
    pub value: String,
    /// Topic to route to when matched
    pub topic: String,
}

/// The mathematical value of a [`RouteMapping`].
pub ghost struct RouteMappingModel {
    pub value: Seq<char>,
    pub topic: Seq<char>,
}

impl View for RouteMapping {
    type V = RouteMappingModel;

    open spec fn view(&self) -> RouteMappingModel {
        RouteMappingModel { value: self.value@, topic: self.topic@ }
    }
}

impl DeepView for RouteMapping {
    type V = RouteMappingModel;

    open spec fn deep_view(&self) -> RouteMappingModel {
        self@
    }
}

impl Clone for RouteMapping {
    fn clone(&self) -> (r: Self)
        ensures
            r@ == self@,
    {
        RouteMapping { value: self.value.clone(), topic: self.topic.clone() }
    }
}

/// A routing rule: the value found at `path` picks a topic through `mapping`.
#[derive(Debug)]
pub struct Route {
    /// Path expression to extract the value for routing (e.g., "$.payload.account_id")
    pub path: String,
    /// Mapping of values to topics, tried in order
    pub mapping: Vec<RouteMapping>,
}

/// The mathematical value of a [`Route`].
pub ghost struct RouteModel {
    pub path: Seq<char>,
    pub mapping: Seq<RouteMappingModel>,
}

impl View for Route {
    type V = RouteModel;

    open spec fn view(&self) -> RouteModel {
        RouteModel { path: self.path@, mapping: self.mapping.deep_view() }
    }
}

impl DeepView for Route {
    type V = RouteModel;

    open spec fn deep_view(&self) -> RouteModel {
        self@
    }
}

impl Clone for Route {
    fn clone(&self) -> (r: Self)
        ensures
            r@ == self@,
    {
        let mapping = self.mapping.clone();
        assert(mapping.deep_view() =~= self.mapping.deep_view());
        Route { path: self.path.clone(), mapping }
    }
}

/// The value(s) a [`Filter`] compares against.
#[derive(Debug)]
pub enum FilterValue {
    String(String),
    StringArray(Vec<String>),
    Number(i64),
    NumberArray(Vec<i64>),
}

/// The mathematical value of a [`FilterValue`].
pub ghost enum FilterValueModel {
    String(Seq<char>),
    StringArray(Seq<Seq<char>>),
    Number(i64),
    NumberArray(Seq<i64>),
}

impl View for FilterValue {
    type V = FilterValueModel;

    open spec fn view(&self) -> FilterValueModel {
        match self {
            FilterValue::String(s) => FilterValueModel::String(s@),
            FilterValue::StringArray(v) => FilterValueModel::StringArray(v.deep_view()),
            FilterValue::Number(n) => FilterValueModel::Number(*n),
            FilterValue::NumberArray(v) => FilterValueModel::NumberArray(v@),
        }
    }
}

impl Clone for FilterValue {
    fn clone(&self) -> (r: Self)
        ensures
            r@ == self@,
    {
        match self {
            FilterValue::String(s) => FilterValue::String(s.clone()),
            FilterValue::StringArray(v) => {
                let copy = v.clone();
                assert(copy.deep_view() =~= v.deep_view());
                FilterValue::StringArray(copy)
            },
            FilterValue::Number(n) => FilterValue::Number(*n),
            FilterValue::NumberArray(v) => {
                let copy = v.clone();
                assert(copy@ =~= v@);
                FilterValue::NumberArray(copy)
            },
        }
    }
}

/// A predicate on the event body.
#[derive(Debug)]
pub struct Filter {
    /// Path expression to extract the value (e.g., "$.payload.account_id")
    pub path: String,
    /// Operator: "equals", "not_equals", "in", "not_in", "contains", "not_contains"
    pub operator: String,
    /// Value(s) to compare against
    pub value: FilterValue,
}

/// The mathematical value of a [`Filter`].
pub ghost struct FilterModel {
    pub path: Seq<char>,
    pub operator: Seq<char>,
    pub value: FilterValueModel,
}

impl View for Filter {
    type V = FilterModel;

    open spec fn view(&self) -> FilterModel {
        FilterModel { path: self.path@, operator: self.operator@, value: self.value@ }
    }
}

impl DeepView for Filter {
    type V = FilterModel;

    open spec fn deep_view(&self) -> FilterModel {
        self@
    }
}

impl Clone for Filter {
    fn clone(&self) -> (r: Self)
        ensures
            r@ == self@,
    {
        Filter {
            path: self.path.clone(),
            operator: self.operator.clone(),
            value: self.value.clone(),
        }
    }
}

/// The `spec` of a handler resource.
#[derive(Debug)]
pub struct WebhookHandlerSpec {
    /// Default topic for events that don't match any routing rules
    pub topic: String,
    /// Key for the per-handler request signature, if one is required
    pub signature_key: Option<String>,
    /// Optional filters to discard events
    pub filters: Option<Vec<Filter>>,
    /// Optional routing rules to send events to different topics
    pub routes: Option<Vec<Route>>,
}

/// What a handler is configured to do, as mathematical data. The resource's
/// `spec` and the routing table's entry share this value.
pub ghost struct HandlerModel {
    pub topic: Seq<char>,
    pub signature_key: Option<Seq<char>>,
    pub filters: Option<Seq<FilterModel>>,
    pub routes: Option<Seq<RouteModel>>,
}

impl View for WebhookHandlerSpec {
    type V = HandlerModel;

    open spec fn view(&self) -> HandlerModel {
        HandlerModel {
            topic: self.topic@,
            signature_key: self.signature_key.deep_view(),
            filters: self.filters.deep_view(),
            routes: self.routes.deep_view(),
        }
    }
}

impl Clone for WebhookHandlerSpec {
    fn clone(&self) -> (r: Self)
        ensures
            r@ == self@,
    {
        WebhookHandlerSpec {
            topic: self.topic.clone(),
            signature_key: self.signature_key.clone(),
            filters: clone_filters(&self.filters),
            routes: clone_routes(&self.routes),
        }
    }
}

/// A copy of an optional filter list.
pub fn clone_filters(filters: &Option<Vec<Filter>>) -> (r: Option<Vec<Filter>>)
    ensures
        r.deep_view() == filters.deep_view(),
{
    match filters {
        Some(list) => {
            let copy = list.clone();
            assert(copy.deep_view() =~= list.deep_view());
            Some(copy)
        },
        None => None,
    }
}

/// A copy of an optional route list.
pub fn clone_routes(routes: &Option<Vec<Route>>) -> (r: Option<Vec<Route>>)
    ensures
        r.deep_view() == routes.deep_view(),
{
    match routes {
        Some(list) => {
            let copy = list.clone();
            assert(copy.deep_view() =~= list.deep_view());
            Some(copy)
        },
        None => None,
    }
}

/// The `status` of a handler resource.
#[derive(Debug)]
pub struct WebhookHandlerStatus {
    pub handler_url: Option<String>,
    pub ready: bool,
}

/// The mathematical value of a [`WebhookHandlerStatus`].
pub ghost struct StatusModel {
    pub handler_url: Option<Seq<char>>,
    pub ready: bool,
}

impl View for WebhookHandlerStatus {
    type V = StatusModel;

    open spec fn view(&self) -> StatusModel {
        StatusModel { handler_url: self.handler_url.deep_view(), ready: self.ready }
    }
}

impl Default for WebhookHandlerStatus {
    fn default() -> (r: Self)
        ensures
            r@ == (StatusModel { handler_url: None, ready: false }),
    {
        WebhookHandlerStatus { handler_url: None, ready: false }
    }
}

impl Clone for WebhookHandlerStatus {
    fn clone(&self) -> (r: Self)
        ensures
            r@ == self@,
    {
        WebhookHandlerStatus { handler_url: self.handler_url.clone(), ready: self.ready }
    }
}

/// A handler resource as the cluster holds it: its name and namespace, the
/// declared `spec`, and the `status` set when it was created.
#[derive(Debug)]
pub struct WebhookHandler {
    pub name: Option<String>,
    pub namespace: Option<String>,
    pub spec: WebhookHandlerSpec,
    pub status: Option<WebhookHandlerStatus>,
}

/// The mathematical value of a [`WebhookHandler`].
pub ghost struct ResourceModel {
    pub name: Option<Seq<char>>,
    pub namespace: Option<Seq<char>>,
    pub spec: HandlerModel,
    pub status: Option<StatusModel>,
}

impl View for WebhookHandler {
    type V = ResourceModel;

    open spec fn view(&self) -> ResourceModel {
        ResourceModel {
            name: self.name.deep_view(),
            namespace: self.namespace.deep_view(),
            spec: self.spec@,
            status: match self.status {
                Some(status) => Some(status@),
                None => None,
            },
        }
    }
}

} // verus!
