//! The filter and route engines: typed predicates over a JSON event, and
//! value-to-topic routing.

use crate::crd::{
    Filter, FilterModel, FilterValue, FilterValueModel, Route, RouteMapping, RouteMappingModel,
    RouteModel,
};
use crate::json::{JsonModel, JsonValue};
pub use crate::path::extract_json_path;
use crate::path::{extract, PathError, PathFailure};
use crate::text::{chars_of, contains_chars, decimal_text, i64_text, is_substring, str_equal};
use vstd::prelude::*;
use vstd::string::StringExecFns;

verus! {

/// Why a filter list could not be evaluated.
#[derive(Debug)]
pub enum FilterError {
    /// A filter's path did not resolve.
    Path(PathError),
    /// A filter names an operator that does not exist.
    UnknownOperator(String),
}

/// The mathematical value of a [`FilterError`].
pub ghost enum FilterFailure {
    Path(PathFailure),
    UnknownOperator(Seq<char>),
}

impl View for FilterError {
    type V = FilterFailure;

    open spec fn view(&self) -> FilterFailure {
        match self {
            FilterError::Path(e) => FilterFailure::Path(e@),
            FilterError::UnknownOperator(op) => FilterFailure::UnknownOperator(op@),
        }
    }
}

impl FilterFailure {
    /// The error as a sentence.
    pub open spec fn message(self) -> Seq<char> {
        match self {
            FilterFailure::Path(e) => e.message(),
            FilterFailure::UnknownOperator(op) => "Unknown filter operator: "@ + op,
        }
    }
}

impl FilterError {
    /// The error as a sentence.
    pub fn message(&self) -> (m: String)
        ensures
            m@ == self@.message(),
    {
        match self {
            FilterError::Path(e) => e.message(),
            FilterError::UnknownOperator(op) => {
                let mut m = String::from_str("Unknown filter operator: ");
                m.append(op.as_str());
                m
            },
        }
    }
}

/// Why a route list could not be evaluated: a route's path did not resolve.
#[derive(Debug)]
pub struct RouteError {
    pub cause: PathError,
}

impl View for RouteError {
    type V = PathFailure;

    open spec fn view(&self) -> PathFailure {
        self.cause@
    }
}

impl RouteError {
    /// The error as a sentence.
    pub fn message(&self) -> (m: String)
        ensures
            m@ == self@.message(),
    {
        self.cause.message()
    }
}

/// `equals`: a JSON string equal to a `String` value, or a JSON integer
/// equal to a `Number` value. Nothing else is equal.
pub open spec fn equals_holds(extracted: JsonModel, value: FilterValueModel) -> bool {
    match (extracted, value) {
        (JsonModel::Str(s), FilterValueModel::String(t)) => s == t,
        (JsonModel::Int(n), FilterValueModel::Number(m)) => n == m,
        _ => false,
    }
}

/// `in`: a JSON string among a `StringArray`, or a JSON integer among a
/// `NumberArray`. Nothing else is contained.
pub open spec fn in_holds(extracted: JsonModel, value: FilterValueModel) -> bool {
    match (extracted, value) {
        (JsonModel::Str(s), FilterValueModel::StringArray(list)) => list.contains(s),
        (JsonModel::Int(n), FilterValueModel::NumberArray(list)) => list.contains(n),
        _ => false,
    }
}

/// `contains`: a JSON string that has a `String` value as a substring.
pub open spec fn contains_holds(extracted: JsonModel, value: FilterValueModel) -> bool {
    match (extracted, value) {
        (JsonModel::Str(s), FilterValueModel::String(t)) => is_substring(s, t),
        _ => false,
    }
}

/// The text of a JSON boolean.
pub open spec fn bool_text(b: bool) -> Seq<char> {
    if b {
        "true"@
    } else {
        "false"@
    }
}

/// Stringified match: a string as it is, an integer by its decimal text, a
/// boolean as `true` or `false`. No other value matches any text.
pub open spec fn matches_text(value: JsonModel, target: Seq<char>) -> bool {
    match value {
        JsonModel::Str(s) => s == target,
        JsonModel::Int(n) => decimal_text(n as int) == target,
        JsonModel::Bool(b) => bool_text(b) == target,
        _ => false,
    }
}

/// Whether `value` is of a variant that `equals` and `not_equals` accept: a
/// `String` or a `Number`.
pub open spec fn is_single(value: FilterValueModel) -> bool {
    value is String || value is Number
}

/// Whether `value` is of a variant that `in` and `not_in` accept: a
/// `StringArray` or a `NumberArray`.
pub open spec fn is_list(value: FilterValueModel) -> bool {
    value is StringArray || value is NumberArray
}

/// `not_equals`: the negation of `equals`, for a `String` or a `Number`
/// value. It holds of no other value.
pub open spec fn not_equals_holds(extracted: JsonModel, value: FilterValueModel) -> bool {
    is_single(value) && !equals_holds(extracted, value)
}

/// `not_in`: the negation of `in`, for a `StringArray` or a `NumberArray`
/// value. It holds of no other value.
pub open spec fn not_in_holds(extracted: JsonModel, value: FilterValueModel) -> bool {
    is_list(value) && !in_holds(extracted, value)
}

/// `not_contains`: the negation of `contains`, for a `String` value. It
/// holds of no other value.
pub open spec fn not_contains_holds(extracted: JsonModel, value: FilterValueModel) -> bool {
    value is String && !contains_holds(extracted, value)
}

/// Whether the operator named `operator` accepts a value of the variant of
/// `value`. An operator applied to a value that it does not accept is false.
pub open spec fn accepts(operator: Seq<char>, value: FilterValueModel) -> bool {
    if operator == "equals"@ || operator == "not_equals"@ {
        is_single(value)
    } else if operator == "in"@ || operator == "not_in"@ {
        is_list(value)
    } else if operator == "contains"@ || operator == "not_contains"@ {
        value is String
    } else {
        false
    }
}

/// The operator `operator` applied to the extracted value.
pub open spec fn apply_operator(
    operator: Seq<char>,
    extracted: JsonModel,
    value: FilterValueModel,
) -> Result<bool, FilterFailure> {
    if operator == "equals"@ {
        Ok(equals_holds(extracted, value))
    } else if operator == "not_equals"@ {
        Ok(not_equals_holds(extracted, value))
    } else if operator == "in"@ {
        Ok(in_holds(extracted, value))
    } else if operator == "not_in"@ {
        Ok(not_in_holds(extracted, value))
    } else if operator == "contains"@ {
        Ok(contains_holds(extracted, value))
    } else if operator == "not_contains"@ {
        Ok(not_contains_holds(extracted, value))
    } else {
        Err(FilterFailure::UnknownOperator(operator))
    }
}

/// One filter on `payload`: the value at its path, then its operator. A path
/// that does not resolve is an error whatever the operator is.
pub open spec fn evaluate(payload: JsonModel, filter: FilterModel) -> Result<bool, FilterFailure> {
    match extract(payload, filter.path) {
        Err(e) => Err(FilterFailure::Path(e)),
        Ok(v) => apply_operator(filter.operator, v, filter.value),
    }
}

/// The filters from left to right: the first one that is false or fails
/// decides; with none of those, the list passes.
pub open spec fn filters_pass(payload: JsonModel, filters: Seq<FilterModel>) -> Result<
    bool,
    FilterFailure,
>
    decreases filters.len(),
{
    if filters.len() == 0 {
        Ok(true)
    } else {
        match evaluate(payload, filters[0]) {
            Err(e) => Err(e),
            Ok(false) => Ok(false),
            Ok(true) => filters_pass(payload, filters.skip(1)),
        }
    }
}

/// The topic of the first mapping that matches `value`, if any.
pub open spec fn first_match(mapping: Seq<RouteMappingModel>, value: JsonModel) -> Option<
    Seq<char>,
>
    decreases mapping.len(),
{
    if mapping.len() == 0 {
        None
    } else if matches_text(value, mapping[0].value) {
        Some(mapping[0].topic)
    } else {
        first_match(mapping.skip(1), value)
    }
}

/// The routes from left to right: the first mapping that matches the value
/// at its route's path gives the topic. A path that does not resolve is an
/// error, unless an earlier route has matched.
pub open spec fn route(payload: JsonModel, routes: Seq<RouteModel>) -> Result<
    Option<Seq<char>>,
    PathFailure,
>
    decreases routes.len(),
{
    if routes.len() == 0 {
        Ok(None)
    } else {
        match extract(payload, routes[0].path) {
            Err(e) => Err(e),
            Ok(v) => match first_match(routes[0].mapping, v) {
                Some(topic) => Ok(Some(topic)),
                None => route(payload, routes.skip(1)),
            },
        }
    }
}

/// The values of a list of filters.
pub open spec fn filter_models(filters: Seq<Filter>) -> Seq<FilterModel> {
    Seq::new(filters.len(), |i: int| filters[i]@)
}

/// The values of a list of routes.
pub open spec fn route_models(routes: Seq<Route>) -> Seq<RouteModel> {
    Seq::new(routes.len(), |i: int| routes[i]@)
}

/// With no filter, every payload passes.
pub proof fn lemma_no_filter_passes(payload: JsonModel)
    ensures
        filters_pass(payload, Seq::empty()) == Ok::<bool, FilterFailure>(true),
{
}

/// A filter list passes a payload exactly when each of its filters is true
/// on the payload.
pub proof fn lemma_pass_iff_all_true(payload: JsonModel, filters: Seq<FilterModel>)
    ensures
        filters_pass(payload, filters) == Ok::<bool, FilterFailure>(true) <==> forall|i: int|
            0 <= i < filters.len() ==> evaluate(payload, #[trigger] filters[i]) == Ok::<
                bool,
                FilterFailure,
            >(true),
    decreases filters.len(),
{
    if filters.len() > 0 {
        let rest = filters.skip(1);
        lemma_pass_iff_all_true(payload, rest);
        if filters_pass(payload, filters) == Ok::<bool, FilterFailure>(true) {
            assert forall|i: int| 0 <= i < filters.len() implies evaluate(
                payload,
                #[trigger] filters[i],
            ) == Ok::<bool, FilterFailure>(true) by {
                if i > 0 {
                    assert(filters[i] == rest[i - 1]);
                }
            }
        }
        if forall|i: int|
            0 <= i < filters.len() ==> evaluate(payload, #[trigger] filters[i]) == Ok::<
                bool,
                FilterFailure,
            >(true) {
            assert(evaluate(payload, filters[0]) == Ok::<bool, FilterFailure>(true));
            assert forall|i: int| 0 <= i < rest.len() implies evaluate(payload, #[trigger] rest[i])
                == Ok::<bool, FilterFailure>(true) by {
                assert(rest[i] == filters[i + 1]);
            }
        }
    }
}

/// With no route, nothing is routed: the caller falls back to its default.
pub proof fn lemma_no_route_matches(payload: JsonModel)
    ensures
        route(payload, Seq::empty()) == Ok::<Option<Seq<char>>, PathFailure>(None),
{
}

/// `in` never holds of a JSON number against a list of strings, nor of a
/// JSON string against a list of numbers: values are not coerced.
pub proof fn lemma_in_does_not_coerce(extracted: JsonModel, value: FilterValueModel)
    ensures
        (extracted is Int || extracted is Number) && value is StringArray ==> !in_holds(
            extracted,
            value,
        ),
        extracted is Str && value is NumberArray ==> !in_holds(extracted, value),
{
}

/// An operator is false on every value of a variant that it does not accept,
/// whatever was extracted; the negated operators too.
pub proof fn lemma_unaccepted_value_is_false(
    operator: Seq<char>,
    extracted: JsonModel,
    value: FilterValueModel,
)
    requires
        apply_operator(operator, extracted, value) is Ok,
        !accepts(operator, value),
    ensures
        apply_operator(operator, extracted, value) == Ok::<bool, FilterFailure>(false),
{
    reveal_strlit("equals");
    reveal_strlit("not_equals");
    reveal_strlit("in");
    reveal_strlit("not_in");
    reveal_strlit("contains");
    reveal_strlit("not_contains");
    // the six names differ from each other in length or in a first character
    assert("equals"@.len() == 6 && "not_equals"@.len() == 10 && "in"@.len() == 2);
    assert("not_in"@.len() == 6 && "contains"@.len() == 8 && "not_contains"@.len() == 12);
    assert("equals"@[0] == 'e' && "not_in"@[0] == 'n');
}

/// On a value that it accepts, a negated operator is the negation of the
/// operator it negates.
pub proof fn lemma_negated_operators_negate(extracted: JsonModel, value: FilterValueModel)
    ensures
        is_single(value) ==> not_equals_holds(extracted, value) == !equals_holds(extracted, value),
        is_list(value) ==> not_in_holds(extracted, value) == !in_holds(extracted, value),
        value is String ==> not_contains_holds(extracted, value) == !contains_holds(
            extracted,
            value,
        ),
{
}

/// Evaluates all filters against the payload.
///
/// `Ok(true)` if the event passes every filter, `Ok(false)` as soon as one
/// filter is false, and the error of the first filter that cannot be
/// evaluated when no earlier filter was false.
pub fn should_process_event(payload: &JsonValue, filters: &[Filter]) -> (r: Result<
    bool,
    FilterError,
>)
    ensures
        match r {
            Ok(pass) => filters_pass(payload@, filter_models(filters@)) == Ok::<
                bool,
                FilterFailure,
            >(pass),
            Err(e) => filters_pass(payload@, filter_models(filters@)) == Err::<
                bool,
                FilterFailure,
            >(e@),
        },
        filters@.len() == 0 ==> r is Ok && r->Ok_0,
        (r is Ok && r->Ok_0) <==> forall|i: int|
            0 <= i < filters@.len() ==> evaluate(payload@, (#[trigger] filters@[i])@) == Ok::<
                bool,
                FilterFailure,
            >(true),
{
    let ghost models = filter_models(filters@);
    proof {
        lemma_pass_iff_all_true(payload@, models);
        assert forall|i: int| 0 <= i < filters@.len() implies (#[trigger] filters@[i])@
            == models[i] by {}
    }
    assert(models.skip(0) == models);
    let mut i: usize = 0;
    while i < filters.len()
        invariant
            i <= filters.len(),
            models == filter_models(filters@),
            filters_pass(payload@, models) == filters_pass(payload@, models.skip(i as int)),
        decreases filters.len() - i,
    {
        let ghost rest = models.skip(i as int);
        proof {
            assert(rest[0] == filters@[i as int]@);
            assert(rest.skip(1) == models.skip(i + 1));
        }
        match evaluate_filter(payload, &filters[i]) {
            Err(e) => {
                return Err(e);
            },
            Ok(false) => {
                return Ok(false);
            },
            Ok(true) => {},
        }
        i = i + 1;
    }
    Ok(true)
}

/// Evaluates a single filter against the payload.
pub fn evaluate_filter(payload: &JsonValue, filter: &Filter) -> (r: Result<bool, FilterError>)
    ensures
        match r {
            Ok(pass) => evaluate(payload@, filter@) == Ok::<bool, FilterFailure>(pass),
            Err(e) => evaluate(payload@, filter@) == Err::<bool, FilterFailure>(e@),
        },
{
    let extracted = match extract_json_path(payload, filter.path.as_str()) {
        Ok(v) => v,
        Err(e) => {
            return Err(FilterError::Path(e));
        },
    };
    let operator = filter.operator.as_str();
    if str_equal(operator, "equals") {
        Ok(match_equals(extracted, &filter.value))
    } else if str_equal(operator, "not_equals") {
        Ok(match_not_equals(extracted, &filter.value))
    } else if str_equal(operator, "in") {
        Ok(match_in(extracted, &filter.value))
    } else if str_equal(operator, "not_in") {
        Ok(match_not_in(extracted, &filter.value))
    } else if str_equal(operator, "contains") {
        Ok(match_contains(extracted, &filter.value))
    } else if str_equal(operator, "not_contains") {
        Ok(match_not_contains(extracted, &filter.value))
    } else {
        Err(FilterError::UnknownOperator(filter.operator.clone()))
    }
}

/// Determines the target topic based on routing rules.
///
/// Returns the topic of the first mapping that matches, or `None` if no
/// rule matches (the caller then uses its default topic).
pub fn route_to_topic(payload: &JsonValue, routes: &[Route]) -> (r: Result<
    Option<String>,
    RouteError,
>)
    ensures
        match r {
            Ok(Some(topic)) => route(payload@, route_models(routes@)) == Ok::<
                Option<Seq<char>>,
                PathFailure,
            >(Some(topic@)),
            Ok(None) => route(payload@, route_models(routes@)) == Ok::<
                Option<Seq<char>>,
                PathFailure,
            >(None),
            Err(e) => route(payload@, route_models(routes@)) == Err::<
                Option<Seq<char>>,
                PathFailure,
            >(e@),
        },
        routes@.len() == 0 ==> r is Ok && r->Ok_0 is None,
{
    let ghost models = route_models(routes@);
    assert(models.skip(0) == models);
    let mut i: usize = 0;
    while i < routes.len()
        invariant
            i <= routes.len(),
            models == route_models(routes@),
            route(payload@, models) == route(payload@, models.skip(i as int)),
        decreases routes.len() - i,
    {
        let ghost rest = models.skip(i as int);
        proof {
            assert(rest[0] == routes@[i as int]@);
            assert(rest.skip(1) == models.skip(i + 1));
        }
        let extracted = match extract_json_path(payload, routes[i].path.as_str()) {
            Ok(v) => v,
            Err(e) => {
                return Err(RouteError { cause: e });
            },
        };
        match first_matching_topic(extracted, &routes[i].mapping) {
            Some(topic) => {
                return Ok(Some(topic));
            },
            None => {},
        }
        i = i + 1;
    }
    Ok(None)
}

/// The topic of the first mapping that matches `value`.
fn first_matching_topic(value: &JsonValue, mapping: &Vec<RouteMapping>) -> (r: Option<String>)
    ensures
        r.deep_view() == first_match(mapping.deep_view(), value@),
{
    let ghost models = mapping.deep_view();
    assert(models.skip(0) == models);
    let mut j: usize = 0;
    while j < mapping.len()
        invariant
            j <= mapping.len(),
            models == mapping.deep_view(),
            first_match(models, value@) == first_match(models.skip(j as int), value@),
        decreases mapping.len() - j,
    {
        let ghost rest = models.skip(j as int);
        proof {
            assert(rest[0] == mapping@[j as int]@);
            assert(rest.skip(1) == models.skip(j + 1));
        }
        if value_matches_string(value, mapping[j].value.as_str()) {
            return Some(mapping[j].topic.clone());
        }
        j = j + 1;
    }
    None
}

/// The `equals` operator.
pub fn match_equals(extracted: &JsonValue, filter_value: &FilterValue) -> (r: bool)
    ensures
        r == equals_holds(extracted@, filter_value@),
{
    match filter_value {
        FilterValue::String(s) => match extracted {
            JsonValue::Str(text) => str_equal(text.as_str(), s.as_str()),
            _ => false,
        },
        FilterValue::Number(n) => match extracted {
            JsonValue::Int(number) => *number == *n,
            _ => false,
        },
        _ => false,
    }
}

/// The `in` operator.
#[verifier::loop_isolation(false)]
pub fn match_in(extracted: &JsonValue, filter_value: &FilterValue) -> (r: bool)
    ensures
        r == in_holds(extracted@, filter_value@),
{
    match filter_value {
        FilterValue::StringArray(list) => match extracted {
            JsonValue::Str(text) => {
                let ghost models = list.deep_view();
                let mut i: usize = 0;
                while i < list.len()
                    invariant
                        i <= list.len(),
                        models == list.deep_view(),
                        forall|j: int| 0 <= j < i ==> models[j] != text@,
                    decreases list.len() - i,
                {
                    assert(models[i as int] == list@[i as int]@);
                    if str_equal(list[i].as_str(), text.as_str()) {
                        assert(models.contains(text@));
                        return true;
                    }
                    i = i + 1;
                }
                false
            },
            _ => false,
        },
        FilterValue::NumberArray(list) => match extracted {
            JsonValue::Int(number) => {
                let mut i: usize = 0;
                while i < list.len()
                    invariant
                        i <= list.len(),
                        forall|j: int| 0 <= j < i ==> list@[j] != *number,
                    decreases list.len() - i,
                {
                    if list[i] == *number {
                        assert(list@[i as int] == *number);
                        assert(list@.contains(*number));
                        return true;
                    }
                    i = i + 1;
                }
                false
            },
            _ => false,
        },
        _ => false,
    }
}

/// The `contains` operator.
pub fn match_contains(extracted: &JsonValue, filter_value: &FilterValue) -> (r: bool)
    ensures
        r == contains_holds(extracted@, filter_value@),
{
    match filter_value {
        FilterValue::String(s) => match extracted {
            JsonValue::Str(text) => {
                let hay = chars_of(text.as_str());
                let needle = chars_of(s.as_str());
                contains_chars(&hay, &needle)
            },
            _ => false,
        },
        _ => false,
    }
}

/// The `not_equals` operator.
pub fn match_not_equals(extracted: &JsonValue, filter_value: &FilterValue) -> (r: bool)
    ensures
        r == not_equals_holds(extracted@, filter_value@),
{
    match filter_value {
        FilterValue::String(_) => !match_equals(extracted, filter_value),
        FilterValue::Number(_) => !match_equals(extracted, filter_value),
        _ => false,
    }
}

/// The `not_in` operator.
pub fn match_not_in(extracted: &JsonValue, filter_value: &FilterValue) -> (r: bool)
    ensures
        r == not_in_holds(extracted@, filter_value@),
{
    match filter_value {
        FilterValue::StringArray(_) => !match_in(extracted, filter_value),
        FilterValue::NumberArray(_) => !match_in(extracted, filter_value),
        _ => false,
    }
}

/// The `not_contains` operator.
pub fn match_not_contains(extracted: &JsonValue, filter_value: &FilterValue) -> (r: bool)
    ensures
        r == not_contains_holds(extracted@, filter_value@),
{
    match filter_value {
        FilterValue::String(_) => !match_contains(extracted, filter_value),
        _ => false,
    }
}

/// Stringified match of a JSON value against a mapping's text.
pub fn value_matches_string(value: &JsonValue, target: &str) -> (r: bool)
    ensures
        r == matches_text(value@, target@),
{
    match value {
        JsonValue::Str(s) => str_equal(s.as_str(), target),
        JsonValue::Int(n) => {
            let text = i64_text(*n);
            str_equal(text.as_str(), target)
        },
        JsonValue::Bool(b) => {
            if *b {
                str_equal("true", target)
            } else {
                str_equal("false", target)
            }
        },
        _ => false,
    }
}

} // verus!
