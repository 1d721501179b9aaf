//! JSON documents as plain data: reading them from text, and the lookups
//! that the path extractor needs.

use crate::text::str_equal;
use vstd::prelude::*;
use vstd::string::StringExecFns;

verus! {

/// A JSON value held by the library.
#[derive(Debug, PartialEq)]
pub enum JsonValue {
    Null,
    Bool(bool),
    /// A number that is an integer in the signed 64-bit range.
    Int(i64),
    /// Any other number, kept as its decimal text.
    Number(String),
    Str(String),
    Array(Vec<JsonValue>),
    /// The members of an object, in the order they are held.
    Object(Vec<(String, JsonValue)>),
}

/// The mathematical value of a [`JsonValue`].
pub ghost enum JsonModel {
    Null,
    Bool(bool),
    Int(i64),
    Number(Seq<char>),
    Str(Seq<char>),
    Array(Seq<JsonModel>),
    Object(Seq<(Seq<char>, JsonModel)>),
}

/// The value of `v`, read off its structure.
pub open spec fn model_of(v: JsonValue) -> JsonModel
    decreases v,
{
    match v {
        JsonValue::Null => JsonModel::Null,
        JsonValue::Bool(b) => JsonModel::Bool(b),
        JsonValue::Int(n) => JsonModel::Int(n),
        JsonValue::Number(t) => JsonModel::Number(t@),
        JsonValue::Str(s) => JsonModel::Str(s@),
        JsonValue::Array(items) => JsonModel::Array(
            Seq::new(
                items@.len(),
                |i: int|
                    if 0 <= i < items@.len() {
                        model_of(items@[i])
                    } else {
                        JsonModel::Null
                    },
            ),
        ),
        JsonValue::Object(members) => JsonModel::Object(
            Seq::new(
                members@.len(),
                |i: int|
                    if 0 <= i < members@.len() {
                        (members@[i].0@, model_of(members@[i].1))
                    } else {
                        (Seq::empty(), JsonModel::Null)
                    },
            ),
        ),
    }
}

impl View for JsonValue {
    type V = JsonModel;

    open spec fn view(&self) -> JsonModel {
        model_of(*self)
    }
}

/// A document as `serde_json` holds it.
#[verifier::external_type_specification]
#[verifier::external_body]
pub struct ExDocument(serde_json::Value);

/// The value of a document held by `serde_json`.
pub uninterp spec fn document_model(document: serde_json::Value) -> JsonModel;

/// The document that a text is, where it is JSON.
pub uninterp spec fn json_document(text: Seq<char>) -> Option<JsonModel>;

/// The value of an optional JSON document.
pub open spec fn parsed_model(parsed: Option<JsonValue>) -> Option<JsonModel> {
    match parsed {
        Some(value) => Some(value@),
        None => None,
    }
}

/// Parses with `serde_json::from_str` at the type `serde_json::Value`.
///
/// Trusted: whether the text is JSON, and which document it is, depends on
/// the text alone.
#[verifier::external_body]
fn parse_document(text: &str) -> (r: Option<serde_json::Value>)
    ensures
        match r {
            Some(document) => json_document(text@) == Some(document_model(document)),
            None => json_document(text@) is None,
        },
{
    serde_json::from_str::<serde_json::Value>(text).ok()
}

/// `serde_json::Value::as_bool`.
///
/// Trusted: the boolean of a document that is one, `None` for any other.
#[verifier::external_body]
fn document_bool(document: &serde_json::Value) -> (r: Option<bool>)
    ensures
        r == match document_model(*document) {
            JsonModel::Bool(b) => Some(b),
            _ => None,
        },
{
    document.as_bool()
}

/// `serde_json::Value::as_i64`.
///
/// Trusted: the integer of a document that is a number and an integer in
/// the signed 64-bit range, `None` for any other.
#[verifier::external_body]
fn document_i64(document: &serde_json::Value) -> (r: Option<i64>)
    ensures
        r == match document_model(*document) {
            JsonModel::Int(n) => Some(n),
            _ => None,
        },
{
    document.as_i64()
}

/// `serde_json::Value::as_number`, and the number's text by its `Display`.
///
/// Trusted: `None` for a document that is no number; for a number that is
/// no integer in the signed 64-bit range, the text that stands for it.
#[verifier::external_body]
fn document_number(document: &serde_json::Value) -> (r: Option<String>)
    ensures
        match r {
            Some(text) => document_model(*document) is Int || document_model(*document)
                == JsonModel::Number(text@),
            None => !(document_model(*document) is Int) && !(document_model(*document) is Number),
        },
{
    document.as_number().map(|n| n.to_string())
}

/// `serde_json::Value::as_str`.
///
/// Trusted: the text of a document that is a string, `None` for any other.
#[verifier::external_body]
fn document_str(document: &serde_json::Value) -> (r: Option<&str>)
    ensures
        match r {
            Some(text) => document_model(*document) == JsonModel::Str(text@),
            None => !(document_model(*document) is Str),
        },
{
    document.as_str()
}

/// `serde_json::Value::as_array`.
///
/// Trusted: the elements of a document that is an array, in order, `None`
/// for any other.
#[verifier::external_body]
fn document_items(document: &serde_json::Value) -> (r: Option<&Vec<serde_json::Value>>)
    ensures
        match r {
            Some(items) => {
                &&& document_model(*document) is Array
                &&& document_model(*document)->Array_0.len() == items@.len()
                &&& forall|i: int|
                    0 <= i < items@.len() ==> document_model(#[trigger] items@[i])
                        == document_model(*document)->Array_0[i]
            },
            None => !(document_model(*document) is Array),
        },
{
    document.as_array()
}

/// `serde_json::Value::as_object`, and the members by `Map::iter`.
///
/// Trusted: the members of a document that is an object, each with its
/// name, in the order in which the map gives them; `None` for any other.
#[verifier::external_body]
fn document_members(document: &serde_json::Value) -> (r: Option<
    Vec<(&String, &serde_json::Value)>,
>)
    ensures
        match r {
            Some(members) => {
                &&& document_model(*document) is Object
                &&& document_model(*document)->Object_0.len() == members@.len()
                &&& forall|i: int|
                    0 <= i < members@.len() ==> document_model(*document)->Object_0[i] == (
                        (#[trigger] members@[i]).0@,
                        document_model(*members@[i].1),
                    )
            },
            None => !(document_model(*document) is Object),
        },
{
    document.as_object().map(|m| m.iter().collect())
}

/// Copies a document into a [`JsonValue`].
fn from_document(document: &serde_json::Value) -> (r: JsonValue)
    ensures
        r@ == document_model(*document),
    decreases document_model(*document),
{
    let ghost model = document_model(*document);
    if let Some(b) = document_bool(document) {
        return JsonValue::Bool(b);
    }
    if let Some(n) = document_i64(document) {
        return JsonValue::Int(n);
    }
    if let Some(text) = document_str(document) {
        return JsonValue::Str(String::from_str(text));
    }
    if let Some(items) = document_items(document) {
        let mut copy: Vec<JsonValue> = Vec::new();
        let mut i: usize = 0;
        while i < items.len()
            invariant
                i <= items.len(),
                copy@.len() == i,
                model == document_model(*document),
                model is Array,
                model->Array_0.len() == items@.len(),
                forall|j: int|
                    0 <= j < items@.len() ==> document_model(#[trigger] items@[j])
                        == model->Array_0[j],
                forall|j: int| 0 <= j < i ==> copy@[j]@ == model->Array_0[j],
            decreases items.len() - i,
        {
            proof {
                assert(document_model(items@[i as int]) == model->Array_0[i as int]);
                assert(decreases_to!(model => model->Array_0[i as int]));
            }
            copy.push(from_document(&items[i]));
            i = i + 1;
        }
        proof {
            lemma_array_view(copy);
            assert(JsonValue::Array(copy)@->Array_0 =~= model->Array_0);
        }
        return JsonValue::Array(copy);
    }
    if let Some(members) = document_members(document) {
        let mut copy: Vec<(String, JsonValue)> = Vec::new();
        let mut i: usize = 0;
        while i < members.len()
            invariant
                i <= members.len(),
                copy@.len() == i,
                model == document_model(*document),
                model is Object,
                model->Object_0.len() == members@.len(),
                forall|j: int|
                    0 <= j < members@.len() ==> model->Object_0[j] == (
                        (#[trigger] members@[j]).0@,
                        document_model(*members@[j].1),
                    ),
                forall|j: int|
                    0 <= j < i ==> (copy@[j].0@, copy@[j].1@) == model->Object_0[j],
            decreases members.len() - i,
        {
            proof {
                assert(model->Object_0[i as int] == (
                    members@[i as int].0@,
                    document_model(*members@[i as int].1),
                ));
                assert(decreases_to!(model => model->Object_0[i as int].1));
            }
            let name = members[i].0.clone();
            let value = from_document(members[i].1);
            copy.push((name, value));
            i = i + 1;
        }
        proof {
            lemma_object_view(copy);
            assert(JsonValue::Object(copy)@->Object_0 =~= model->Object_0);
        }
        return JsonValue::Object(copy);
    }
    // What is none of the above is a number outside the integer range, or null.
    match document_number(document) {
        Some(text) => JsonValue::Number(text),
        None => JsonValue::Null,
    }
}

/// Reads a text as JSON. `None` for a text that is no JSON document.
pub fn parse_json(text: &str) -> (r: Option<JsonValue>)
    ensures
        parsed_model(r) == json_document(text@),
{
    match parse_document(text) {
        Some(document) => Some(from_document(&document)),
        None => None,
    }
}

/// Position of the first member of `members` named `field`, or
/// `members.len()` when there is none.
pub open spec fn first_member_named(members: Seq<(Seq<char>, JsonModel)>, field: Seq<char>) -> int
    decreases members.len(),
{
    if members.len() == 0 {
        0
    } else if members[0].0 == field {
        0
    } else {
        1 + first_member_named(members.skip(1), field)
    }
}

/// `first_member_named` is the one position with no member named `field`
/// before it that either holds such a member or is the end.
pub proof fn lemma_first_member_named(
    members: Seq<(Seq<char>, JsonModel)>,
    field: Seq<char>,
    k: int,
)
    requires
        0 <= k <= members.len(),
        forall|j: int| 0 <= j < k ==> members[j].0 != field,
        k < members.len() ==> members[k].0 == field,
    ensures
        first_member_named(members, field) == k,
    decreases members.len(),
{
    if members.len() > 0 && members[0].0 != field {
        assert forall|j: int| 0 <= j < k - 1 implies members.skip(1)[j].0 != field by {
            assert(members.skip(1)[j] == members[j + 1]);
        }
        lemma_first_member_named(members.skip(1), field, k - 1);
    }
}

/// The member `field` of an object: the first one of that name. `None` for
/// an object without it and for any value that is no object.
pub open spec fn member(v: JsonModel, field: Seq<char>) -> Option<JsonModel> {
    match v {
        JsonModel::Object(members) => {
            let k = first_member_named(members, field);
            if 0 <= k < members.len() {
                Some(members[k].1)
            } else {
                None
            }
        },
        _ => None,
    }
}

/// The element `index` of an array. `None` past its end and for any value
/// that is no array.
pub open spec fn element(v: JsonModel, index: int) -> Option<JsonModel> {
    match v {
        JsonModel::Array(items) => if 0 <= index < items.len() {
            Some(items[index])
        } else {
            None
        },
        _ => None,
    }
}

/// The value of an object, member by member.
pub proof fn lemma_object_view(members: Vec<(String, JsonValue)>)
    ensures
        JsonValue::Object(members)@ is Object,
        JsonValue::Object(members)@->Object_0.len() == members@.len(),
        forall|j: int|
            0 <= j < members@.len() ==> (#[trigger] JsonValue::Object(members)@->Object_0[j]) == (
                members@[j].0@,
                members@[j].1@,
            ),
{
}

/// The value of an array, element by element.
pub proof fn lemma_array_view(items: Vec<JsonValue>)
    ensures
        JsonValue::Array(items)@ is Array,
        JsonValue::Array(items)@->Array_0.len() == items@.len(),
        forall|j: int|
            0 <= j < items@.len() ==> (#[trigger] JsonValue::Array(items)@->Array_0[j])
                == items@[j]@,
{
}

impl Clone for JsonValue {
    fn clone(&self) -> (r: Self)
        ensures
            r@ == self@,
        decreases self,
    {
        match self {
            JsonValue::Null => JsonValue::Null,
            JsonValue::Bool(b) => JsonValue::Bool(*b),
            JsonValue::Int(n) => JsonValue::Int(*n),
            JsonValue::Number(t) => JsonValue::Number(t.clone()),
            JsonValue::Str(s) => JsonValue::Str(s.clone()),
            JsonValue::Array(items) => {
                let mut copy: Vec<JsonValue> = Vec::new();
                let mut i: usize = 0;
                while i < items.len()
                    invariant
                        i <= items.len(),
                        copy@.len() == i,
                        *self == JsonValue::Array(*items),
                        forall|j: int| 0 <= j < i ==> copy@[j]@ == items@[j]@,
                    decreases items.len() - i,
                {
                    proof {
                        assert(self->Array_0 == *items);
                        assert(decreases_to!(*self => self->Array_0@[i as int]));
                    }
                    copy.push(items[i].clone());
                    i = i + 1;
                }
                proof {
                    lemma_array_view(*items);
                    lemma_array_view(copy);
                    assert(JsonValue::Array(copy)@->Array_0 =~= self@->Array_0);
                }
                JsonValue::Array(copy)
            },
            JsonValue::Object(members) => {
                let mut copy: Vec<(String, JsonValue)> = Vec::new();
                let mut i: usize = 0;
                while i < members.len()
                    invariant
                        i <= members.len(),
                        copy@.len() == i,
                        *self == JsonValue::Object(*members),
                        forall|j: int|
                            0 <= j < i ==> copy@[j].0@ == members@[j].0@ && copy@[j].1@
                                == members@[j].1@,
                    decreases members.len() - i,
                {
                    proof {
                        assert(self->Object_0 == *members);
                        assert(decreases_to!(*self => self->Object_0@[i as int].1));
                    }
                    copy.push((members[i].0.clone(), members[i].1.clone()));
                    i = i + 1;
                }
                proof {
                    lemma_object_view(*members);
                    lemma_object_view(copy);
                    assert(JsonValue::Object(copy)@->Object_0 =~= self@->Object_0);
                }
                JsonValue::Object(copy)
            },
        }
    }
}

impl JsonValue {
    /// Looks up a member of an object by name.
    pub fn get_member(&self, field: &str) -> (r: Option<&JsonValue>)
        ensures
            match r {
                Some(v) => member(self@, field@) == Some(v@),
                None => member(self@, field@) is None,
            },
    {
        match self {
            JsonValue::Object(members) => {
                proof {
                    lemma_object_view(*members);
                }
                let mut k: usize = 0;
                while k < members.len()
                    invariant
                        k <= members.len(),
                        self@ is Object,
                        self@->Object_0.len() == members@.len(),
                        forall|j: int|
                            0 <= j < members@.len() ==> (#[trigger] self@->Object_0[j]) == (
                                members@[j].0@,
                                members@[j].1@,
                            ),
                        forall|j: int| 0 <= j < k ==> self@->Object_0[j].0 != field@,
                    decreases members.len() - k,
                {
                    if str_equal(members[k].0.as_str(), field) {
                        proof {
                            lemma_first_member_named(self@->Object_0, field@, k as int);
                        }
                        return Some(&members[k].1);
                    }
                    k = k + 1;
                }
                proof {
                    lemma_first_member_named(self@->Object_0, field@, k as int);
                }
                None
            },
            _ => None,
        }
    }

    /// Looks up an element of an array by position.
    pub fn get_element(&self, index: usize) -> (r: Option<&JsonValue>)
        ensures
            match r {
                Some(v) => element(self@, index as int) == Some(v@),
                None => element(self@, index as int) is None,
            },
    {
        match self {
            JsonValue::Array(items) => {
                proof {
                    lemma_array_view(*items);
                }
                if index < items.len() {
                    Some(&items[index])
                } else {
                    None
                }
            },
            _ => None,
        }
    }
}

} // verus!
