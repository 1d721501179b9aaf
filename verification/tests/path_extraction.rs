use webhook_operator::json::JsonValue;
use webhook_operator::path::{extract_json_path, PathError, PathErrorKind};

fn text(s: &str) -> JsonValue {
    JsonValue::Str(s.to_string())
}

fn object(members: Vec<(&str, JsonValue)>) -> JsonValue {
    JsonValue::Object(members.into_iter().map(|(k, v)| (k.to_string(), v)).collect())
}

fn sample() -> JsonValue {
    object(vec![
        ("event", text("meeting.started")),
        ("count", JsonValue::Int(3)),
        ("live", JsonValue::Bool(true)),
        ("nothing", JsonValue::Null),
        ("ratio", JsonValue::Number("0.5".to_string())),
        (
            "items",
            JsonValue::Array(vec![
                object(vec![("id", JsonValue::Int(10))]),
                object(vec![("id", JsonValue::Int(11))]),
            ]),
        ),
        ("", text("empty name")),
        ("caf\u{e9}", text("accent")),
        ("payload", object(vec![("account", object(vec![("id", text("A1"))]))])),
    ])
}

fn kind_of(path: &str) -> PathErrorKind {
    extract_json_path(&sample(), path).unwrap_err().kind()
}

#[test]
fn dollar_prefix_is_optional() {
    let doc = sample();
    for path in ["event", "count", "items[1].id", "payload.account.id", "missing", "items[x]"] {
        let with_prefix = format!("$.{}", path);
        let plain = extract_json_path(&doc, path);
        let prefixed = extract_json_path(&doc, &with_prefix);
        match (plain, prefixed) {
            (Ok(a), Ok(b)) => assert_eq!(a, b),
            (Err(a), Err(b)) => assert_eq!(a.message(), b.message()),
            _ => panic!("results differ for {}", path),
        }
    }
}

#[test]
fn only_one_dollar_prefix_is_dropped() {
    let doc = object(vec![("$", object(vec![("a", JsonValue::Int(1))])), ("a", JsonValue::Int(2))]);
    assert_eq!(*extract_json_path(&doc, "$.a").unwrap(), JsonValue::Int(2));
    assert_eq!(*extract_json_path(&doc, "$.$.a").unwrap(), JsonValue::Int(1));
}

#[test]
fn returns_values_of_every_kind() {
    let doc = sample();
    assert_eq!(*extract_json_path(&doc, "count").unwrap(), JsonValue::Int(3));
    assert_eq!(*extract_json_path(&doc, "live").unwrap(), JsonValue::Bool(true));
    assert_eq!(*extract_json_path(&doc, "nothing").unwrap(), JsonValue::Null);
    assert_eq!(*extract_json_path(&doc, "ratio").unwrap(), JsonValue::Number("0.5".to_string()));
    assert_eq!(
        *extract_json_path(&doc, "payload.account").unwrap(),
        object(vec![("id", text("A1"))])
    );
    assert_eq!(*extract_json_path(&doc, "$.payload.account.id").unwrap(), text("A1"));
    assert_eq!(*extract_json_path(&doc, "caf\u{e9}").unwrap(), text("accent"));
}

#[test]
fn indexes_into_arrays() {
    let doc = sample();
    assert_eq!(*extract_json_path(&doc, "items[0].id").unwrap(), JsonValue::Int(10));
    assert_eq!(*extract_json_path(&doc, "$.items[1].id").unwrap(), JsonValue::Int(11));
    assert_eq!(
        *extract_json_path(&doc, "items[1]").unwrap(),
        object(vec![("id", JsonValue::Int(11))])
    );
}

#[test]
fn index_at_exact_length_is_not_found() {
    let doc = sample();
    let error = extract_json_path(&doc, "items[2]").unwrap_err();
    assert!(matches!(error, PathError::IndexOutOfBounds(2)));
    assert_eq!(error.kind(), PathErrorKind::NotFound);
    assert_eq!(error.message(), "Array index out of bounds: 2");
    let empty = object(vec![("items", JsonValue::Array(vec![]))]);
    assert!(matches!(
        extract_json_path(&empty, "items[0]").unwrap_err(),
        PathError::IndexOutOfBounds(0)
    ));
}

#[test]
fn missing_field_is_not_found() {
    let error = extract_json_path(&sample(), "$.payload.nope.id").unwrap_err();
    assert!(matches!(&error, PathError::FieldNotFound(f) if f == "nope"));
    assert_eq!(error.kind(), PathErrorKind::NotFound);
    assert_eq!(error.message(), "Field not found: nope");
}

#[test]
fn field_of_a_value_that_is_no_object_is_not_found() {
    assert_eq!(kind_of("event.length"), PathErrorKind::NotFound);
    assert_eq!(kind_of("items.id"), PathErrorKind::NotFound);
    let error = extract_json_path(&JsonValue::Int(1), "a").unwrap_err();
    assert!(matches!(&error, PathError::FieldNotFound(f) if f == "a"));
}

#[test]
fn index_of_a_value_that_is_no_array_is_not_found() {
    let error = extract_json_path(&sample(), "event[0]").unwrap_err();
    assert!(matches!(error, PathError::IndexOutOfBounds(0)));
    assert_eq!(kind_of("payload[0]"), PathErrorKind::NotFound);
}

#[test]
fn invalid_index_text_is_bad_path() {
    for (path, bad) in [
        ("items[x]", "x"),
        ("items[]", ""),
        ("items[-1]", "-1"),
        ("items[ 1]", " 1"),
        ("items[0]x", "0]x"),
        ("items[0][1]", "0][1"),
        ("items[+]", "+"),
    ] {
        let error = extract_json_path(&sample(), path).unwrap_err();
        assert!(matches!(&error, PathError::InvalidIndex(t) if t == bad), "{}", path);
        assert_eq!(error.kind(), PathErrorKind::BadPath);
        assert_eq!(error.message(), format!("Invalid array index: {}", bad));
    }
}

#[test]
fn a_dot_inside_brackets_still_separates_segments() {
    // "items[1.0]" is the segment "items[1" followed by the segment "0]"
    let error = extract_json_path(&sample(), "items[1.0]").unwrap_err();
    assert!(matches!(&error, PathError::FieldNotFound(f) if f == "0]"));
}

#[test]
fn index_too_large_for_the_machine_is_bad_path() {
    let error = extract_json_path(&sample(), "items[340282366920938463463374607431768211456]")
        .unwrap_err();
    assert_eq!(error.kind(), PathErrorKind::BadPath);
}

#[test]
fn index_text_is_judged_before_the_field_is_looked_up() {
    // the field is missing and the index is invalid: the index is reported
    assert_eq!(kind_of("nope[x]"), PathErrorKind::BadPath);
    let error = extract_json_path(&sample(), "nope[0]").unwrap_err();
    assert!(matches!(&error, PathError::FieldNotFound(f) if f == "nope"));
}

#[test]
fn lenient_index_forms() {
    let doc = sample();
    let second = object(vec![("id", JsonValue::Int(11))]);
    // closing brackets at the end are dropped, however many
    assert_eq!(*extract_json_path(&doc, "items[1").unwrap(), second);
    assert_eq!(*extract_json_path(&doc, "items[1]]]").unwrap(), second);
    // a plus sign and leading zeros are read
    assert_eq!(*extract_json_path(&doc, "items[+1]").unwrap(), second);
    assert_eq!(*extract_json_path(&doc, "items[0001]").unwrap(), second);
}

#[test]
fn empty_segments_name_the_empty_field() {
    let doc = sample();
    assert_eq!(*extract_json_path(&doc, "").unwrap(), text("empty name"));
    assert_eq!(*extract_json_path(&doc, "$.").unwrap(), text("empty name"));
    let error = extract_json_path(&doc, "event.").unwrap_err();
    assert!(matches!(&error, PathError::FieldNotFound(f) if f.is_empty()));
    let nested = object(vec![("", JsonValue::Array(vec![JsonValue::Int(9)]))]);
    assert_eq!(*extract_json_path(&nested, "[0]").unwrap(), JsonValue::Int(9));
}

#[test]
fn first_failing_segment_gives_the_error() {
    let error = extract_json_path(&sample(), "nope.items[x]").unwrap_err();
    assert!(matches!(&error, PathError::FieldNotFound(f) if f == "nope"));
    let error = extract_json_path(&sample(), "items[x].nope").unwrap_err();
    assert_eq!(error.kind(), PathErrorKind::BadPath);
}

#[test]
fn first_member_of_a_name_is_found() {
    let doc = object(vec![("a", JsonValue::Int(1)), ("a", JsonValue::Int(2))]);
    assert_eq!(*extract_json_path(&doc, "a").unwrap(), JsonValue::Int(1));
    assert_eq!(doc.get_member("a"), Some(&JsonValue::Int(1)));
    assert_eq!(doc.get_member("b"), None);
    assert_eq!(JsonValue::Null.get_member("a"), None);
}

#[test]
fn element_lookup() {
    let list = JsonValue::Array(vec![JsonValue::Int(1), JsonValue::Int(2)]);
    assert_eq!(list.get_element(0), Some(&JsonValue::Int(1)));
    assert_eq!(list.get_element(1), Some(&JsonValue::Int(2)));
    assert_eq!(list.get_element(2), None);
    assert_eq!(list.get_element(usize::MAX), None);
    assert_eq!(text("ab").get_element(0), None);
}
