//! Deleting and replacing matched nodes.

use jsonpath_plus::find;
use jsonpath_plus::value::{JsonEntry, JsonValue};
use jsonpath_plus::JsonPath;

fn j_int(v: i64) -> JsonValue {
    JsonValue::Int(v)
}

fn j_str(v: &str) -> JsonValue {
    JsonValue::Str(v.to_string())
}

fn j_arr(items: Vec<JsonValue>) -> JsonValue {
    JsonValue::Array(items)
}

fn j_obj(entries: Vec<(&str, JsonValue)>) -> JsonValue {
    JsonValue::Object(
        entries
            .into_iter()
            .map(|(k, v)| JsonEntry {
                key: k.to_string(),
                value: v,
            })
            .collect(),
    )
}

#[test]
fn test_replace() {
    let json = j_obj(vec![(
        "list",
        j_arr(vec![j_str("red"), j_str("green"), j_str("blue")]),
    )]);
    let path = JsonPath::compile("$.list[*]").unwrap();
    let result = path.replace(&json, |_| j_str("black"));

    let expected = j_obj(vec![(
        "list",
        j_arr(vec![j_str("black"), j_str("black"), j_str("black")]),
    )]);
    assert!(result.deep_eq(&expected), "{:?}", result);
}

#[test]
fn test_delete() {
    let json = j_obj(vec![
        (
            "inner",
            j_obj(vec![(
                "list",
                j_arr(vec![j_str("one"), j_str("two"), j_str("three")]),
            )]),
        ),
        (
            "outer",
            j_arr(vec![j_str("one"), j_str("two"), j_str("three")]),
        ),
    ]);
    let path = JsonPath::compile("$.inner.list[1]").unwrap();
    let result = path.delete(&json);

    let expected = j_obj(vec![
        (
            "inner",
            j_obj(vec![("list", j_arr(vec![j_str("one"), j_str("three")]))]),
        ),
        (
            "outer",
            j_arr(vec![j_str("one"), j_str("two"), j_str("three")]),
        ),
    ]);
    assert!(result.deep_eq(&expected), "{:?}", result);
}

#[test]
fn test_delete_array() {
    let json = j_obj(vec![(
        "list",
        j_arr(vec![j_str("one"), j_str("two"), j_str("three"), j_str("four")]),
    )]);
    let result = JsonPath::compile("$.list[*]").unwrap().delete(&json);

    let expected = j_obj(vec![("list", j_arr(vec![]))]);
    assert!(result.deep_eq(&expected), "{:?}", result);
}

#[test]
fn test_replace_in_try_replace() {
    let json = j_obj(vec![(
        "list",
        j_arr(vec![j_str("BLUE"), j_str("ORANGE"), j_str("GREEN"), j_str("RED")]),
    )]);
    let result = JsonPath::compile("$.list[*]")
        .unwrap()
        .try_replace(&json, |_| Some(JsonValue::Null));

    let expected = j_obj(vec![(
        "list",
        j_arr(vec![JsonValue::Null, JsonValue::Null, JsonValue::Null, JsonValue::Null]),
    )]);
    assert!(result.deep_eq(&expected), "{:?}", result);
}

#[test]
fn test_delete_in_try_replace() {
    let json = j_obj(vec![(
        "list",
        j_arr(vec![j_str("BLUE"), j_str("ORANGE"), j_str("GREEN"), j_str("RED")]),
    )]);
    let result = JsonPath::compile("$.list[*]")
        .unwrap()
        .try_replace(&json, |_| None);

    let expected = j_obj(vec![("list", j_arr(vec![]))]);
    assert!(result.deep_eq(&expected), "{:?}", result);
}

#[test]
fn delete_then_find_is_empty() {
    let json = j_obj(vec![
        ("keep", j_int(1)),
        ("list", j_arr(vec![j_int(1), j_int(2), j_int(3)])),
    ]);
    let path = JsonPath::compile("$.list[*]").unwrap();
    let deleted = path.delete(&json);
    let found = path.find(&deleted);

    assert!(found.is_empty(), "{:?}", found);
}

#[test]
fn delete_with_no_matches_is_noop() {
    let json = j_obj(vec![("a", j_int(1))]);
    let path = JsonPath::compile("$.missing[*]").unwrap();
    let result = path.delete(&json);

    assert!(result.deep_eq(&json), "{:?}", result);
}

#[test]
fn delete_overlapping_matches() {
    let json = j_obj(vec![("a", j_obj(vec![("a", j_obj(vec![("a", j_int(1))]))]))]);
    let path = JsonPath::compile("$..a").unwrap();
    let result = path.delete(&json);

    let expected = j_obj(vec![]);
    assert!(result.deep_eq(&expected), "{:?}", result);
}

#[test]
fn replace_on_in_place() {
    let mut json = j_obj(vec![("x", j_int(1))]);
    let path = JsonPath::compile("$.x").unwrap();
    path.replace_on(&mut json, |_| j_int(9));

    assert!(json.deep_eq(&j_obj(vec![("x", j_int(9))])), "{:?}", json);
}

#[test]
fn delete_on_in_place() {
    let mut json = j_obj(vec![("x", j_int(1)), ("y", j_int(2))]);
    let path = JsonPath::compile("$.x").unwrap();
    path.delete_on(&mut json);

    assert!(json.deep_eq(&j_obj(vec![("y", j_int(2))])), "{:?}", json);
}

#[test]
fn try_replace_mixed() {
    let json = j_arr(vec![j_int(1), j_int(2), j_int(3)]);
    let path = JsonPath::compile("$[*]").unwrap();
    let result = path.try_replace(&json, |v| match v {
        JsonValue::Int(n) if *n % 2 == 1 => Some(j_int(n * 10)),
        _ => None,
    });

    let expected = j_arr(vec![j_int(10), j_int(30)]);
    assert!(result.deep_eq(&expected), "{:?}", result);
}

#[test]
fn replace_keeps_siblings() {
    let json = j_obj(vec![
        ("list", j_arr(vec![j_int(1), j_int(2)])),
        ("other", j_str("kept")),
    ]);
    let path = JsonPath::compile("$.list[*]").unwrap();
    let result = path.replace(&json, |_| j_int(0));

    let expected = j_obj(vec![
        ("list", j_arr(vec![j_int(0), j_int(0)])),
        ("other", j_str("kept")),
    ]);
    assert!(result.deep_eq(&expected), "{:?}", result);
}

#[test]
fn original_untouched_by_delete() {
    let json = j_obj(vec![("list", j_arr(vec![j_int(1)]))]);
    let path = JsonPath::compile("$.list[0]").unwrap();
    let _ = path.delete(&json);

    assert!(find("$.list[0]", &json).unwrap()[0].deep_eq(&j_int(1)));
}
