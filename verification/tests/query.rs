//! Matching paths against documents: selectors, slices, filters, unions.

use jsonpath_plus::find;
use jsonpath_plus::value::{JsonEntry, JsonValue};
use jsonpath_plus::JsonPath;

fn j_int(v: i64) -> JsonValue {
    JsonValue::Int(v)
}

fn j_str(v: &str) -> JsonValue {
    JsonValue::Str(v.to_string())
}

fn j_arr(items: Vec<JsonValue>) -> JsonValue {
    JsonValue::Array(items)
}

fn j_obj(entries: Vec<(&str, JsonValue)>) -> JsonValue {
    JsonValue::Object(
        entries
            .into_iter()
            .map(|(k, v)| JsonEntry {
                key: k.to_string(),
                value: v,
            })
            .collect(),
    )
}

fn assert_values_eq(found: &[JsonValue], expected: &[JsonValue]) {
    assert_eq!(found.len(), expected.len(), "lengths differ: {:?} vs {:?}", found, expected);
    for (a, b) in found.iter().zip(expected.iter()) {
        assert!(a.deep_eq(b), "{:?} != {:?}", a, b);
    }
}

fn assert_value_set_eq(found: &[JsonValue], expected: &[JsonValue]) {
    for a in found {
        assert!(expected.iter().any(|b| a.deep_eq(b)), "unexpected {:?}", a);
    }
    for b in expected {
        assert!(found.iter().any(|a| a.deep_eq(b)), "missing {:?}", b);
    }
}

fn nested_doc() -> JsonValue {
    j_obj(vec![
        (
            "a",
            j_obj(vec![
                ("list", j_arr(vec![j_int(1), j_int(2), j_int(3)])),
                ("null", JsonValue::Null),
                ("id", j_arr(vec![])),
            ]),
        ),
        (
            "b",
            j_arr(vec![
                j_obj(vec![("id", j_int(1)), ("name", j_str("foo"))]),
                j_obj(vec![("id", j_int(2)), ("name", j_str("bar"))]),
            ]),
        ),
        ("c", j_int(1)),
        ("d", JsonValue::Bool(false)),
    ])
}

#[test]
fn dot_notation_after_recursive_descent() {
    let json = nested_doc();
    let result = find("$..id", &json).unwrap();

    assert_value_set_eq(&result, &[j_arr(vec![]), j_int(1), j_int(2)]);
}

#[test]
fn bracket_notation_after_recursive_descent() {
    let json = nested_doc();
    let result = find("$..['id']", &json).unwrap();

    assert_value_set_eq(&result, &[j_arr(vec![]), j_int(1), j_int(2)]);
}

#[test]
fn parent_after_dot_notation() {
    let json = j_obj(vec![("a", j_obj(vec![("b", JsonValue::Bool(true))]))]);
    let result = find("$.a.b.^", &json).unwrap();

    let expected = vec![j_obj(vec![("b", JsonValue::Bool(true))])];
    assert_values_eq(&result, &expected);
}

#[test]
fn parent_after_recursive_descent() {
    let json = j_obj(vec![
        (
            "a",
            j_obj(vec![
                ("list", j_arr(vec![j_int(1), j_int(2), j_int(3)])),
                ("null", JsonValue::Null),
            ]),
        ),
        (
            "b",
            j_arr(vec![
                j_obj(vec![("id", j_int(1)), ("name", j_str("foo"))]),
                j_obj(vec![("id", j_int(2)), ("name", j_str("bar"))]),
            ]),
        ),
        ("c", j_int(1)),
        ("d", JsonValue::Bool(false)),
    ]);
    let result = find("$..^", &json).unwrap();

    let expected = vec![
        j_arr(vec![j_int(1), j_int(2), j_int(3)]),
        j_obj(vec![
            ("list", j_arr(vec![j_int(1), j_int(2), j_int(3)])),
            ("null", JsonValue::Null),
        ]),
        j_obj(vec![("id", j_int(1)), ("name", j_str("foo"))]),
        j_obj(vec![("id", j_int(2)), ("name", j_str("bar"))]),
        j_arr(vec![
            j_obj(vec![("id", j_int(1)), ("name", j_str("foo"))]),
            j_obj(vec![("id", j_int(2)), ("name", j_str("bar"))]),
        ]),
        json.clone(),
    ];
    assert_value_set_eq(&result, &expected);
}

#[test]
fn array_slice_on_non_overlapping_array() {
    let json = j_arr(vec![j_str("first"), j_str("second"), j_str("third")]);
    let result = find("$[7:10]", &json).unwrap();

    assert_values_eq(&result, &[]);
}

#[test]
fn array_slice_on_partially_overlapping_array() {
    let json = j_arr(vec![j_str("first"), j_str("second"), j_str("third")]);
    let result = find("$[1:10]", &json).unwrap();

    assert_values_eq(&result, &[j_str("second"), j_str("third")]);
}

#[test]
fn array_slice_with_large_end_number() {
    let json = j_arr(vec![
        j_str("first"),
        j_str("second"),
        j_str("third"),
        j_str("forth"),
        j_str("fifth"),
    ]);
    let result = find("$[2:113667776004]", &json).unwrap();

    assert_values_eq(&result, &[j_str("third"), j_str("forth"), j_str("fifth")]);
}

#[test]
fn array_slice_with_large_number_start() {
    let json = j_arr(vec![
        j_str("first"),
        j_str("second"),
        j_str("third"),
        j_str("forth"),
        j_str("fifth"),
    ]);
    let result = find("$[-113667776004:2]", &json).unwrap();

    assert_values_eq(&result, &[j_str("first"), j_str("second")]);
}

#[test]
fn array_slice_with_negative_step_only() {
    let json = j_arr(vec![
        j_str("first"),
        j_str("second"),
        j_str("third"),
        j_str("forth"),
        j_str("fifth"),
    ]);
    let result = find("$[::-2]", &json).unwrap();

    assert_values_eq(&result, &[j_str("fifth"), j_str("third"), j_str("first")]);
}

#[test]
fn bracket_notation_with_negative_number_on_short_array() {
    let json = j_arr(vec![j_str("one element")]);
    let result = find("$[-2]", &json).unwrap();

    assert_values_eq(&result, &[]);
}

#[test]
fn bracket_notation_with_number_on_object() {
    let json = j_obj(vec![("0", j_str("value"))]);
    let result = find("$[0]", &json).unwrap();

    assert_values_eq(&result, &[]);
}

#[test]
fn bracket_notation_with_spaces() {
    let json = j_obj(vec![
        (" a", j_int(1)),
        ("a", j_int(2)),
        (" a ", j_int(3)),
        ("a ", j_int(4)),
        (" 'a' ", j_int(5)),
        (" 'a", j_int(6)),
        ("a' ", j_int(7)),
        (" \"a\" ", j_int(8)),
        ("\"a\"", j_int(9)),
    ]);
    let result = find("$[ 'a' ]", &json).unwrap();

    assert_values_eq(&result, &[j_int(2)]);
}

#[test]
fn dot_notation_after_filter_expression() {
    let json = j_arr(vec![
        j_obj(vec![("id", j_int(42)), ("name", j_str("forty-two"))]),
        j_obj(vec![("id", j_int(1)), ("name", j_str("one"))]),
    ]);
    let result = find("$[?(@.id==42)].name", &json).unwrap();

    assert_values_eq(&result, &[j_str("forty-two")]);
}

#[test]
#[should_panic]
fn dot_notation_with_empty_path() {
    let json = j_obj(vec![
        ("key", j_int(42)),
        ("", j_int(9001)),
        ("''", j_str("nice")),
    ]);
    let _result = find("$.", &json).unwrap();
}

#[test]
fn positive_step_slice() {
    let json = j_arr(vec![j_int(0), j_int(1), j_int(2), j_int(3), j_int(4)]);
    let result = find("$[::2]", &json).unwrap();

    assert_values_eq(&result, &[j_int(0), j_int(2), j_int(4)]);
}

#[test]
fn union_keeps_duplicates() {
    let json = j_arr(vec![j_str("x"), j_str("y")]);
    let result = find("$[0,0,1]", &json).unwrap();

    assert_values_eq(&result, &[j_str("x"), j_str("x"), j_str("y")]);
}

#[test]
fn filter_arithmetic_addition() {
    let json = j_arr(vec![j_int(2), j_int(5)]);
    let result = find("$[?(@ + 1 == 3)]", &json).unwrap();

    assert_values_eq(&result, &[j_int(2)]);
}

#[test]
fn filter_string_concatenation() {
    let json = j_arr(vec![j_str("ab"), j_str("c")]);
    let result = find("$[?(@ == 'a' + 'b')]", &json).unwrap();

    assert_values_eq(&result, &[j_str("ab")]);
}

#[test]
fn subpath_key_from_document() {
    let json = j_obj(vec![
        ("sel", j_int(3)),
        ("vals", j_obj(vec![("3", j_str("hit")), ("4", j_str("miss"))])),
    ]);
    let result = find("$.vals[$.sel]", &json).unwrap();

    assert_values_eq(&result, &[j_str("hit")]);
}

#[test]
fn subpath_index_into_array() {
    let json = j_obj(vec![
        ("sel", j_int(1)),
        ("vals", j_arr(vec![j_str("zero"), j_str("one")])),
    ]);
    let result = find("$.vals[$.sel]", &json).unwrap();

    assert_values_eq(&result, &[j_str("one")]);
}

#[test]
fn wildcard_on_scalar_is_empty() {
    let json = j_int(7);
    let result = find("$.*", &json).unwrap();

    assert_values_eq(&result, &[]);
}

#[test]
fn find_paths_roundtrip() {
    let json = j_obj(vec![("list", j_arr(vec![j_int(5), j_int(6)]))]);
    let path = JsonPath::compile("$.list[*]").unwrap();
    let paths = path.find_paths(&json);

    assert_eq!(paths.len(), 2);
    let first = paths[0].resolve_on(&json).unwrap();
    assert!(first.deep_eq(&j_int(5)));
    let second = paths[1].resolve_on(&json).unwrap();
    assert!(second.deep_eq(&j_int(6)));
}

#[test]
fn subpath_with_several_matches_selects_nothing() {
    let json = j_arr(vec![j_int(0), j_int(0)]);
    let result = find("$[@.*]", &json).unwrap();

    assert_values_eq(&result, &[]);
}

#[test]
fn subpath_with_no_match_selects_nothing() {
    let json = j_obj(vec![
        ("vals", j_arr(vec![j_str("zero"), j_str("one")])),
    ]);
    let result = find("$.vals[$.missing]", &json).unwrap();

    assert_values_eq(&result, &[]);
}
