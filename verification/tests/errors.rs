//! Errors: parse diagnostics, resolve failures, and the unsupported
//! top-level id marker.

use jsonpath_plus::error::{FailReason, JsonTy, ResolveError};
use jsonpath_plus::eval::{EvalCtx, EvalErr};
use jsonpath_plus::idx::{Idx, IdxPath};
use jsonpath_plus::value::{JsonEntry, JsonValue};
use jsonpath_plus::JsonPath;

fn j_int(v: i64) -> JsonValue {
    JsonValue::Int(v)
}

fn j_obj(entries: Vec<(&str, JsonValue)>) -> JsonValue {
    JsonValue::Object(
        entries
            .into_iter()
            .map(|(k, v)| JsonEntry {
                key: k.to_string(),
                value: v,
            })
            .collect(),
    )
}

#[test]
fn compile_reports_unclosed_bracket() {
    let err = JsonPath::compile("$[0").unwrap_err();
    assert_eq!(err.source_text(), "$[0");
    assert!(!err.failures().is_empty());
    let got_unclosed = err
        .failures()
        .iter()
        .any(|f| matches!(f.reason(), FailReason::Unclosed { .. }));
    assert!(got_unclosed, "{:?}", err);
}

#[test]
fn compile_reports_position() {
    let err = JsonPath::compile("$.a.?").unwrap_err();
    assert!(err.failures()[0].span().start() >= 4, "{:?}", err);
}

#[test]
fn compile_rejects_missing_dollar() {
    assert!(JsonPath::compile("a.b").is_err());
}

#[test]
fn compile_rejects_zero_step() {
    assert!(JsonPath::compile("$[::0]").is_err());
}

#[test]
fn compile_rejects_huge_int_literal() {
    assert!(JsonPath::compile("$[99999999999999999999]").is_err());
}

#[test]
fn resolve_missing_index() {
    let doc = j_obj(vec![("a", j_int(1))]);
    let path = IdxPath::new(vec![Idx::Object("b".to_string())]);
    match path.resolve_on(&doc) {
        Err(ResolveError::MissingIdx(Idx::Object(k))) => assert_eq!(k, "b"),
        other => panic!("expected a missing index, got {:?}", other),
    }
}

#[test]
fn resolve_mismatched_type() {
    let doc = j_int(5);
    let path = IdxPath::new(vec![Idx::Array(0)]);
    match path.resolve_on(&doc) {
        Err(ResolveError::MismatchedTy { expected, actual }) => {
            assert!(matches!(expected, JsonTy::Array));
            assert!(matches!(actual, JsonTy::Number));
        }
        other => panic!("expected a type mismatch, got {:?}", other),
    }
}

#[test]
fn resolve_success() {
    let doc = j_obj(vec![("a", j_int(7))]);
    let path = IdxPath::new(vec![Idx::Object("a".to_string())]);
    let node = path.resolve_on(&doc).unwrap();
    assert!(node.deep_eq(&j_int(7)));
}

#[test]
fn top_level_tilde_is_unsupported() {
    let doc = j_obj(vec![("a", j_int(1))]);
    let path = JsonPath::compile("$.a~").unwrap();
    assert!(path.is_id());
    let mut ctx = EvalCtx::new(&doc);
    match path.eval(&mut ctx) {
        Err(EvalErr::Unsupported(_)) => {}
        other => panic!("expected unsupported, got {:?}", other),
    }
}

#[test]
fn top_level_tilde_via_find() {
    let doc = j_obj(vec![("a", j_int(1))]);
    assert!(jsonpath_plus::find("$.a~", &doc).is_err());
}

#[test]
fn sort_comparator_orders_longest_first() {
    let long = IdxPath::new(vec![Idx::Array(0), Idx::Array(1)]);
    let short = IdxPath::new(vec![Idx::Array(9)]);
    assert_eq!(
        IdxPath::sort_specific_last(&long, &short),
        std::cmp::Ordering::Less
    );
    assert_eq!(
        IdxPath::sort_specific_last(&short, &long),
        std::cmp::Ordering::Greater
    );
}

#[test]
fn sort_comparator_orders_high_indices_first() {
    let low = IdxPath::new(vec![Idx::Array(1)]);
    let high = IdxPath::new(vec![Idx::Array(3)]);
    assert_eq!(
        IdxPath::sort_specific_last(&high, &low),
        std::cmp::Ordering::Less
    );
    assert_eq!(
        IdxPath::sort_specific_last(&low, &low),
        std::cmp::Ordering::Equal
    );
}
