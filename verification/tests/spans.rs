//! Source spans on the syntax tree: every node can point back at the exact
//! text it was parsed from.

use jsonpath_plus::ast::{BracketLit, BracketSelector, Segment};
use jsonpath_plus::span::Spanned;
use jsonpath_plus::JsonPath;

#[test]
fn test_span_multibyte_string() {
    let path_str = "$['\u{e0}\u{b6}']";
    let path = JsonPath::compile(path_str).unwrap();

    let lit = if let Segment::Bracket(_, BracketSelector::Literal(BracketLit::String(lit))) =
        &path.segments()[0]
    {
        lit
    } else {
        panic!("First segment wasn't a literal")
    };

    let lit_span = lit.span();
    assert_eq!(lit_span.get_span(path_str), "'\u{e0}\u{b6}'");
}

#[test]
fn test_filter_span() {
    let path_str = "$[?(@ == true)]";
    let path = JsonPath::compile(path_str).unwrap();

    let filter = if let Segment::Bracket(_, BracketSelector::Filter(filter)) = &path.segments()[0] {
        filter
    } else {
        panic!("First segment wasn't a filter")
    };

    let filter_span = filter.span();
    assert_eq!(filter_span.get_span(path_str), "?(@ == true)");

    let filter_expr_span = filter.expression().span();
    assert_eq!(filter_expr_span.get_span(path_str), "@ == true");
}

#[test]
fn whole_path_span() {
    let path_str = "$.a[0]";
    let path = JsonPath::compile(path_str).unwrap();

    let span = path.span();
    assert_eq!(span.start(), 0);
    assert_eq!(span.end(), 6);
    assert_eq!(span.get_span(path_str), "$.a[0]");
}
