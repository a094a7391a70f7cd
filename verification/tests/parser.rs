use cdlint::diagnostic::{Color, Severity};
use cdlint::json::{Json, JsonKind};
use cdlint::parser::parser;
use cdlint::span::Span;

fn tree(text: &str) -> cdlint::span::Spanned<Json> {
    let (tree, diags) = parser(text);
    assert!(diags.is_empty(), "{:?}", diags);
    tree.expect("the text is a value")
}

#[test]
fn literals_are_read_with_their_spans() {
    let t = tree("null");
    assert!(matches!(t.val, Json::Null));
    assert_eq!(t.span, Span { lo: 0, hi: 4 });
    let t = tree(" true ");
    assert!(matches!(t.val, Json::Bool(true)));
    assert_eq!(t.span, Span { lo: 1, hi: 5 });
    let t = tree("false");
    assert!(matches!(t.val, Json::Bool(false)));
    assert_eq!(t.span, Span { lo: 0, hi: 5 });
}

#[test]
fn kind_desc_names_each_kind() {
    assert_eq!(tree("null").val.kind_desc(), "null");
    assert_eq!(tree("true").val.kind_desc(), "bool");
    assert_eq!(tree("\"a\"").val.kind_desc(), "string");
    assert_eq!(tree("1").val.kind_desc(), "number");
    assert_eq!(tree("[]").val.kind_desc(), "array");
    assert_eq!(tree("{}").val.kind_desc(), "object");
    assert_eq!(Json::Invalid.kind_desc(), "invalid");
    assert_eq!(JsonKind::Invalid.kind_desc(), "invalid");
}

#[test]
fn strings_are_read_with_their_escapes() {
    let t = tree(r#""a\n\t\"\\\/\b\f\r\u0041""#);
    match t.val {
        Json::Str(s) => assert_eq!(s, "a\n\t\"\\/\u{8}\u{c}\rA"),
        other => panic!("{:?}", other),
    }
}

#[test]
fn string_span_includes_the_quotes() {
    let t = tree("  \"ab\"");
    assert_eq!(t.span, Span { lo: 2, hi: 6 });
}

#[test]
fn spans_are_byte_offsets() {
    let t = tree("[\"é\", 1]");
    match t.val {
        Json::Array(items) => {
            assert_eq!(items[0].span, Span { lo: 1, hi: 5 });
            assert_eq!(items[1].span, Span { lo: 7, hi: 8 });
        },
        other => panic!("{:?}", other),
    }
    assert_eq!(tree("[\"é\", 1]").span, Span { lo: 0, hi: 9 });
}

#[test]
fn an_escape_that_names_no_character_is_replaced_and_reported() {
    let (tree, diags) = parser(r#""x\ud800y""#);
    match tree.expect("the string is read").val {
        Json::Str(s) => assert_eq!(s, "x\u{FFFD}y"),
        other => panic!("{:?}", other),
    }
    assert_eq!(diags.len(), 1);
    assert_eq!(diags[0].severity, Severity::Error);
    assert_eq!(diags[0].message, "invalid unicode character");
    assert_eq!(diags[0].labels.len(), 1);
    assert_eq!(diags[0].labels[0].span, Span { lo: 4, hi: 8 });
    assert_eq!(diags[0].labels[0].color, Color::Red);
}

#[test]
fn several_escapes_are_reported_from_one_pass() {
    let (tree, diags) = parser(r#"["\udc00", "\ud834"]"#);
    assert!(tree.is_some());
    assert_eq!(diags.len(), 2);
    assert!(diags[0].offset < diags[1].offset);
}

#[test]
fn numbers_are_read_exactly() {
    let t = tree("-12.50e+3");
    match t.val {
        Json::Num(n) => {
            assert!(n.negative);
            assert_eq!(n.digits, b"125".to_vec());
            assert_eq!(n.exponent, 5);
            assert_eq!(n.text, "-12.50e+3");
        },
        other => panic!("{:?}", other),
    }
    match tree("0.001").val {
        Json::Num(n) => {
            assert!(!n.negative);
            assert_eq!(n.digits, b"1".to_vec());
            assert_eq!(n.exponent, -2);
        },
        other => panic!("{:?}", other),
    }
    match tree("-0.0").val {
        Json::Num(n) => {
            assert!(!n.negative);
            assert!(n.digits.is_empty());
            assert_eq!(n.exponent, 0);
            assert_eq!(n.text, "-0.0");
        },
        other => panic!("{:?}", other),
    }
}

#[test]
fn a_number_ends_before_a_point_without_digits() {
    let (tree, diags) = parser("1.");
    assert!(tree.is_none());
    assert_eq!(diags.len(), 1);
    assert_eq!(diags[0].message, "expected the end of the input");
    assert_eq!(diags[0].offset, 1);
}

#[test]
fn a_leading_zero_ends_the_number() {
    let (tree, diags) = parser("01");
    assert!(tree.is_none());
    assert_eq!(diags[0].message, "expected the end of the input");
    assert_eq!(diags[0].labels[0].span, Span { lo: 1, hi: 2 });
}

#[test]
fn a_minus_needs_a_digit() {
    let (tree, diags) = parser("-");
    assert!(tree.is_none());
    assert_eq!(diags[0].message, "expected a digit");
    assert_eq!(diags[0].labels[0].span, Span { lo: 1, hi: 1 });
}

#[test]
fn arrays_keep_their_items_in_order() {
    let t = tree("[1, [true, null] ,\n\"x\"]");
    match t.val {
        Json::Array(items) => {
            assert_eq!(items.len(), 3);
            assert!(matches!(items[0].val, Json::Num(_)));
            assert!(matches!(items[2].val, Json::Str(_)));
            match &items[1].val {
                Json::Array(inner) => assert_eq!(inner.len(), 2),
                other => panic!("{:?}", other),
            }
            assert_eq!(items[1].span, Span { lo: 4, hi: 16 });
        },
        other => panic!("{:?}", other),
    }
}

#[test]
fn objects_keep_repeated_keys() {
    let t = tree(r#"{"a": 1, "b": 2, "a": 3}"#);
    match t.val {
        Json::Object(members) => {
            assert_eq!(members.len(), 3);
            assert_eq!(members[0].0.value, "a");
            assert_eq!(members[1].0.value, "b");
            assert_eq!(members[2].0.value, "a");
            assert_eq!(members[0].0.span, Span { lo: 1, hi: 4 });
            assert_eq!(members[2].1.span, Span { lo: 22, hi: 23 });
        },
        other => panic!("{:?}", other),
    }
}

#[test]
fn a_trailing_comma_is_an_error() {
    let (tree, diags) = parser("[1,]");
    assert!(tree.is_none());
    assert_eq!(diags.len(), 1);
    assert_eq!(diags[0].message, "expected a value");
    assert_eq!(diags[0].offset, 3);
    let (tree, diags) = parser("{\"a\": 1,}");
    assert!(tree.is_none());
    assert_eq!(diags[0].message, "expected an object member");
}

#[test]
fn each_syntax_error_has_its_input() {
    let cases: Vec<(&str, &str)> = vec![
        ("", "expected a value"),
        ("nul", "expected a value"),
        ("?", "expected a value"),
        ("-x", "expected a digit"),
        ("\"abc", "unterminated string"),
        ("\"ab\\", "unterminated string"),
        ("\"\\q\"", "invalid escape character"),
        ("\"\\u12\"", "invalid escape character"),
        ("{1: 2}", "expected an object member"),
        ("{\"a\" 1}", "expected ':'"),
        ("[1 2]", "expected ',' or ']'"),
        ("{\"a\": 1 \"b\": 2}", "expected ',' or '}'"),
        ("1 2", "expected the end of the input"),
    ];
    for (text, message) in cases {
        let (tree, diags) = parser(text);
        assert!(tree.is_none(), "{}", text);
        assert_eq!(diags.len(), 1, "{}", text);
        assert_eq!(diags[0].message, message, "{}", text);
        assert_eq!(diags[0].severity, Severity::Error);
        assert_eq!(diags[0].labels.len(), 1);
    }
}

#[test]
fn escapes_before_the_error_are_still_reported() {
    let (tree, diags) = parser(r#"["\udfff", ]"#);
    assert!(tree.is_none());
    assert_eq!(diags.len(), 2);
    assert_eq!(diags[0].message, "invalid unicode character");
    assert_eq!(diags[1].message, "expected a value");
}

#[test]
fn parsing_twice_gives_the_same() {
    let text = r#"{"a": [1, "\ud800", {"b": null}], "a": tru"#;
    let (t1, d1) = parser(text);
    let (t2, d2) = parser(text);
    assert_eq!(format!("{:?}", t1), format!("{:?}", t2));
    assert_eq!(format!("{:?}", d1), format!("{:?}", d2));
}
