use cdlint::json::Json;
use cdlint::number::{Number, FINITE_LIMIT};
use cdlint::parser::parser;

fn number(text: &str) -> Number {
    match parser(text).0.expect("the text is a number").val {
        Json::Num(n) => n,
        other => panic!("{:?}", other),
    }
}

#[test]
fn zero_is_written_in_one_way() {
    for text in ["0", "-0", "0.0", "0e5", "-0.000e-3", "0E+0"] {
        let n = number(text);
        assert!(n.digits.is_empty(), "{}", text);
        assert!(!n.negative, "{}", text);
        assert_eq!(n.exponent, 0, "{}", text);
        assert_eq!(n.text, text);
    }
    let zero = Number::zero();
    assert!(zero.digits.is_empty());
    assert_eq!(zero.text, "0");
}

#[test]
fn digits_and_exponent_are_in_scientific_form() {
    let cases: Vec<(&str, bool, &str, i64)> = vec![
        ("1", false, "1", 1),
        ("10", false, "1", 2),
        ("120", false, "12", 3),
        ("0.5", false, "5", 0),
        ("0.05", false, "5", -1),
        ("-3.1400", true, "314", 1),
        ("1e3", false, "1", 4),
        ("1E-3", false, "1", -2),
        ("12.5e-1", false, "125", 1),
        ("100.001", false, "100001", 3),
    ];
    for (text, negative, digits, exponent) in cases {
        let n = number(text);
        assert_eq!(n.negative, negative, "{}", text);
        assert_eq!(n.digits, digits.as_bytes().to_vec(), "{}", text);
        assert_eq!(n.exponent, exponent, "{}", text);
    }
}

#[test]
fn a_huge_exponent_is_capped() {
    assert_eq!(number("1e99999999999999999999999999").exponent, 1_000_000_000_000_000_000);
    assert_eq!(number("1e-99999999999999999999999999").exponent, -999_999_999_999_999_999);
    assert_eq!(number("0.01e-99999999999999999999999999").exponent, -1_000_000_000_000_000_000);
}

#[test]
fn the_order_is_that_of_the_values() {
    let sorted = [
        "-1e10", "-25", "-2.5", "-2.49", "-1", "-0.5", "-1e-9", "0", "1e-9", "0.1", "0.10001", "0.5", "1", "1.5",
        "2", "9.99", "10", "10.5", "1e2", "1000000",
    ];
    for (i, a) in sorted.iter().enumerate() {
        for (j, b) in sorted.iter().enumerate() {
            let x = number(a);
            let y = number(b);
            assert_eq!(x.less_than(&y), i < j, "{} < {}", a, b);
            assert_eq!(x.greater_than(&y), i > j, "{} > {}", a, b);
            let fx: f64 = a.parse().unwrap();
            let fy: f64 = b.parse().unwrap();
            assert_eq!(x.less_than(&y), fx < fy, "{} < {}", a, b);
        }
    }
}

#[test]
fn equal_values_written_differently_are_not_ordered() {
    for (a, b) in [("1.0", "1"), ("0.50", "5e-1"), ("100", "1e2"), ("-0", "0")] {
        assert!(!number(a).less_than(&number(b)), "{} {}", a, b);
        assert!(!number(b).less_than(&number(a)), "{} {}", a, b);
    }
}

#[test]
fn the_limit_of_finite_numbers_is_that_of_a_64_bit_float() {
    assert_eq!(FINITE_LIMIT.len(), 309);
    let limit: f64 = FINITE_LIMIT.parse().unwrap();
    assert!(limit.is_infinite());
    let below = "179769313486231580793728971405303415079934132710037826936173778980444968292764750946649017977587207096330286416692887910946555547851940402630657488671505820681908902000708383676273854845817711531764475730270069855571366959622842914819860834936475292719074168444365510704342711559699508093042880177904174497791";
    let f: f64 = below.parse().unwrap();
    assert!(f.is_finite());
    assert!(number(below).is_finite());
    assert!(!number(FINITE_LIMIT).is_finite());
}

#[test]
fn finiteness_agrees_with_64_bit_floats() {
    for text in [
        "0", "1", "-1", "1e308", "-1e308", "1.7976931348623157e308", "1.7976931348623158e308",
        "1.797693134862315807e308", "1.797693134862315808e308", "1.8e308", "1e309", "-1e309", "1e-400",
        "17976931348623158e292", "0.00017976931348623157e312", "9e307", "99e307",
    ] {
        let f: f64 = text.parse().unwrap();
        assert_eq!(number(text).is_finite(), f.is_finite(), "{}", text);
    }
}

#[test]
fn whole_numbers_are_counts() {
    assert_eq!(number("0").to_usize(), Some(0));
    assert_eq!(number("7").to_usize(), Some(7));
    assert_eq!(number("120").to_usize(), Some(120));
    assert_eq!(number("1e3").to_usize(), Some(1000));
    assert_eq!(number("1.5e1").to_usize(), Some(15));
    assert_eq!(number("25.0").to_usize(), Some(25));
    assert_eq!(number("18446744073709551615").to_usize(), Some(usize::MAX));
    assert_eq!(number("18446744073709551616").to_usize(), None);
    assert_eq!(number("1e30").to_usize(), None);
    assert_eq!(number("1e99999999999").to_usize(), None);
    assert_eq!(number("-1").to_usize(), None);
    assert_eq!(number("1.5").to_usize(), None);
    assert_eq!(number("1e-1").to_usize(), None);
    assert_eq!(number("-0").to_usize(), Some(0));
}

#[test]
fn a_copy_is_the_same_number() {
    let n = number("-12.5e3");
    let c = n.copy();
    assert_eq!(c.negative, n.negative);
    assert_eq!(c.digits, n.digits);
    assert_eq!(c.exponent, n.exponent);
    assert_eq!(c.text, n.text);
}

#[test]
fn digits_that_are_none_give_no_count() {
    let n = Number { negative: false, digits: vec![b'1', b'x'], exponent: 2, text: String::from("1x") };
    assert_eq!(n.to_usize(), None);
}
