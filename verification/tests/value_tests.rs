use retable::value::{parse_value, Value};

fn num(neg: bool, mant: u64, exp: i64) -> Value {
    Value::Num { neg, mant, exp }
}

#[test]
fn parses_integers() {
    assert_eq!(parse_value("0"), Some(num(false, 0, 0)));
    assert_eq!(parse_value("42"), Some(num(false, 42, 0)));
    assert_eq!(parse_value("-7"), Some(num(true, 7, 0)));
    assert_eq!(parse_value("+7"), Some(num(false, 7, 0)));
}

#[test]
fn parses_decimals() {
    assert_eq!(parse_value("12.5"), Some(num(false, 125, -1)));
    assert_eq!(parse_value("13.0"), Some(num(false, 130, -1)));
    assert_eq!(parse_value("-0.25"), Some(num(true, 25, -2)));
    assert_eq!(parse_value(".5"), Some(num(false, 5, -1)));
    assert_eq!(parse_value("5."), Some(num(false, 5, 0)));
}

#[test]
fn parses_exponents() {
    assert_eq!(parse_value("1e5"), Some(num(false, 1, 5)));
    assert_eq!(parse_value("1E5"), Some(num(false, 1, 5)));
    assert_eq!(parse_value("2e-3"), Some(num(false, 2, -3)));
    assert_eq!(parse_value("2e+3"), Some(num(false, 2, 3)));
    assert_eq!(parse_value("1.5e2"), Some(num(false, 15, 1)));
    assert_eq!(parse_value("5.e3"), Some(num(false, 5, 3)));
}

#[test]
fn parses_keywords_in_any_case() {
    assert_eq!(parse_value("nan"), Some(Value::Nan));
    assert_eq!(parse_value("NaN"), Some(Value::Nan));
    assert_eq!(parse_value("-NAN"), Some(Value::Nan));
    assert_eq!(parse_value("inf"), Some(Value::Inf { neg: false }));
    assert_eq!(parse_value("-inf"), Some(Value::Inf { neg: true }));
    assert_eq!(parse_value("Infinity"), Some(Value::Inf { neg: false }));
    assert_eq!(parse_value("-INFINITY"), Some(Value::Inf { neg: true }));
}

#[test]
fn rejects_malformed_tokens() {
    assert_eq!(parse_value(""), None);
    assert_eq!(parse_value("+"), None);
    assert_eq!(parse_value("-"), None);
    assert_eq!(parse_value("."), None);
    assert_eq!(parse_value("abc"), None);
    assert_eq!(parse_value("1.2.3"), None);
    assert_eq!(parse_value("1e"), None);
    assert_eq!(parse_value("1e+"), None);
    assert_eq!(parse_value("e5"), None);
    assert_eq!(parse_value("12x"), None);
    assert_eq!(parse_value(" 12"), None);
    assert_eq!(parse_value("infini"), None);
}

#[test]
fn leading_zeros_accumulate_plainly() {
    assert_eq!(parse_value("007"), Some(num(false, 7, 0)));
    assert_eq!(parse_value("0.50"), Some(num(false, 50, -2)));
}
