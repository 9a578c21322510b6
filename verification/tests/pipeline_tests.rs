use fancy_regex::Regex;
use retable::errors::{DataTableError, ExtractionError};
use retable::value::Value;
use retable::{extract_data, filter, get_number, get_numbers, NamedRegex};

fn lines(ls: &[&str]) -> Vec<String> {
    ls.iter().map(|s| s.to_string()).collect()
}

fn rx(p: &str) -> Regex {
    Regex::new(p).unwrap()
}

fn named(name: &str, p: &str) -> NamedRegex {
    NamedRegex::new_from_string(name, p).unwrap()
}

fn num(neg: bool, mant: u64, exp: i64) -> Value {
    Value::Num { neg, mant, exp }
}

#[test]
fn basic_numeric_extraction() {
    let input = lines(&["T=12.5", "T=13.0"]);
    let regexes = vec![named("t", r"T=(\d+\.\d+)")];
    let t = extract_data(&input, &regexes, &vec![], &vec![], None, true).unwrap();
    assert_eq!(t.get_name(0).unwrap(), "t");
    assert_eq!(t.get_col(0).unwrap(), vec![num(false, 125, -1), num(false, 130, -1)]);
    assert_eq!(t.get_base_data().clone(), vec![num(false, 0, 0), num(false, 1, 0)]);
}

#[test]
fn include_filter_keeps_matching_lines() {
    let input = lines(&["A 1", "B 2", "A 3"]);
    let out = filter(&input, &vec![rx("^A")], &vec![]).unwrap();
    assert_eq!(out, lines(&["A 1", "A 3"]));
}

#[test]
fn exclude_overrides_include() {
    let input = lines(&["error 1", "ok 2"]);
    let out = filter(&input, &vec![rx(r"\d")], &vec![rx("error")]).unwrap();
    assert_eq!(out, lines(&["ok 2"]));
}

#[test]
fn empty_filters_are_identity() {
    let input = lines(&["a", "", "b b", "a"]);
    let out = filter(&input, &vec![], &vec![]).unwrap();
    assert_eq!(out, input);
}

#[test]
fn filtering_twice_changes_nothing() {
    let input = lines(&["keep 1", "drop", "keep 2", "noise"]);
    let includes = vec![rx("keep")];
    let excludes = vec![rx("2")];
    let once = filter(&input, &includes, &excludes).unwrap();
    let twice = filter(&once, &includes, &excludes).unwrap();
    assert_eq!(once, twice);
}

#[test]
fn nan_on_non_matching_line() {
    let input = lines(&["x=1 y=2", "x=3"]);
    let regexes = vec![named("x", r"x=(\d+)"), named("y", r"y=(\d+)")];
    let t = extract_data(&input, &regexes, &vec![], &vec![], None, true).unwrap();
    assert_eq!(t.get_col_by_name("x").unwrap(), vec![num(false, 1, 0), num(false, 3, 0)]);
    assert_eq!(t.get_col_by_name("y").unwrap(), vec![num(false, 2, 0), Value::Nan]);
}

#[test]
fn unparseable_capture_contributes_nan() {
    let input = lines(&["v=abc"]);
    let regexes = vec![named("v", "v=(.*)")];
    let t = extract_data(&input, &regexes, &vec![], &vec![], None, true).unwrap();
    assert_eq!(t.get_col(0).unwrap(), vec![Value::Nan]);
}

#[test]
fn group_mode_without_groups_contributes_nan() {
    let input = lines(&["T=42"]);
    let regexes = vec![named("t", r"T=\d+")];
    let t = extract_data(&input, &regexes, &vec![], &vec![], None, true).unwrap();
    assert_eq!(t.get_col(0).unwrap(), vec![Value::Nan]);
}

#[test]
fn all_nan_rows_do_not_abort() {
    let input = lines(&["nothing here", "nor here"]);
    let regexes = vec![named("a", r"a=(\d+)"), named("b", r"b=(\d+)")];
    let t = extract_data(&input, &regexes, &vec![], &vec![], None, true).unwrap();
    assert_eq!(t.get_col(0).unwrap(), vec![Value::Nan, Value::Nan]);
    assert_eq!(t.get_col(1).unwrap(), vec![Value::Nan, Value::Nan]);
    assert_eq!(t.get_rows().len(), 2);
}

#[test]
fn empty_input_gives_declared_columns_no_rows() {
    let input: Vec<String> = vec![];
    let regexes = vec![named("a", r"a=(\d+)"), named("b", r"b=(\d+)")];
    let t = extract_data(&input, &regexes, &vec![], &vec![], None, true).unwrap();
    assert_eq!(t.get_rows().len(), 0);
    let names = t.get_names();
    assert_eq!(names, vec!["a".to_string(), "b".to_string()]);
}

#[test]
fn whole_match_mode_parses_match_zero() {
    let v = get_number("pressure 1013", &rx(r"\d+"), false);
    assert_eq!(v, num(false, 1013, 0));
    let nan = get_number("no digits", &rx(r"\d+"), false);
    assert_eq!(nan, Value::Nan);
}

#[test]
fn get_numbers_yields_one_pair_per_regex() {
    let regexes = vec![named("x", r"x=(\d+)"), named("y", r"y=(\d+)")];
    let pairs = get_numbers("x=4 y=5", &regexes, true);
    assert_eq!(pairs.len(), 2);
    assert_eq!(pairs[0].0, "x");
    assert_eq!(pairs[0].1, num(false, 4, 0));
    assert_eq!(pairs[1].0, "y");
    assert_eq!(pairs[1].1, num(false, 5, 0));
}

#[test]
fn base_by_name_pairs_columns() {
    let input = lines(&["t=1 v=10", "t=2 v=20"]);
    let regexes = vec![named("time", r"t=(\d+)"), named("temp", r"v=(\d+)")];
    let t = extract_data(&input, &regexes, &vec![], &vec![], Some("time"), true).unwrap();
    let mut z = t.get_col_by_name_with_base("temp").unwrap();
    assert_eq!(z.next(), Some((num(false, 1, 0), num(false, 10, 0))));
    assert_eq!(z.next(), Some((num(false, 2, 0), num(false, 20, 0))));
    assert_eq!(z.next(), None);
}

#[test]
fn duplicate_regex_names_fail_extraction() {
    let input = lines(&["a=1"]);
    let regexes = vec![named("a", r"a=(\d+)"), named("a", r"b=(\d+)")];
    let e = extract_data(&input, &regexes, &vec![], &vec![], None, true).unwrap_err();
    assert_eq!(e, ExtractionError::TableFailure(DataTableError::DuplicateName));
}

#[test]
fn no_regexes_fail_extraction() {
    let input = lines(&["a=1"]);
    let regexes: Vec<NamedRegex> = vec![];
    let e = extract_data(&input, &regexes, &vec![], &vec![], None, true).unwrap_err();
    assert_eq!(e, ExtractionError::TableFailure(DataTableError::InconsistentBuilderData));
}

#[test]
fn unknown_base_name_fails_extraction() {
    let input = lines(&["a=1"]);
    let regexes = vec![named("a", r"a=(\d+)")];
    let e = extract_data(&input, &regexes, &vec![], &vec![], Some("z"), true).unwrap_err();
    assert_eq!(e, ExtractionError::TableFailure(DataTableError::InvalidBaseName));
}

#[test]
fn filtered_extraction_skips_dropped_lines() {
    let input = lines(&["keep x=1", "drop x=2", "keep x=3"]);
    let regexes = vec![named("x", r"x=(\d+)")];
    let t = extract_data(&input, &regexes, &vec![rx("keep")], &vec![], None, true).unwrap();
    assert_eq!(t.get_col(0).unwrap(), vec![num(false, 1, 0), num(false, 3, 0)]);
}

#[test]
fn invalid_pattern_yields_none() {
    assert!(NamedRegex::new_from_string("bad", "(").is_none());
    assert!(NamedRegex::new_from_string("ok", r"\d+").is_some());
}

#[test]
fn lookaround_patterns_are_supported() {
    let input = lines(&["a1", "b1", "a2"]);
    let out = filter(&input, &vec![rx(r"(?<=a)\d")], &vec![]).unwrap();
    assert_eq!(out, lines(&["a1", "a2"]));
}
