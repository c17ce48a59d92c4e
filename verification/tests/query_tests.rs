use log_query::config::TypeConfig;
use log_query::dates::parse_date_filter;
use log_query::query::{run_query, OutputFormat, QueryOutput};
use log_query::QueryError;

fn lines_of(v: &[&str]) -> Vec<String> {
    v.iter().map(|s| s.to_string()).collect()
}

fn empty_config() -> TypeConfig {
    TypeConfig { types: vec![], bindings: vec![] }
}

fn text_of(r: Result<QueryOutput, QueryError>) -> String {
    match r.expect("query succeeds") {
        QueryOutput::Text(t) => t,
        _ => panic!("string-list mode must yield text"),
    }
}

fn count_of(r: Result<QueryOutput, QueryError>) -> usize {
    match r.expect("query succeeds") {
        QueryOutput::Count(c) => c,
        _ => panic!("count mode must yield a count"),
    }
}

#[test]
fn string_list_output_is_joined() {
    let file = lines_of(&["a:1", "b:2", "a:3", "a:4"]);
    let r = run_query(&empty_config(), "f.log", &file, 1, "a", "", 1, 2, false, OutputFormat::StringList);
    assert_eq!(text_of(r), "a:1\na:3");
}

#[test]
fn count_format_counts_all_matches() {
    let file = lines_of(&["a:1", "b:2", "a:3", "a:4"]);
    let r = run_query(&empty_config(), "f.log", &file, 1, "a", "", 1, 2, false, OutputFormat::LinesNumber);
    assert_eq!(count_of(r), 3);
}

#[test]
fn zero_page_size_in_every_format() {
    let file = lines_of(&["a", "b"]);
    let r = run_query(&empty_config(), "f.log", &file, 1, "", "", 1, 0, false, OutputFormat::LinesNumber);
    assert_eq!(count_of(r), 0);
    let r = run_query(&empty_config(), "f.log", &file, 1, "", "", 1, 0, false, OutputFormat::StringList);
    assert_eq!(text_of(r), "");
}

#[test]
fn last_page_of_fifteen_lines() {
    let all: Vec<String> = (1..=15).map(|i| format!("line {}", i)).collect();
    let refs: Vec<&str> = all.iter().map(|s| s.as_str()).collect();
    let file = lines_of(&refs);
    let r = run_query(&empty_config(), "f.log", &file, 1, "", "", 1, 10, true, OutputFormat::StringList);
    let t = text_of(r);
    let got: Vec<&str> = t.split('\n').collect();
    assert_eq!(got.len(), 5);
    assert_eq!(got[0], "line 11");
    assert_eq!(got[4], "line 15");
}

#[test]
fn last_page_of_empty_file() {
    let file: Vec<String> = Vec::new();
    let r = run_query(&empty_config(), "f.log", &file, 0, "", "", 1, 10, true, OutputFormat::StringList);
    assert_eq!(text_of(r), "");
}

#[test]
fn invalid_date_filter_fails_first() {
    let file = lines_of(&["a"]);
    let r = run_query(&empty_config(), "f.log", &file, 1, "", "not a date", 1, 10, false, OutputFormat::StringList);
    assert_eq!(r.expect_err("malformed date filter"), QueryError::InvalidDateFilter);
}

#[test]
fn empty_date_filter_is_unconstrained() {
    let d = parse_date_filter("").expect("empty filter is valid");
    assert_eq!(d.from, None);
    assert_eq!(d.to, None);
}

#[test]
fn full_datetime_parses_exactly() {
    let d = parse_date_filter("2024-01-02_03:04:05").expect("full date-time is valid");
    assert_eq!(d.from, Some(1704164645));
    assert_eq!(d.to, Some(1704164645));
}

#[test]
fn bare_date_defaults_to_midnight() {
    let bare = parse_date_filter("2024-01-02").expect("bare date is valid");
    let explicit = parse_date_filter("2024-01-02_00:00:00").expect("explicit midnight is valid");
    assert_eq!(bare.from, explicit.from);
    assert_eq!(bare.from, Some(1704153600));
}

#[test]
fn range_has_two_bounds() {
    let d = parse_date_filter("2024-01-02@2024-01-03").expect("range is valid");
    let from = d.from.expect("lower bound parsed");
    let to = d.to.expect("upper bound parsed");
    assert_eq!(to - from, 86400);
}

#[test]
fn two_separators_are_malformed() {
    let e = parse_date_filter("2024-01-02@2024-01-03@2024-01-04").expect_err("two separators");
    assert_eq!(e, QueryError::InvalidDateFilter);
}
