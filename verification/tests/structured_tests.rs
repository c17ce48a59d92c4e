use log_query::config::{resolve, FileBinding, TypeConfig};
use log_query::query::{run_query, OutputFormat, QueryOutput};
use log_query::rx::CompiledRegex;
use log_query::QueryError;

fn lines_of(v: &[&str]) -> Vec<String> {
    v.iter().map(|s| s.to_string()).collect()
}

fn demo_config() -> TypeConfig {
    TypeConfig {
        types: vec![(
            "applog".to_string(),
            "(?P<date>[0-9-]+) (?P<message>.+)".to_string(),
        )],
        bindings: vec![(
            "app.log".to_string(),
            FileBinding {
                log_type: "applog".to_string(),
                date_format: Some("%Y-%m-%d".to_string()),
            },
        )],
    }
}

#[test]
fn named_groups_become_record() {
    let re = CompiledRegex::compile("(?P<date>[0-9]+) (?P<message>.+)").expect("pattern compiles");
    let rec = re.extract("123 hello world", 0).expect("line matches");
    assert_eq!(rec.len(), 2);
    assert_eq!(rec[0], ("date".to_string(), "123".to_string()));
    assert_eq!(rec[1], ("message".to_string(), "hello world".to_string()));
}

#[test]
fn non_matching_line_is_extraction_failure() {
    let re = CompiledRegex::compile("^(?P<num>[0-9]+)$").expect("pattern compiles");
    let err = re.extract("abc", 7).expect_err("line does not match");
    assert_eq!(err, QueryError::LineExtractionFailure { line: 7 });
}

#[test]
fn absent_group_is_extraction_failure() {
    let re = CompiledRegex::compile("(?P<a>x)|(?P<b>y)").expect("pattern compiles");
    let err = re.extract("x", 0).expect_err("group b does not participate");
    assert_eq!(err, QueryError::LineExtractionFailure { line: 0 });
}

#[test]
fn unresolved_file_type_is_fatal_in_structured_mode() {
    let config = demo_config();
    let file = lines_of(&["2024-01-01 something"]);
    let r = run_query(
        &config,
        "logs/unknown.log",
        &file,
        10,
        "",
        "",
        1,
        10,
        false,
        OutputFormat::Json,
    );
    assert_eq!(r.expect_err("no binding for this file"), QueryError::UnresolvedFileType);
}

#[test]
fn missing_type_entry_is_invalid_config() {
    let config = TypeConfig {
        types: vec![],
        bindings: vec![(
            "app.log".to_string(),
            FileBinding { log_type: "applog".to_string(), date_format: None },
        )],
    };
    let file = lines_of(&["x"]);
    let r = run_query(&config, "app.log", &file, 1, "", "", 1, 10, false, OutputFormat::StringList);
    assert_eq!(r.expect_err("bound type has no pattern"), QueryError::InvalidConfig);
}

#[test]
fn rejected_pattern_is_invalid_config() {
    let config = TypeConfig {
        types: vec![("applog".to_string(), "(".to_string())],
        bindings: vec![(
            "app.log".to_string(),
            FileBinding { log_type: "applog".to_string(), date_format: None },
        )],
    };
    let file = lines_of(&["x"]);
    let r = run_query(&config, "app.log", &file, 1, "", "", 1, 10, false, OutputFormat::Json);
    assert_eq!(r.expect_err("pattern does not compile"), QueryError::InvalidConfig);
}

#[test]
fn extraction_failure_reports_line_position() {
    let config = demo_config();
    let file = lines_of(&["2024-01-01 fine", "garbage"]);
    let r = run_query(&config, "app.log", &file, 1, "", "", 1, 10, false, OutputFormat::Json);
    assert_eq!(
        r.expect_err("second line does not fit the pattern"),
        QueryError::LineExtractionFailure { line: 1 }
    );
}

#[test]
fn structured_report_fields() {
    let config = demo_config();
    let file = lines_of(&[
        "2024-01-01 first",
        "noise line",
        "2024-01-02 second",
        "2024-01-03 third",
    ]);
    let r = run_query(
        &config,
        "var/log/app.log",
        &file,
        123,
        "2024",
        "",
        1,
        2,
        false,
        OutputFormat::Json,
    );
    match r.expect("query succeeds") {
        QueryOutput::Report(rep) => {
            assert_eq!(rep.items_count, 3);
            assert_eq!(rep.page_index, 1);
            assert_eq!(rep.page_size, 2);
            assert_eq!(rep.pages_count, 2);
            assert_eq!(rep.file_size, 123);
            assert_eq!(rep.lines.len(), 2);
            assert_eq!(rep.lines[0][0], ("date".to_string(), "2024-01-01".to_string()));
            assert_eq!(rep.lines[0][1], ("message".to_string(), "first".to_string()));
            assert_eq!(rep.lines[1][0], ("date".to_string(), "2024-01-02".to_string()));
        }
        _ => panic!("structured mode must yield a report"),
    }
}

#[test]
fn resolve_uses_base_name() {
    let config = demo_config();
    let resolved = resolve(&config, "deep/nested/dir/app.log")
        .expect("resolution succeeds")
        .expect("binding exists");
    assert_eq!(resolved.date_format, Some("%Y-%m-%d".to_string()));
}

#[test]
fn resolve_unknown_file_is_none() {
    let config = demo_config();
    let resolved = resolve(&config, "deep/nested/dir/other.log").expect("resolution succeeds");
    assert!(resolved.is_none());
}
