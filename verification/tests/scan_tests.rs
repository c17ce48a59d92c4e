use log_query::scan::{scan, ScanItems, ScanMode, ScanRequest, ScanResult};
use log_query::QueryError;

fn lines_of(v: &[&str]) -> Vec<String> {
    v.iter().map(|s| s.to_string()).collect()
}

fn raw_request(filter: &str, page_index: usize, page_size: usize, count_to_end: bool) -> ScanRequest {
    ScanRequest {
        filter: filter.to_string(),
        page_index,
        page_size,
        mode: ScanMode::RawLines,
        count_to_end,
        regex: None,
    }
}

fn run_raw(
    lines: &[&str],
    filter: &str,
    page_index: usize,
    page_size: usize,
    count_to_end: bool,
) -> (usize, Vec<String>) {
    let file = lines_of(lines);
    let req = raw_request(filter, page_index, page_size, count_to_end);
    let res: Result<ScanResult, QueryError> = scan(&file, &req);
    let res = res.expect("raw scan should not fail");
    match res.items {
        ScanItems::Lines(v) => (res.matched_count, v),
        ScanItems::Records(_) => panic!("raw mode must yield lines"),
    }
}

#[test]
fn filtered_first_page() {
    let (count, items) = run_raw(&["a:1", "b:2", "a:3", "a:4"], "a", 1, 2, true);
    assert_eq!(items, vec!["a:1".to_string(), "a:3".to_string()]);
    assert_eq!(count, 3);
}

#[test]
fn empty_filter_second_page() {
    let all: Vec<String> = (1..=15).map(|i| format!("line {}", i)).collect();
    let refs: Vec<&str> = all.iter().map(|s| s.as_str()).collect();
    let (count, items) = run_raw(&refs, "", 2, 10, true);
    assert_eq!(count, 15);
    assert_eq!(items.len(), 5);
    assert_eq!(items[0], "line 11");
    assert_eq!(items[4], "line 15");
}

#[test]
fn zero_page_size_yields_nothing() {
    let (count, items) = run_raw(&["a", "b", "a"], "a", 1, 0, true);
    assert_eq!(count, 0);
    assert!(items.is_empty());
}

#[test]
fn zero_page_size_count_mode() {
    let file = lines_of(&["a", "b", "a"]);
    let req = ScanRequest {
        filter: "".to_string(),
        page_index: 1,
        page_size: 0,
        mode: ScanMode::CountOnly,
        count_to_end: true,
        regex: None,
    };
    let res = scan(&file, &req).expect("count scan should not fail");
    assert_eq!(res.matched_count, 0);
}

#[test]
fn count_mode_matches_brute_force() {
    let raw = ["x alpha", "beta", "gamma x", "delta", "xx"];
    let file = lines_of(&raw);
    let req = ScanRequest {
        filter: "x".to_string(),
        page_index: 1,
        page_size: 10,
        mode: ScanMode::CountOnly,
        count_to_end: true,
        regex: None,
    };
    let res = scan(&file, &req).expect("count scan should not fail");
    let brute = raw.iter().filter(|l| l.contains('x')).count();
    assert_eq!(res.matched_count, brute);
    match res.items {
        ScanItems::Lines(v) => assert!(v.is_empty()),
        ScanItems::Records(_) => panic!("count mode must not materialize records"),
    }
}

#[test]
fn early_stop_count_is_window_end() {
    let (count, items) = run_raw(&["a", "a", "a", "a"], "a", 1, 2, false);
    assert_eq!(items.len(), 2);
    assert_eq!(count, 2);
}

#[test]
fn pages_cover_filtered_sequence() {
    let raw = ["k1", "no", "k2", "k3", "no", "k4", "k5"];
    let expected: Vec<String> = raw
        .iter()
        .filter(|l| l.contains('k'))
        .map(|l| l.to_string())
        .collect();
    let page_size = 2;
    let total_pages = (expected.len() + page_size - 1) / page_size;
    let mut walked: Vec<String> = Vec::new();
    for page in 1..=total_pages {
        let (_, items) = run_raw(&raw, "k", page, page_size, true);
        walked.extend(items);
    }
    assert_eq!(walked, expected);
    let (_, beyond) = run_raw(&raw, "k", total_pages + 1, page_size, true);
    assert!(beyond.is_empty());
}

#[test]
fn raw_lines_are_trimmed() {
    let (_, items) = run_raw(&["  padded value \t", "other"], "padded", 1, 5, true);
    assert_eq!(items, vec!["padded value".to_string()]);
}
