//! Tests for the reference search semantics: filtering, ordering, and
//! paging over raw rows.

use archives::clickhouse::LogSearchParams;
use archives::clickhouse::RawLogRow;
use archives::semantics::log_row_matches;
use archives::semantics::select_log_rows;
use archives::types::LogSeverity;
use archives::types::Pagination;
use archives::types::TimeRange;
use archives::types::Timestamp;

fn window(start_secs: i64, end_secs: i64) -> TimeRange {
    TimeRange {
        start: Timestamp { secs: start_secs, nanos: 0 },
        end: Timestamp { secs: end_secs, nanos: 0 },
    }
}

fn row(secs: i64, severity: i32, body: &str, service: &str) -> RawLogRow {
    RawLogRow {
        id: String::new(),
        timestamp_secs: secs,
        timestamp_nanos: 0,
        observed_secs: secs,
        observed_nanos: 0,
        trace_id: String::new(),
        span_id: String::new(),
        severity_number: severity,
        severity_text: String::new(),
        body: body.to_string(),
        resource_attributes: "{}".to_string(),
        log_attributes: "{}".to_string(),
        service_name: service.to_string(),
    }
}

fn no_filter_params(start: i64, end: i64, offset: u64, limit: u64) -> LogSearchParams {
    LogSearchParams {
        time_range: window(start, end),
        min_severity: None,
        text_query: None,
        service_name: None,
        pagination: Pagination { offset, limit },
    }
}

#[test]
fn test_search_no_filters_returns_full_page_descending() {
    // 150 rows inside the window, limit 100: exactly 100 come back,
    // strictly descending by timestamp.
    let mut rows = Vec::new();
    for i in 0..150_i64 {
        rows.push(row(1_000 + i, 9, "m", "svc"));
    }
    let params = no_filter_params(0, 10_000, 0, 100);
    let out = select_log_rows(rows, &params);
    assert_eq!(out.len(), 100);
    for i in 1..out.len() {
        assert!(out[i - 1].timestamp_secs > out[i].timestamp_secs);
    }
    // most recent first
    assert_eq!(out[0].timestamp_secs, 1_149);
    assert_eq!(out[99].timestamp_secs, 1_050);
}

#[test]
fn test_search_min_severity_excludes_below_floor() {
    // with a floor of Warn, every row below numeric severity 13 is gone
    let mut rows = Vec::new();
    for i in 0..24_i64 {
        rows.push(row(100 + i, (i + 1) as i32, "m", "svc"));
    }
    let mut params = no_filter_params(0, 1_000, 0, 100);
    params.min_severity = Some(LogSeverity::Warn);
    let out = select_log_rows(rows, &params);
    assert_eq!(out.len(), 12);
    for r in &out {
        assert!(r.severity_number >= 13);
    }
}

#[test]
fn test_search_window_is_half_open() {
    let rows = vec![row(99, 9, "m", "s"), row(100, 9, "m", "s"), row(199, 9, "m", "s"), row(
        200, 9, "m", "s",
    )];
    let params = no_filter_params(100, 200, 0, 10);
    let out = select_log_rows(rows, &params);
    assert_eq!(out.len(), 2);
    assert_eq!(out[0].timestamp_secs, 199);
    assert_eq!(out[1].timestamp_secs, 100);
}

#[test]
fn test_search_text_filter_is_case_blind_substring() {
    let rows = vec![
        row(1, 9, "Disk Full on sda", "s"),
        row(2, 9, "network down", "s"),
        row(3, 9, "DISK FULL again", "s"),
    ];
    let mut params = no_filter_params(0, 10, 0, 10);
    params.text_query = Some("disk full".to_string());
    let out = select_log_rows(rows, &params);
    assert_eq!(out.len(), 2);
    assert_eq!(out[0].timestamp_secs, 3);
    assert_eq!(out[1].timestamp_secs, 1);
}

#[test]
fn test_search_service_filter_exact() {
    let rows = vec![row(1, 9, "m", "api"), row(2, 9, "m", "API"), row(3, 9, "m", "api")];
    let mut params = no_filter_params(0, 10, 0, 10);
    params.service_name = Some("api".to_string());
    let out = select_log_rows(rows, &params);
    assert_eq!(out.len(), 2);
}

#[test]
fn test_search_offset_skips_most_recent() {
    let rows = vec![row(1, 9, "m", "s"), row(2, 9, "m", "s"), row(3, 9, "m", "s")];
    let params = no_filter_params(0, 10, 1, 10);
    let out = select_log_rows(rows, &params);
    assert_eq!(out.len(), 2);
    assert_eq!(out[0].timestamp_secs, 2);
    assert_eq!(out[1].timestamp_secs, 1);
}

#[test]
fn test_row_matches_absent_filters_exclude_nothing() {
    let params = no_filter_params(0, 10, 0, 10);
    assert!(log_row_matches(&row(5, 1, "anything", "any"), &params));
    assert!(!log_row_matches(&row(10, 1, "anything", "any"), &params));
}
