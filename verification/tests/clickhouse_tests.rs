//! Tests for the query translator and the result normalizer.

use archives::clickhouse::bucket_start;
use archives::clickhouse::log_entry_from_row;
use archives::clickhouse::log_entries_from_rows;
use archives::clickhouse::metric_points_from_rows;
use archives::clickhouse::stats_from_rows;
use archives::clickhouse::BindValue;
use archives::clickhouse::ClickHouseClient;
use archives::clickhouse::LogSearchParams;
use archives::clickhouse::MetricQueryParams;
use archives::clickhouse::RawLogRow;
use archives::clickhouse::RawMetricRow;
use archives::clickhouse::TableStatsRow;
use archives::config::ClickHouseConfig;
use archives::types::Aggregation;
use archives::types::LogSeverity;
use archives::types::Pagination;
use archives::types::TimeRange;
use archives::types::Timestamp;

fn test_client() -> ClickHouseClient {
    ClickHouseClient::new(&ClickHouseConfig::default()).unwrap()
}

fn window(start_secs: i64, end_secs: i64) -> TimeRange {
    TimeRange {
        start: Timestamp { secs: start_secs, nanos: 0 },
        end: Timestamp { secs: end_secs, nanos: 0 },
    }
}

fn raw_row(secs: i64, severity: i32, body: &str) -> RawLogRow {
    RawLogRow {
        id: "00000000-0000-0000-0000-000000000000".to_string(),
        timestamp_secs: secs,
        timestamp_nanos: 0,
        observed_secs: secs,
        observed_nanos: 0,
        trace_id: "abc123".to_string(),
        span_id: "def456".to_string(),
        severity_number: severity,
        severity_text: "INFO".to_string(),
        body: body.to_string(),
        resource_attributes: "{}".to_string(),
        log_attributes: "{}".to_string(),
        service_name: "api".to_string(),
    }
}

#[test]
fn test_client_new_keeps_config() {
    let client = test_client();
    assert_eq!(client.url, "http://localhost:8123");
    assert_eq!(client.database, "default");
    assert!(client.username.is_none());
    assert!(client.password.is_none());
}

#[test]
fn test_search_logs_query_no_filters() {
    let client = test_client();
    let params = LogSearchParams {
        time_range: window(100, 200),
        min_severity: None,
        text_query: None,
        service_name: None,
        pagination: Pagination { offset: 0, limit: 100 },
    };
    let q = client.search_logs_query(&params);
    assert!(q.text.starts_with("SELECT generateUUIDv4() as id, Timestamp as timestamp"));
    assert!(q.text.contains("FROM otel_logs WHERE Timestamp >= ? AND Timestamp < ?"));
    assert!(!q.text.contains("SeverityNumber >="));
    assert!(!q.text.contains("ILIKE"));
    assert!(!q.text.contains("ServiceName ="));
    assert!(q.text.ends_with(" ORDER BY Timestamp DESC LIMIT 100 OFFSET 0"));
    assert_eq!(q.binds.len(), 2);
    assert!(matches!(q.binds[0], BindValue::Time(t) if t.secs == 100));
    assert!(matches!(q.binds[1], BindValue::Time(t) if t.secs == 200));
}

#[test]
fn test_search_logs_query_all_filters() {
    let client = test_client();
    let params = LogSearchParams {
        time_range: window(100, 200),
        min_severity: Some(LogSeverity::Warn),
        text_query: Some("disk".to_string()),
        service_name: Some("api".to_string()),
        pagination: Pagination { offset: 40, limit: 20 },
    };
    let q = client.search_logs_query(&params);
    assert!(q.text.contains(" AND SeverityNumber >= 13"));
    assert!(q.text.contains(" AND Body ILIKE ?"));
    assert!(q.text.contains(" AND ServiceName = ?"));
    assert!(q.text.ends_with(" ORDER BY Timestamp DESC LIMIT 20 OFFSET 40"));
    assert_eq!(q.binds.len(), 4);
    assert!(matches!(&q.binds[2], BindValue::Text(t) if t == "%disk%"));
    assert!(matches!(&q.binds[3], BindValue::Text(t) if t == "api"));
}

#[test]
fn test_count_logs_query() {
    let client = test_client();
    let q = client.count_logs_query(&window(5, 6));
    assert_eq!(
        q.text,
        "SELECT count() as count FROM otel_logs WHERE Timestamp >= ? AND Timestamp < ?"
    );
    assert_eq!(q.binds.len(), 2);
}

#[test]
fn test_list_metric_names_query() {
    let client = test_client();
    let q = client.list_metric_names_query();
    assert_eq!(
        q.text,
        "SELECT DISTINCT MetricName as name FROM otel_metrics_gauge ORDER BY name"
    );
    assert!(q.binds.is_empty());
}

#[test]
fn test_stats_query_binds_database() {
    let client = test_client();
    let q = client.stats_query();
    assert!(q.text.contains("FROM system.parts WHERE database = ? AND active = 1"));
    assert_eq!(q.binds.len(), 1);
    assert!(matches!(&q.binds[0], BindValue::Text(t) if t == "default"));
}

#[test]
fn test_query_metrics_query_text() {
    let client = test_client();
    let params = MetricQueryParams {
        metric_name: "cpu_usage".to_string(),
        time_range: window(0, 3600),
        aggregation: Aggregation::P99,
        interval_seconds: Some(30),
        labels: None,
    };
    let q = client.query_metrics_query(&params);
    assert_eq!(
        q.text,
        "SELECT toStartOfInterval(TimeUnix, INTERVAL 30 SECOND) as bucket, \
         quantile(0.99)(Value) as value FROM otel_metrics_gauge WHERE MetricName = ? \
         AND TimeUnix >= ? AND TimeUnix < ? GROUP BY bucket ORDER BY bucket"
    );
    assert_eq!(q.binds.len(), 3);
    assert!(matches!(&q.binds[0], BindValue::Text(t) if t == "cpu_usage"));
}

#[test]
fn test_query_metrics_query_default_interval() {
    let client = test_client();
    let params = MetricQueryParams {
        metric_name: "m".to_string(),
        time_range: window(0, 60),
        aggregation: Aggregation::Avg,
        interval_seconds: None,
        labels: None,
    };
    let q = client.query_metrics_query(&params);
    assert!(q.text.contains("INTERVAL 60 SECOND"));
    assert!(q.text.contains("avg(Value) as value"));
}

#[test]
fn test_normalize_empty_optionals_absent() {
    let mut row = raw_row(1000, 9, "hello");
    row.trace_id = String::new();
    row.span_id = String::new();
    row.service_name = String::new();
    let entry = log_entry_from_row(row);
    assert!(entry.trace_id.is_none());
    assert!(entry.span_id.is_none());
    assert!(entry.service_name.is_none());
}

#[test]
fn test_normalize_present_optionals_kept() {
    let entry = log_entry_from_row(raw_row(1000, 17, "boom"));
    assert_eq!(entry.trace_id.as_deref(), Some("abc123"));
    assert_eq!(entry.span_id.as_deref(), Some("def456"));
    assert_eq!(entry.service_name.as_deref(), Some("api"));
    assert_eq!(entry.severity, LogSeverity::Error);
    assert_eq!(entry.body, "boom");
    assert_eq!(entry.timestamp.secs, 1000);
    assert_eq!(entry.timestamp.nanos, 0);
}

#[test]
fn test_normalize_attributes_parse_or_empty_object() {
    let mut row = raw_row(1, 9, "x");
    row.resource_attributes = "{\"service.version\":\"1.2\"}".to_string();
    row.log_attributes = "not valid json".to_string();
    let entry = log_entry_from_row(row);
    assert_eq!(
        entry.resource_attributes.get("service.version").and_then(|v| v.as_str()),
        Some("1.2")
    );
    // a blob that does not parse degrades to the empty object
    assert!(entry.log_attributes.is_object());
    assert_eq!(entry.log_attributes.as_object().map(|m| m.len()), Some(0));
}

#[test]
fn test_normalize_bad_subseconds_fall_back_to_epoch() {
    let mut row = raw_row(1000, 9, "x");
    row.timestamp_nanos = 2_000_000_000;
    let entry = log_entry_from_row(row);
    assert_eq!(entry.timestamp.secs, 0);
    assert_eq!(entry.timestamp.nanos, 0);
    assert_eq!(entry.observed_timestamp.secs, 1000);
}

#[test]
fn test_normalize_rows_in_order() {
    let rows = vec![raw_row(1, 9, "a"), raw_row(2, 13, "b")];
    let entries = log_entries_from_rows(rows);
    assert_eq!(entries.len(), 2);
    assert_eq!(entries[0].body, "a");
    assert_eq!(entries[1].body, "b");
    assert_eq!(entries[1].severity, LogSeverity::Warn);
}

#[test]
fn test_metric_points_from_rows() {
    let bits = 2.5_f64.to_bits();
    let rows = vec![RawMetricRow { bucket_secs: 60, bucket_nanos: 0, value_bits: bits }];
    let points = metric_points_from_rows(&rows);
    assert_eq!(points.len(), 1);
    assert_eq!(points[0].timestamp.secs, 60);
    assert_eq!(f64::from_bits(points[0].value_bits), 2.5);
}

#[test]
fn test_stats_from_rows_split() {
    let rows = vec![
        TableStatsRow { table: "otel_logs".to_string(), rows: 100, bytes: 4096 },
        TableStatsRow { table: "otel_metrics_gauge".to_string(), rows: 7, bytes: 10 },
        TableStatsRow { table: "otel_metrics_sum".to_string(), rows: 3, bytes: 5 },
        TableStatsRow { table: "unrelated".to_string(), rows: 999, bytes: 999 },
    ];
    let stats = stats_from_rows(&rows);
    assert_eq!(stats.log_count, 100);
    assert_eq!(stats.log_bytes, 4096);
    assert_eq!(stats.metric_count, 10);
    assert_eq!(stats.metric_bytes, 15);
}

#[test]
fn test_health_check_query() {
    let client = test_client();
    let q = client.health_check_query();
    assert_eq!(q.text, "SELECT 1");
    assert!(q.binds.is_empty());
}

#[test]
fn test_minute_buckets_over_one_hour() {
    // One sample per second over a minute-aligned hour lands in exactly
    // 60 distinct buckets, in ascending order.
    let start: i64 = 1_700_000_040; // a multiple of 60
    assert_eq!(start % 60, 0);
    let mut buckets: Vec<i64> = Vec::new();
    for s in 0..3600_i64 {
        let b = bucket_start(start + s, 60);
        if buckets.last() != Some(&b) {
            buckets.push(b);
        }
    }
    assert_eq!(buckets.len(), 60);
    for (k, b) in buckets.iter().enumerate() {
        assert_eq!(*b, start + 60 * k as i64);
    }
}
