//! Tests for the core types: severity codec, display names, time
//! ranges, pagination, and name parsing.

use archives::types::Aggregation;
use archives::types::LogSeverity;
use archives::types::MetricType;
use archives::types::Pagination;
use archives::types::TimeRange;

#[test]
fn test_log_severity_from_severity_number() {
    assert_eq!(LogSeverity::from_severity_number(1), LogSeverity::Trace);
    assert_eq!(LogSeverity::from_severity_number(4), LogSeverity::Trace);
    assert_eq!(LogSeverity::from_severity_number(5), LogSeverity::Debug);
    assert_eq!(LogSeverity::from_severity_number(8), LogSeverity::Debug);
    assert_eq!(LogSeverity::from_severity_number(9), LogSeverity::Info);
    assert_eq!(LogSeverity::from_severity_number(12), LogSeverity::Info);
    assert_eq!(LogSeverity::from_severity_number(13), LogSeverity::Warn);
    assert_eq!(LogSeverity::from_severity_number(16), LogSeverity::Warn);
    assert_eq!(LogSeverity::from_severity_number(17), LogSeverity::Error);
    assert_eq!(LogSeverity::from_severity_number(20), LogSeverity::Error);
    assert_eq!(LogSeverity::from_severity_number(21), LogSeverity::Fatal);
    assert_eq!(LogSeverity::from_severity_number(24), LogSeverity::Fatal);
}

#[test]
fn test_log_severity_from_severity_number_out_of_range() {
    // Out of range defaults to Info
    assert_eq!(LogSeverity::from_severity_number(0), LogSeverity::Info);
    assert_eq!(LogSeverity::from_severity_number(25), LogSeverity::Info);
    assert_eq!(LogSeverity::from_severity_number(-1), LogSeverity::Info);
}

#[test]
fn test_log_severity_to_severity_number() {
    assert_eq!(LogSeverity::Trace.to_severity_number(), 1);
    assert_eq!(LogSeverity::Debug.to_severity_number(), 5);
    assert_eq!(LogSeverity::Info.to_severity_number(), 9);
    assert_eq!(LogSeverity::Warn.to_severity_number(), 13);
    assert_eq!(LogSeverity::Error.to_severity_number(), 17);
    assert_eq!(LogSeverity::Fatal.to_severity_number(), 21);
}

#[test]
fn test_log_severity_display() {
    assert_eq!(LogSeverity::Trace.display_name(), "TRACE");
    assert_eq!(LogSeverity::Debug.display_name(), "DEBUG");
    assert_eq!(LogSeverity::Info.display_name(), "INFO");
    assert_eq!(LogSeverity::Warn.display_name(), "WARN");
    assert_eq!(LogSeverity::Error.display_name(), "ERROR");
    assert_eq!(LogSeverity::Fatal.display_name(), "FATAL");
}

#[test]
fn test_log_severity_roundtrip() {
    for sev in [
        LogSeverity::Trace,
        LogSeverity::Debug,
        LogSeverity::Info,
        LogSeverity::Warn,
        LogSeverity::Error,
        LogSeverity::Fatal,
    ] {
        let num = sev.to_severity_number();
        assert_eq!(LogSeverity::from_severity_number(num), sev);
    }
}

#[test]
fn test_time_range_last_minutes() {
    let range = TimeRange::last_minutes(30);
    let now = chrono::Utc::now();

    // End should be close to now
    assert!((range.end.secs - now.timestamp()).abs() < 2);

    // Duration should be approximately 30 minutes
    let duration_secs = range.end.secs - range.start.secs;
    assert!((duration_secs / 60 - 30).abs() < 1);
}

#[test]
fn test_time_range_last_hours() {
    let range = TimeRange::last_hours(24);
    let now = chrono::Utc::now();

    // End should be close to now
    assert!((range.end.secs - now.timestamp()).abs() < 2);

    // Duration should be approximately 24 hours
    let duration_secs = range.end.secs - range.start.secs;
    assert!((duration_secs / 3600 - 24).abs() < 1);
}

#[test]
fn test_pagination_default() {
    let pagination = Pagination::default();
    assert_eq!(pagination.offset, 0);
    assert_eq!(pagination.limit, 100);
}

#[test]
fn test_pagination_from_options() {
    let pagination = Pagination::from_options(None, None);
    assert_eq!(pagination.offset, 0);
    assert_eq!(pagination.limit, 100);
    let pagination = Pagination::from_options(Some(7), Some(3));
    assert_eq!(pagination.offset, 7);
    assert_eq!(pagination.limit, 3);
}

#[test]
fn test_aggregation_display() {
    assert_eq!(Aggregation::Avg.display_name(), "avg");
    assert_eq!(Aggregation::Min.display_name(), "min");
    assert_eq!(Aggregation::Max.display_name(), "max");
    assert_eq!(Aggregation::Sum.display_name(), "sum");
    assert_eq!(Aggregation::Count.display_name(), "count");
    assert_eq!(Aggregation::P50.display_name(), "p50");
    assert_eq!(Aggregation::P90.display_name(), "p90");
    assert_eq!(Aggregation::P99.display_name(), "p99");
}

#[test]
fn test_metric_type_display() {
    assert_eq!(MetricType::Gauge.display_name(), "gauge");
    assert_eq!(MetricType::Sum.display_name(), "sum");
    assert_eq!(MetricType::Histogram.display_name(), "histogram");
    assert_eq!(
        MetricType::ExponentialHistogram.display_name(),
        "exponential_histogram"
    );
    assert_eq!(MetricType::Summary.display_name(), "summary");
}

#[test]
fn test_severity_parse_name() {
    assert_eq!(LogSeverity::parse_name("ERROR"), Some(LogSeverity::Error));
    assert_eq!(LogSeverity::parse_name("error"), Some(LogSeverity::Error));
    assert_eq!(LogSeverity::parse_name("ErRoR"), Some(LogSeverity::Error));
    assert_eq!(LogSeverity::parse_name("warn"), Some(LogSeverity::Warn));
    assert_eq!(LogSeverity::parse_name("TRACE"), Some(LogSeverity::Trace));
    assert_eq!(LogSeverity::parse_name("nonsense"), None);
    assert_eq!(LogSeverity::parse_name(""), None);
}

#[test]
fn test_aggregation_parse_name() {
    assert_eq!(Aggregation::parse_name("avg"), Some(Aggregation::Avg));
    assert_eq!(Aggregation::parse_name("AVG"), Some(Aggregation::Avg));
    assert_eq!(Aggregation::parse_name("p99"), Some(Aggregation::P99));
    assert_eq!(Aggregation::parse_name("P50"), Some(Aggregation::P50));
    assert_eq!(Aggregation::parse_name("median"), None);
}

#[test]
fn test_timestamp_rfc3339_epoch() {
    let ts = archives::types::Timestamp { secs: 0, nanos: 0 };
    assert_eq!(ts.to_rfc3339(), "1970-01-01T00:00:00+00:00");
    let ts = archives::types::Timestamp {
        secs: 1_700_000_000,
        nanos: 0,
    };
    assert_eq!(ts.to_rfc3339(), "2023-11-14T22:13:20+00:00");
}

#[test]
fn test_metric_sample_fields() {
    let m = archives::types::Metric {
        name: "cpu".to_string(),
        description: None,
        unit: Some("percent".to_string()),
        metric_type: MetricType::Gauge,
        timestamp: archives::types::Timestamp { secs: 60, nanos: 0 },
        value_bits: Some(0.5_f64.to_bits()),
        resource_attributes: serde_json::Value::Null,
        attributes: serde_json::Value::Null,
        service_name: None,
    };
    assert_eq!(m.metric_type.display_name(), "gauge");
    assert_eq!(m.value_bits.map(f64::from_bits), Some(0.5));
}
