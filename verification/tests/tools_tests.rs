//! Tests for the tool dispatcher: registry, plans, outputs, the error
//! summary, and byte formatting.

use archives::clickhouse::DatabaseStats;
use archives::clickhouse::MetricDataPoint;
use archives::clickhouse::RawLogRow;
use archives::clickhouse::log_entry_from_row;
use archives::error::Error;
use archives::tools::create_tool_registry;
use archives::tools::dispatch_tool;
use archives::tools::error_summary_output;
use archives::tools::format_bytes;
use archives::tools::query_metrics_plan;
use archives::tools::search_logs_plan;
use archives::tools::search_logs_output;
use archives::tools::system_health_output;
use archives::tools::tail_logs_plan;
use archives::tools::error_summary_plan;
use archives::tools::tool_envelope;
use archives::tools::tool_kind_of;
use archives::tools::ErrorSummaryParams;
use archives::tools::McpTool;
use archives::tools::QueryMetricsParams;
use archives::tools::SearchLogsParams;
use archives::tools::TailLogsParams;
use archives::tools::ToolKind;
use archives::tools::ToolOutput;
use archives::tools::ToolRegistry;
use archives::types::Aggregation;
use archives::types::LogEntry;
use archives::types::LogSeverity;

fn error_entry(secs: i64, body: &str) -> LogEntry {
    log_entry_from_row(RawLogRow {
        id: String::new(),
        timestamp_secs: secs,
        timestamp_nanos: 0,
        observed_secs: secs,
        observed_nanos: 0,
        trace_id: String::new(),
        span_id: String::new(),
        severity_number: 17,
        severity_text: "ERROR".to_string(),
        body: body.to_string(),
        resource_attributes: "{}".to_string(),
        log_attributes: "{}".to_string(),
        service_name: "api".to_string(),
    })
}

#[test]
fn test_tool_registry_new() {
    let registry = ToolRegistry::new();
    assert!(registry.list().is_empty());
}

#[test]
fn test_tool_registry_register() {
    let mut registry = ToolRegistry::new();
    registry.register(McpTool {
        name: "test_tool".to_string(),
        description: "A test tool".to_string(),
        input_schema: vec![],
    });
    assert_eq!(registry.list().len(), 1);
}

#[test]
fn test_tool_registry_get() {
    let mut registry = ToolRegistry::new();
    registry.register(McpTool {
        name: "test_tool".to_string(),
        description: "A test tool".to_string(),
        input_schema: vec![],
    });

    let tool = registry.get("test_tool");
    assert!(tool.is_some());
    assert_eq!(tool.unwrap().name, "test_tool");

    let missing = registry.get("nonexistent");
    assert!(missing.is_none());
}

#[test]
fn test_create_tool_registry() {
    let registry = create_tool_registry();
    let tools = registry.list();

    // Should have 5 tools
    assert_eq!(tools.len(), 5);

    // Check all expected tools exist
    assert!(registry.get("search_logs").is_some());
    assert!(registry.get("tail_logs").is_some());
    assert!(registry.get("get_error_summary").is_some());
    assert!(registry.get("query_metrics").is_some());
    assert!(registry.get("get_system_health").is_some());
}

#[test]
fn test_create_tool_registry_schemas() {
    let registry = create_tool_registry();
    let search = registry.get("search_logs").unwrap();
    assert_eq!(search.input_schema.len(), 5);
    assert_eq!(search.input_schema[1].name, "hours");
    assert_eq!(search.input_schema[1].default_int, Some(1));
    assert_eq!(search.input_schema[2].allowed_values.len(), 6);
    let metrics = registry.get("query_metrics").unwrap();
    assert!(metrics.input_schema[0].required);
    assert_eq!(metrics.input_schema[2].allowed_values.len(), 8);
    let health = registry.get("get_system_health").unwrap();
    assert!(health.input_schema.is_empty());
}

#[test]
fn test_format_bytes() {
    assert_eq!(format_bytes(0), "0 bytes");
    assert_eq!(format_bytes(500), "500 bytes");
    assert_eq!(format_bytes(1024), "1.00 KB");
    assert_eq!(format_bytes(1536), "1.50 KB");
    assert_eq!(format_bytes(1024 * 1024), "1.00 MB");
    assert_eq!(format_bytes(1024 * 1024 * 1024), "1.00 GB");
    assert_eq!(format_bytes(1024 * 1024 * 1024 * 2), "2.00 GB");
}

#[test]
fn test_format_bytes_boundaries() {
    assert_eq!(format_bytes(1023), "1023 bytes");
    assert_eq!(format_bytes(1024 * 1024 - 1), "1024.00 KB");
    assert_eq!(format_bytes(1124), "1.10 KB");
}

#[test]
fn test_unknown_tool_dispatch() {
    assert_eq!(tool_kind_of("search_logs"), Some(ToolKind::SearchLogs));
    assert_eq!(tool_kind_of("get_system_health"), Some(ToolKind::GetSystemHealth));
    assert_eq!(tool_kind_of("no_such_tool"), None);

    let err = dispatch_tool("no_such_tool").unwrap_err();
    assert!(err.is_not_found());
    assert_eq!(err.message(), "Resource not found: Tool not found: no_such_tool");

    assert_eq!(dispatch_tool("tail_logs").unwrap(), ToolKind::TailLogs);
}

#[test]
fn test_search_logs_plan_defaults() {
    let plan = search_logs_plan(SearchLogsParams {
        query: None,
        hours: None,
        min_severity: None,
        service: None,
        limit: None,
    })
    .unwrap();
    assert_eq!(plan.time_range.end.secs - plan.time_range.start.secs, 3600);
    assert!(plan.min_severity.is_none());
    assert!(plan.text_query.is_none());
    assert_eq!(plan.pagination.offset, 0);
    assert_eq!(plan.pagination.limit, 50);
}

#[test]
fn test_search_logs_plan_parses_severity() {
    let plan = search_logs_plan(SearchLogsParams {
        query: Some("disk".to_string()),
        hours: Some(4),
        min_severity: Some("warn".to_string()),
        service: Some("api".to_string()),
        limit: Some(5),
    })
    .unwrap();
    assert_eq!(plan.time_range.end.secs - plan.time_range.start.secs, 4 * 3600);
    assert_eq!(plan.min_severity, Some(LogSeverity::Warn));
    assert_eq!(plan.text_query.as_deref(), Some("disk"));
    assert_eq!(plan.service_name.as_deref(), Some("api"));
    assert_eq!(plan.pagination.limit, 5);

    // an unrecognized severity name means no severity floor, not an error
    let plan = search_logs_plan(SearchLogsParams {
        query: None,
        hours: None,
        min_severity: Some("loud".to_string()),
        service: None,
        limit: None,
    })
    .unwrap();
    assert!(plan.min_severity.is_none());
}

#[test]
fn test_search_logs_plan_rejects_bad_hours() {
    let r = search_logs_plan(SearchLogsParams {
        query: None,
        hours: Some(-1),
        min_severity: None,
        service: None,
        limit: None,
    });
    assert!(matches!(r, Err(Error::InvalidParameter(_))));
}

#[test]
fn test_tail_logs_plan() {
    let plan = tail_logs_plan(TailLogsParams { count: None, min_severity: None, service: None });
    assert_eq!(plan.time_range.end.secs - plan.time_range.start.secs, 600);
    assert_eq!(plan.pagination.limit, 20);
    assert!(plan.text_query.is_none());

    let plan = tail_logs_plan(TailLogsParams {
        count: Some(3),
        min_severity: Some("FATAL".to_string()),
        service: Some("db".to_string()),
    });
    assert_eq!(plan.pagination.limit, 3);
    assert_eq!(plan.min_severity, Some(LogSeverity::Fatal));
    assert_eq!(plan.service_name.as_deref(), Some("db"));
}

#[test]
fn test_error_summary_plan_defaults() {
    let plan = error_summary_plan(ErrorSummaryParams { hours: None, limit: None }).unwrap();
    assert_eq!(plan.hours, 24);
    assert_eq!(plan.limit, 10);
    assert_eq!(plan.search.time_range.end.secs - plan.search.time_range.start.secs, 24 * 3600);
    assert_eq!(plan.search.min_severity, Some(LogSeverity::Error));
    assert_eq!(plan.search.pagination.limit, 1000);
}

#[test]
fn test_query_metrics_plan() {
    let plan = query_metrics_plan(QueryMetricsParams {
        metric_name: "cpu".to_string(),
        hours: None,
        aggregation: Some("P90".to_string()),
        interval_seconds: None,
    })
    .unwrap();
    assert_eq!(plan.metric_name, "cpu");
    assert!(matches!(plan.aggregation, Aggregation::P90));
    assert_eq!(plan.interval_seconds, Some(60));

    // an unknown aggregation name falls back to the average
    let plan = query_metrics_plan(QueryMetricsParams {
        metric_name: "cpu".to_string(),
        hours: Some(2),
        aggregation: Some("median".to_string()),
        interval_seconds: Some(15),
    })
    .unwrap();
    assert!(matches!(plan.aggregation, Aggregation::Avg));
    assert_eq!(plan.interval_seconds, Some(15));

    let r = query_metrics_plan(QueryMetricsParams {
        metric_name: String::new(),
        hours: None,
        aggregation: None,
        interval_seconds: None,
    });
    assert!(matches!(r, Err(Error::InvalidParameter(_))));
}

#[test]
fn test_search_logs_output_reshapes() {
    let logs = vec![error_entry(0, "boom")];
    let out = search_logs_output(&logs);
    assert_eq!(out.count, 1);
    assert_eq!(out.logs[0].timestamp, "1970-01-01T00:00:00+00:00");
    assert_eq!(out.logs[0].severity, "ERROR");
    assert_eq!(out.logs[0].service.as_deref(), Some("api"));
    assert_eq!(out.logs[0].message, "boom");
    assert!(out.logs[0].trace_id.is_none());
}

#[test]
fn test_error_summary_groups_and_sorts() {
    let logs = vec![
        error_entry(1, "disk full on /dev/sda"),
        error_entry(2, "connection reset"),
        error_entry(3, "disk full on /dev/sda"),
        error_entry(4, "disk full on /dev/sda"),
    ];
    let out = error_summary_output(&logs, 10, 24);
    assert_eq!(out.total_errors, 4);
    assert_eq!(out.time_range_hours, 24);
    assert_eq!(out.top_patterns.len(), 2);
    assert_eq!(out.top_patterns[0].pattern, "disk full on /dev/sda");
    assert_eq!(out.top_patterns[0].count, 3);
    assert_eq!(out.top_patterns[0].example, "disk full on /dev/sda");
    assert_eq!(out.top_patterns[1].pattern, "connection reset");
    assert_eq!(out.top_patterns[1].count, 1);
}

#[test]
fn test_error_summary_long_prefix_collapses() {
    // two messages sharing their first 100 characters group together
    let prefix: String = std::iter::repeat('x').take(110).collect();
    let a = format!("{}a", prefix);
    let b = format!("{}b", prefix);
    let logs = vec![
        error_entry(1, &a),
        error_entry(2, &a),
        error_entry(3, &a),
        error_entry(4, &b),
    ];
    let out = error_summary_output(&logs, 10, 24);
    assert_eq!(out.top_patterns.len(), 1);
    assert_eq!(out.top_patterns[0].count, 4);
    let expected_key = format!("{}...", &prefix[..100]);
    assert_eq!(out.top_patterns[0].pattern, expected_key);
    // the example stays the verbatim first occurrence
    assert_eq!(out.top_patterns[0].example, a);
}

#[test]
fn test_error_summary_distinct_short_prefixes() {
    // prefixes that differ within 100 characters stay distinct
    let logs = vec![
        error_entry(1, "disk full on /dev/sda"),
        error_entry(2, "disk full on /dev/sdb"),
        error_entry(3, "disk full on /dev/sda"),
        error_entry(4, "disk full on /dev/sda"),
    ];
    let out = error_summary_output(&logs, 10, 24);
    assert_eq!(out.top_patterns.len(), 2);
    assert_eq!(out.top_patterns[0].pattern, "disk full on /dev/sda");
    assert_eq!(out.top_patterns[0].count, 3);
    assert_eq!(out.top_patterns[1].pattern, "disk full on /dev/sdb");
    assert_eq!(out.top_patterns[1].count, 1);
}

#[test]
fn test_error_summary_tie_break_first_seen() {
    let logs = vec![
        error_entry(1, "late but equal"),
        error_entry(2, "seen first"),
        error_entry(3, "seen first"),
        error_entry(4, "late but equal"),
    ];
    let out = error_summary_output(&logs, 10, 1);
    assert_eq!(out.top_patterns.len(), 2);
    // equal counts: the pattern seen first comes first
    assert_eq!(out.top_patterns[0].pattern, "late but equal");
    assert_eq!(out.top_patterns[1].pattern, "seen first");
}

#[test]
fn test_error_summary_truncates_to_limit() {
    let logs = vec![
        error_entry(1, "a"),
        error_entry(2, "a"),
        error_entry(3, "b"),
        error_entry(4, "c"),
    ];
    let out = error_summary_output(&logs, 1, 24);
    assert_eq!(out.top_patterns.len(), 1);
    assert_eq!(out.top_patterns[0].pattern, "a");
    assert_eq!(out.top_patterns[0].count, 2);
}

#[test]
fn test_system_health_output_composes() {
    let stats = DatabaseStats {
        log_count: 10,
        log_bytes: 2048,
        metric_count: 3,
        metric_bytes: 1024 * 1024,
    };
    let out = system_health_output(&stats, Some(42), None);
    assert_eq!(out.status, "operational");
    assert_eq!(out.storage.log_count, 10);
    assert_eq!(out.storage.log_bytes_human, "2.00 KB");
    assert_eq!(out.storage.metric_bytes_human, "1.00 MB");
    assert_eq!(out.last_hour_total_logs, 42);
    // a failed count degrades to zero instead of failing the report
    assert_eq!(out.last_hour_error_count, 0);
}

#[test]
fn test_tool_envelope() {
    let ok = tool_envelope(Ok(ToolOutput::SystemHealth(system_health_output(
        &DatabaseStats { log_count: 0, log_bytes: 0, metric_count: 0, metric_bytes: 0 },
        None,
        None,
    ))));
    assert!(ok.success);
    assert!(ok.data.is_some());
    assert!(ok.error.is_none());

    let err = tool_envelope(Err(Error::NotFound("Tool not found: x".to_string())));
    assert!(!err.success);
    assert!(err.data.is_none());
    assert_eq!(err.error.as_deref(), Some("Resource not found: Tool not found: x"));
}

#[test]
fn test_query_metrics_output_reshapes() {
    let params = query_metrics_plan(QueryMetricsParams {
        metric_name: "cpu".to_string(),
        hours: Some(1),
        aggregation: Some("max".to_string()),
        interval_seconds: Some(60),
    })
    .unwrap();
    let points = vec![MetricDataPoint {
        timestamp: archives::types::Timestamp { secs: 0, nanos: 0 },
        value_bits: 1.5_f64.to_bits(),
    }];
    let out = archives::tools::query_metrics_output(&params, &points);
    assert_eq!(out.metric_name, "cpu");
    assert_eq!(out.aggregation, "max");
    assert_eq!(out.interval_seconds, 60);
    assert_eq!(out.data_points, 1);
    assert_eq!(out.data[0].timestamp, "1970-01-01T00:00:00+00:00");
    assert_eq!(f64::from_bits(out.data[0].value_bits), 1.5);
}

#[test]
fn test_tail_logs_output_omits_trace() {
    let logs = vec![error_entry(0, "x")];
    let out = archives::tools::tail_logs_output(&logs);
    assert_eq!(out.count, 1);
    assert_eq!(out.logs[0].severity, "ERROR");
    assert_eq!(out.logs[0].message, "x");
}

#[test]
fn test_tool_registry_register_replaces_same_name() {
    let mut registry = ToolRegistry::new();
    registry.register(McpTool {
        name: "test_tool".to_string(),
        description: "first".to_string(),
        input_schema: vec![],
    });
    registry.register(McpTool {
        name: "test_tool".to_string(),
        description: "second".to_string(),
        input_schema: vec![],
    });
    assert_eq!(registry.list().len(), 1);
    assert_eq!(registry.get("test_tool").unwrap().description, "second");
}

#[test]
fn test_error_summary_limit_zero() {
    let logs = vec![error_entry(1, "a")];
    let out = error_summary_output(&logs, 0, 24);
    assert_eq!(out.total_errors, 1);
    assert!(out.top_patterns.is_empty());
}

#[test]
fn test_error_summary_empty_input() {
    let logs: Vec<LogEntry> = Vec::new();
    let out = error_summary_output(&logs, 10, 24);
    assert_eq!(out.total_errors, 0);
    assert!(out.top_patterns.is_empty());
}
