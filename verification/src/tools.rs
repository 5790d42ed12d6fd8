//! The tool dispatcher: a closed set of named operations for automated
//! agents, built on the query translator and the result normalizer.
//!
//! Each tool splits into a *plan* step (typed parameters in, a store
//! query plan out) and an *output* step (normalized rows in, the
//! agent-facing record out). The store round trip between the two is the
//! embedding program's business.

use vstd::prelude::*;
use vstd::string::StringExecFns;

use crate::clickhouse::DatabaseStats;
use crate::clickhouse::LogSearchParams;
use crate::clickhouse::MetricDataPoint;
use crate::clickhouse::MetricQueryParams;
use crate::clickhouse::metric_interval_seconds;
use crate::error::Error;
use crate::error::error_message;
use crate::shim;
use crate::textfmt::decimal_digits;
use crate::textfmt::digit_char;
use crate::textfmt::digit_str;
use crate::textfmt::push_decimal;
use crate::textfmt::str_eq;
use crate::textfmt::u64_to_string;
use crate::types::aggregation_display_name;
use crate::types::aggregation_of_name;
use crate::types::clone_opt_string;
use crate::types::severity_display_name;
use crate::types::severity_of_name;
use crate::types::Aggregation;
use crate::types::LogEntry;
use crate::types::LogSeverity;
use crate::types::Pagination;
use crate::types::TimeRange;
use crate::types::MAX_RANGE_HOURS;

verus! {

// ============================================================================
// Dispatch
// ============================================================================

/// The closed set of tools.
#[derive(Clone, Copy, Debug, PartialEq, Eq, Structural)]
pub enum ToolKind {
    SearchLogs,
    TailLogs,
    GetErrorSummary,
    QueryMetrics,
    GetSystemHealth,
}

/// The tool a name denotes, if any.
pub open spec fn tool_kind_of_name(s: Seq<char>) -> Option<ToolKind> {
    if s == "search_logs"@ {
        Some(ToolKind::SearchLogs)
    } else if s == "tail_logs"@ {
        Some(ToolKind::TailLogs)
    } else if s == "get_error_summary"@ {
        Some(ToolKind::GetErrorSummary)
    } else if s == "query_metrics"@ {
        Some(ToolKind::QueryMetrics)
    } else if s == "get_system_health"@ {
        Some(ToolKind::GetSystemHealth)
    } else {
        None
    }
}

/// Look a tool up by name.
pub fn tool_kind_of(name: &str) -> (r: Option<ToolKind>)
    ensures
        r == tool_kind_of_name(name@),
{
    if str_eq(name, "search_logs") {
        Some(ToolKind::SearchLogs)
    } else if str_eq(name, "tail_logs") {
        Some(ToolKind::TailLogs)
    } else if str_eq(name, "get_error_summary") {
        Some(ToolKind::GetErrorSummary)
    } else if str_eq(name, "query_metrics") {
        Some(ToolKind::QueryMetrics)
    } else if str_eq(name, "get_system_health") {
        Some(ToolKind::GetSystemHealth)
    } else {
        None
    }
}

/// Resolve a tool name, failing closed: an unknown name is a not-found
/// condition and nothing else.
pub fn dispatch_tool(name: &str) -> (r: Result<ToolKind, Error>)
    ensures
        tool_kind_of_name(name@) matches Some(k) ==> r matches Ok(x) && x == k,
        tool_kind_of_name(name@) is None ==> (r matches Err(e) && e matches Error::NotFound(m)
            && m@ == "Tool not found: "@ + name@),
{
    match tool_kind_of(name) {
        Some(k) => Ok(k),
        None => Err(Error::NotFound("Tool not found: ".to_owned().concat(name))),
    }
}

// ============================================================================
// Tool parameters and plans
// ============================================================================

/// The integer a caller supplied, or the documented default.
pub open spec fn i64_or(o: Option<i64>, d: int) -> int {
    if o is Some {
        o->0 as int
    } else {
        d
    }
}

/// The count a caller supplied, or the documented default.
pub open spec fn u64_or(o: Option<u64>, d: int) -> int {
    if o is Some {
        o->0 as int
    } else {
        d
    }
}

/// The severity floor a caller's optional name denotes: none where no
/// name was given, and none where the name is not a severity band.
pub open spec fn severity_filter_of(o: Option<String>) -> Option<LogSeverity> {
    match o {
        Some(s) => severity_of_name(s@),
        None => None,
    }
}

/// The aggregation a caller's optional name denotes, defaulting to the
/// average both where no name was given and where the name is unknown.
pub open spec fn aggregation_or_avg(o: Option<String>) -> Aggregation {
    match o {
        Some(s) => match aggregation_of_name(s@) {
            Some(a) => a,
            None => Aggregation::Avg,
        },
        None => Aggregation::Avg,
    }
}

/// Caller parameters of the log-search tool.
#[derive(Debug, Clone)]
pub struct SearchLogsParams {
    pub query: Option<String>,
    pub hours: Option<i64>,
    pub min_severity: Option<String>,
    pub service: Option<String>,
    pub limit: Option<u64>,
}

/// Turn log-search tool parameters into a search plan: a window of the
/// last `hours` hours (default 1), the parsed severity floor, the text
/// and service filters as given, and the first `limit` rows (default 50).
///
/// A look-back outside `0..=MAX_RANGE_HOURS` is rejected as an invalid
/// parameter.
pub fn search_logs_plan(p: SearchLogsParams) -> (r: Result<LogSearchParams, Error>)
    ensures
        r is Ok <==> 0 <= i64_or(p.hours, 1) <= MAX_RANGE_HOURS as int,
        r matches Ok(q) ==> {
            &&& q.time_range.wf()
            &&& q.time_range.end.secs - q.time_range.start.secs == i64_or(p.hours, 1) * 3600
            &&& q.min_severity == severity_filter_of(p.min_severity)
            &&& q.text_query == p.query
            &&& q.service_name == p.service
            &&& q.pagination.offset == 0
            &&& q.pagination.limit as int == u64_or(p.limit, 50)
        },
        r matches Err(e) ==> e is InvalidParameter,
{
    let hours: i64 = match p.hours {
        Some(h) => h,
        None => 1,
    };
    if hours < 0 || hours > MAX_RANGE_HOURS {
        return Err(Error::InvalidParameter("hours out of range".to_owned()));
    }
    let limit: u64 = match p.limit {
        Some(l) => l,
        None => 50,
    };
    let min_severity = match &p.min_severity {
        Some(s) => LogSeverity::parse_name(s.as_str()),
        None => None,
    };
    Ok(
        LogSearchParams {
            time_range: TimeRange::last_hours(hours),
            min_severity,
            text_query: p.query,
            service_name: p.service,
            pagination: Pagination { offset: 0, limit },
        },
    )
}

/// Caller parameters of the tail tool.
#[derive(Debug, Clone)]
pub struct TailLogsParams {
    pub count: Option<u64>,
    pub min_severity: Option<String>,
    pub service: Option<String>,
}

/// Turn tail-tool parameters into a search plan: a fixed ten-minute
/// window, the parsed severity floor, the service filter as given, no
/// text filter, and the most recent `count` rows (default 20).
pub fn tail_logs_plan(p: TailLogsParams) -> (q: LogSearchParams)
    ensures
        q.time_range.wf(),
        q.time_range.end.secs - q.time_range.start.secs == 600,
        q.min_severity == severity_filter_of(p.min_severity),
        q.text_query is None,
        q.service_name == p.service,
        q.pagination.offset == 0,
        q.pagination.limit as int == u64_or(p.count, 20),
{
    let count: u64 = match p.count {
        Some(c) => c,
        None => 20,
    };
    let min_severity = match &p.min_severity {
        Some(s) => LogSeverity::parse_name(s.as_str()),
        None => None,
    };
    LogSearchParams {
        time_range: TimeRange::last_minutes(10),
        min_severity,
        text_query: None,
        service_name: p.service,
        pagination: Pagination { offset: 0, limit: count },
    }
}

/// Caller parameters of the error-summary tool.
#[derive(Debug, Clone)]
pub struct ErrorSummaryParams {
    pub hours: Option<i64>,
    pub limit: Option<u64>,
}

/// An error-summary plan: the search to run and the summary settings.
#[derive(Debug, Clone)]
pub struct ErrorSummaryPlan {
    /// The search fetching the raw error entries.
    pub search: LogSearchParams,
    /// How many top patterns the summary keeps.
    pub limit: u64,
    /// The look-back the summary reports, in hours.
    pub hours: i64,
}

/// Turn error-summary parameters into a plan: a window of the last
/// `hours` hours (default 24) floored at `Error` severity, fetching up
/// to 1000 entries, summarized to the top `limit` patterns (default 10).
///
/// A look-back outside `0..=MAX_RANGE_HOURS` is rejected as an invalid
/// parameter.
pub fn error_summary_plan(p: ErrorSummaryParams) -> (r: Result<ErrorSummaryPlan, Error>)
    ensures
        r is Ok <==> 0 <= i64_or(p.hours, 24) <= MAX_RANGE_HOURS as int,
        r matches Ok(pl) ==> {
            &&& pl.search.time_range.wf()
            &&& pl.search.time_range.end.secs - pl.search.time_range.start.secs == i64_or(
                p.hours,
                24,
            ) * 3600
            &&& pl.search.min_severity == Some(LogSeverity::Error)
            &&& pl.search.text_query is None
            &&& pl.search.service_name is None
            &&& pl.search.pagination.offset == 0
            &&& pl.search.pagination.limit == 1000
            &&& pl.limit as int == u64_or(p.limit, 10)
            &&& pl.hours as int == i64_or(p.hours, 24)
        },
        r matches Err(e) ==> e is InvalidParameter,
{
    let hours: i64 = match p.hours {
        Some(h) => h,
        None => 24,
    };
    if hours < 0 || hours > MAX_RANGE_HOURS {
        return Err(Error::InvalidParameter("hours out of range".to_owned()));
    }
    let limit: u64 = match p.limit {
        Some(l) => l,
        None => 10,
    };
    Ok(
        ErrorSummaryPlan {
            search: LogSearchParams {
                time_range: TimeRange::last_hours(hours),
                min_severity: Some(LogSeverity::Error),
                text_query: None,
                service_name: None,
                pagination: Pagination { offset: 0, limit: 1000 },
            },
            limit,
            hours,
        },
    )
}

/// Caller parameters of the metric-query tool.
#[derive(Debug, Clone)]
pub struct QueryMetricsParams {
    pub metric_name: String,
    pub hours: Option<i64>,
    pub aggregation: Option<String>,
    pub interval_seconds: Option<u32>,
}

/// Turn metric-query tool parameters into a metric query plan: a window
/// of the last `hours` hours (default 1), the parsed aggregation
/// (default average), and the caller's bucket width (default 60 s).
///
/// An empty metric name, or a look-back outside `0..=MAX_RANGE_HOURS`,
/// is rejected as an invalid parameter.
pub fn query_metrics_plan(p: QueryMetricsParams) -> (r: Result<MetricQueryParams, Error>)
    ensures
        r is Ok <==> (p.metric_name@.len() > 0 && 0 <= i64_or(p.hours, 1) <= MAX_RANGE_HOURS
            as int),
        r matches Ok(q) ==> {
            &&& q.metric_name == p.metric_name
            &&& q.time_range.wf()
            &&& q.time_range.end.secs - q.time_range.start.secs == i64_or(p.hours, 1) * 3600
            &&& q.aggregation == aggregation_or_avg(p.aggregation)
            &&& (q.interval_seconds matches Some(i) && i as int == (if p.interval_seconds
                is Some {
                p.interval_seconds->0 as int
            } else {
                60
            }))
            &&& q.labels is None
        },
        r matches Err(e) ==> e is InvalidParameter,
{
    if p.metric_name.as_str().is_empty() {
        return Err(Error::InvalidParameter("metric_name must not be empty".to_owned()));
    }
    let hours: i64 = match p.hours {
        Some(h) => h,
        None => 1,
    };
    if hours < 0 || hours > MAX_RANGE_HOURS {
        return Err(Error::InvalidParameter("hours out of range".to_owned()));
    }
    let aggregation = match &p.aggregation {
        Some(s) => match Aggregation::parse_name(s.as_str()) {
            Some(a) => a,
            None => Aggregation::Avg,
        },
        None => Aggregation::Avg,
    };
    let interval: u32 = match p.interval_seconds {
        Some(i) => i,
        None => 60,
    };
    Ok(
        MetricQueryParams {
            metric_name: p.metric_name,
            time_range: TimeRange::last_hours(hours),
            aggregation,
            interval_seconds: Some(interval),
            labels: None,
        },
    )
}

// ============================================================================
// Tool outputs
// ============================================================================

/// One log line as the search tool reports it.
#[derive(Debug, Clone)]
pub struct SearchLogRecord {
    pub timestamp: String,
    pub severity: String,
    pub service: Option<String>,
    pub message: String,
    pub trace_id: Option<String>,
}

/// How a search record renders a normalized entry: RFC 3339 timestamp
/// text, the severity display name, and the entry's own fields.
pub open spec fn search_record_matches(r: SearchLogRecord, e: LogEntry) -> bool {
    &&& r.timestamp@ == shim::rfc3339_text(e.timestamp.secs as int, e.timestamp.nanos as int)
    &&& r.severity@ == severity_display_name(e.severity)
    &&& r.service == e.service_name
    &&& r.message@ == e.body@
    &&& r.trace_id == e.trace_id
}

/// The search tool's output: the records and their count.
#[derive(Debug, Clone)]
pub struct SearchLogsOutput {
    pub count: usize,
    pub logs: Vec<SearchLogRecord>,
}

/// Reshape normalized entries into the search tool's output.
pub fn search_logs_output(logs: &Vec<LogEntry>) -> (r: SearchLogsOutput)
    ensures
        r.count == logs@.len(),
        r.logs@.len() == logs@.len(),
        forall|i: int|
            0 <= i < logs@.len() ==> #[trigger] search_record_matches(r.logs@[i], logs@[i]),
{
    let mut records: Vec<SearchLogRecord> = Vec::new();
    let mut i: usize = 0;
    while i < logs.len()
        invariant
            0 <= i <= logs@.len(),
            records@.len() == i,
            forall|j: int|
                0 <= j < i ==> #[trigger] search_record_matches(records@[j], logs@[j]),
        decreases logs@.len() - i,
    {
        let e = &logs[i];
        records.push(
            SearchLogRecord {
                timestamp: e.timestamp.to_rfc3339(),
                severity: e.severity.display_name(),
                service: clone_opt_string(&e.service_name),
                message: e.body.clone(),
                trace_id: clone_opt_string(&e.trace_id),
            },
        );
        i += 1;
    }
    SearchLogsOutput { count: logs.len(), logs: records }
}

/// One log line as the tail tool reports it: like a search record, but
/// without the trace id.
#[derive(Debug, Clone)]
pub struct TailLogRecord {
    pub timestamp: String,
    pub severity: String,
    pub service: Option<String>,
    pub message: String,
}

/// How a tail record renders a normalized entry.
pub open spec fn tail_record_matches(r: TailLogRecord, e: LogEntry) -> bool {
    &&& r.timestamp@ == shim::rfc3339_text(e.timestamp.secs as int, e.timestamp.nanos as int)
    &&& r.severity@ == severity_display_name(e.severity)
    &&& r.service == e.service_name
    &&& r.message@ == e.body@
}

/// The tail tool's output: the records and their count.
#[derive(Debug, Clone)]
pub struct TailLogsOutput {
    pub count: usize,
    pub logs: Vec<TailLogRecord>,
}

/// Reshape normalized entries into the tail tool's output.
pub fn tail_logs_output(logs: &Vec<LogEntry>) -> (r: TailLogsOutput)
    ensures
        r.count == logs@.len(),
        r.logs@.len() == logs@.len(),
        forall|i: int| 0 <= i < logs@.len() ==> #[trigger] tail_record_matches(r.logs@[i], logs@[i]),
{
    let mut records: Vec<TailLogRecord> = Vec::new();
    let mut i: usize = 0;
    while i < logs.len()
        invariant
            0 <= i <= logs@.len(),
            records@.len() == i,
            forall|j: int| 0 <= j < i ==> #[trigger] tail_record_matches(records@[j], logs@[j]),
        decreases logs@.len() - i,
    {
        let e = &logs[i];
        records.push(
            TailLogRecord {
                timestamp: e.timestamp.to_rfc3339(),
                severity: e.severity.display_name(),
                service: clone_opt_string(&e.service_name),
                message: e.body.clone(),
            },
        );
        i += 1;
    }
    TailLogsOutput { count: logs.len(), logs: records }
}

/// One time-series point as the metric tool reports it. The value stays
/// the raw bits of an IEEE 754 double, untouched by this crate.
#[derive(Debug, Clone)]
pub struct MetricPointRecord {
    pub timestamp: String,
    pub value_bits: u64,
}

/// How a point record renders a data point.
pub open spec fn point_record_matches(r: MetricPointRecord, p: MetricDataPoint) -> bool {
    &&& r.timestamp@ == shim::rfc3339_text(p.timestamp.secs as int, p.timestamp.nanos as int)
    &&& r.value_bits == p.value_bits
}

/// The metric tool's output: what was asked, and the series that came
/// back.
#[derive(Debug, Clone)]
pub struct QueryMetricsOutput {
    pub metric_name: String,
    pub aggregation: String,
    pub interval_seconds: u32,
    pub data_points: usize,
    pub data: Vec<MetricPointRecord>,
}

/// Reshape a metric query's plan and points into the tool's output.
pub fn query_metrics_output(params: &MetricQueryParams, points: &Vec<MetricDataPoint>) -> (r:
    QueryMetricsOutput)
    ensures
        r.metric_name == params.metric_name,
        r.aggregation@ == aggregation_display_name(params.aggregation),
        r.interval_seconds as int == metric_interval_seconds(params),
        r.data_points == points@.len(),
        r.data@.len() == points@.len(),
        forall|i: int|
            0 <= i < points@.len() ==> #[trigger] point_record_matches(r.data@[i], points@[i]),
{
    let mut data: Vec<MetricPointRecord> = Vec::new();
    let mut i: usize = 0;
    while i < points.len()
        invariant
            0 <= i <= points@.len(),
            data@.len() == i,
            forall|j: int|
                0 <= j < i ==> #[trigger] point_record_matches(data@[j], points@[j]),
        decreases points@.len() - i,
    {
        let p = &points[i];
        data.push(
            MetricPointRecord { timestamp: p.timestamp.to_rfc3339(), value_bits: p.value_bits },
        );
        i += 1;
    }
    let interval: u32 = match params.interval_seconds {
        Some(s) => s,
        None => 60,
    };
    QueryMetricsOutput {
        metric_name: params.metric_name.clone(),
        aggregation: params.aggregation.display_name(),
        interval_seconds: interval,
        data_points: points.len(),
        data,
    }
}

/// The storage half of a health report.
#[derive(Debug, Clone)]
pub struct StorageHealth {
    pub log_count: u64,
    pub log_bytes: u64,
    pub log_bytes_human: String,
    pub metric_count: u64,
    pub metric_bytes: u64,
    pub metric_bytes_human: String,
}

/// The health tool's output: storage totals with human-readable sizes,
/// and the last hour's log and error counts.
#[derive(Debug, Clone)]
pub struct SystemHealthOutput {
    pub status: String,
    pub storage: StorageHealth,
    pub last_hour_total_logs: u64,
    pub last_hour_error_count: u64,
}

/// Compose a health report. A count whose query failed degrades to zero
/// rather than failing the report: health must stay maximally available.
pub fn system_health_output(
    stats: &DatabaseStats,
    total_logs: Option<u64>,
    error_count: Option<u64>,
) -> (r: SystemHealthOutput)
    ensures
        r.status@ == "operational"@,
        r.storage.log_count == stats.log_count,
        r.storage.log_bytes == stats.log_bytes,
        r.storage.log_bytes_human@ == format_bytes_spec(stats.log_bytes as int),
        r.storage.metric_count == stats.metric_count,
        r.storage.metric_bytes == stats.metric_bytes,
        r.storage.metric_bytes_human@ == format_bytes_spec(stats.metric_bytes as int),
        r.last_hour_total_logs == (if total_logs is Some {
            total_logs->0
        } else {
            0u64
        }),
        r.last_hour_error_count == (if error_count is Some {
            error_count->0
        } else {
            0u64
        }),
{
    SystemHealthOutput {
        status: "operational".to_owned(),
        storage: StorageHealth {
            log_count: stats.log_count,
            log_bytes: stats.log_bytes,
            log_bytes_human: format_bytes(stats.log_bytes),
            metric_count: stats.metric_count,
            metric_bytes: stats.metric_bytes,
            metric_bytes_human: format_bytes(stats.metric_bytes),
        },
        last_hour_total_logs: match total_logs {
            Some(n) => n,
            None => 0,
        },
        last_hour_error_count: match error_count {
            Some(n) => n,
            None => 0,
        },
    }
}

// ============================================================================
// Human-readable byte sizes
// ============================================================================

/// One kibibyte; the binary unit ladder is 1024-based throughout.
pub const BYTES_PER_KB: u64 = 1024;

/// One mebibyte.
pub const BYTES_PER_MB: u64 = 1024 * 1024;

/// One gibibyte.
pub const BYTES_PER_GB: u64 = 1024 * 1024 * 1024;

/// `bytes/unit` in hundredths, rounded to nearest with ties to even.
pub open spec fn rounded_hundredths(bytes: int, unit: int) -> int {
    let q = (bytes * 100) / unit;
    let r = (bytes * 100) % unit;
    if 2 * r > unit {
        q + 1
    } else if 2 * r < unit {
        q
    } else if q % 2 == 0 {
        q
    } else {
        q + 1
    }
}

/// The two-decimal rendering of `bytes` scaled by `unit`.
pub open spec fn scaled_two_decimals(bytes: int, unit: int) -> Seq<char> {
    let h = rounded_hundredths(bytes, unit);
    decimal_digits(h / 100) + "."@ + seq![digit_char((h / 10) % 10), digit_char(h % 10)]
}

/// The human-readable size of a byte count: the largest binary unit not
/// above the value, two decimals; below one kibibyte, plain bytes.
pub open spec fn format_bytes_spec(bytes: int) -> Seq<char> {
    if bytes >= BYTES_PER_GB {
        scaled_two_decimals(bytes, BYTES_PER_GB as int) + " GB"@
    } else if bytes >= BYTES_PER_MB {
        scaled_two_decimals(bytes, BYTES_PER_MB as int) + " MB"@
    } else if bytes >= BYTES_PER_KB {
        scaled_two_decimals(bytes, BYTES_PER_KB as int) + " KB"@
    } else {
        decimal_digits(bytes) + " bytes"@
    }
}

/// The two-decimal rendering of `bytes` scaled by `unit`, with `suffix`
/// appended.
fn scaled_string(bytes: u64, unit: u64, suffix: &str) -> (r: String)
    requires
        1024 <= unit,
    ensures
        r@ == scaled_two_decimals(bytes as int, unit as int) + suffix@,
{
    let num: u128 = (bytes as u128) * 100;
    let den: u128 = unit as u128;
    let q: u128 = num / den;
    let rem: u128 = num % den;
    let h: u128 = if 2 * rem > den {
        q + 1
    } else if 2 * rem < den {
        q
    } else if q % 2 == 0 {
        q
    } else {
        q + 1
    };
    assert(h as int == rounded_hundredths(bytes as int, unit as int));
    assert(h <= u64::MAX as u128) by (nonlinear_arith)
        requires
            h <= num / den + 1,
            num == bytes as u128 * 100,
            bytes <= u64::MAX,
            den >= 1024,
    ;
    let whole: u64 = (h / 100) as u64;
    let tens: u64 = ((h / 10) % 10) as u64;
    let ones: u64 = (h % 10) as u64;
    let mut s = String::new();
    push_decimal(&mut s, whole);
    s.append(".");
    s.append(digit_str(tens));
    s.append(digit_str(ones));
    s.append(suffix);
    proof {
        assert(s@ =~= scaled_two_decimals(bytes as int, unit as int) + suffix@);
    }
    s
}

/// Render a byte count in the largest binary unit not above it, with
/// two decimals (ties to even); below one kibibyte, as plain bytes.
pub fn format_bytes(bytes: u64) -> (r: String)
    ensures
        r@ == format_bytes_spec(bytes as int),
{
    if bytes >= BYTES_PER_GB {
        scaled_string(bytes, BYTES_PER_GB, " GB")
    } else if bytes >= BYTES_PER_MB {
        scaled_string(bytes, BYTES_PER_MB, " MB")
    } else if bytes >= BYTES_PER_KB {
        scaled_string(bytes, BYTES_PER_KB, " KB")
    } else {
        let mut s = u64_to_string(bytes);
        s.append(" bytes");
        s
    }
}

// ============================================================================
// Error summary
// ============================================================================

/// The grouping key of a log message: its first 100 characters, with an
/// ellipsis marker where the message was longer.
pub open spec fn pattern_key(body: Seq<char>) -> Seq<char> {
    if body.len() > 100 {
        body.subrange(0, 100) + "..."@
    } else {
        body
    }
}

/// Messages that agree on their first 100 characters and both run
/// longer than 100 characters collapse into the same pattern.
pub proof fn lemma_pattern_key_collapses(a: Seq<char>, b: Seq<char>)
    requires
        a.len() > 100,
        b.len() > 100,
        a.subrange(0, 100) == b.subrange(0, 100),
    ensures
        pattern_key(a) == pattern_key(b),
{
}

/// How many entries of `logs` group under `key`.
pub open spec fn count_key(logs: Seq<LogEntry>, key: Seq<char>) -> int
    decreases logs.len(),
{
    if logs.len() == 0 {
        0
    } else {
        count_key(logs.drop_last(), key) + (if pattern_key(logs.last().body@) == key {
            1int
        } else {
            0int
        })
    }
}

/// The position of the first entry of `logs` grouping under `key`
/// (meaningful only where such an entry exists).
pub open spec fn first_index_of_key(logs: Seq<LogEntry>, key: Seq<char>) -> int
    decreases logs.len(),
{
    if logs.len() == 0 {
        0
    } else if pattern_key(logs[0].body@) == key {
        0
    } else {
        1 + first_index_of_key(logs.drop_first(), key)
    }
}

/// Counting under a key grows by one exactly at the entries that group
/// under it.
proof fn lemma_count_key_step(logs: Seq<LogEntry>, i: int, key: Seq<char>)
    requires
        0 <= i < logs.len(),
    ensures
        count_key(logs.take(i + 1), key) == count_key(logs.take(i), key) + (if pattern_key(
            logs[i].body@,
        ) == key {
            1int
        } else {
            0int
        }),
{
    assert(logs.take(i + 1).drop_last() =~= logs.take(i));
    assert(logs.take(i + 1).last() == logs[i]);
}

/// A key no prefix entry groups under has a zero count over the prefix.
proof fn lemma_count_key_none(logs: Seq<LogEntry>, i: int, key: Seq<char>)
    requires
        0 <= i <= logs.len(),
        forall|m: int| 0 <= m < i ==> pattern_key(#[trigger] logs[m].body@) != key,
    ensures
        count_key(logs.take(i), key) == 0,
    decreases i,
{
    if i > 0 {
        assert(logs.take(i).drop_last() =~= logs.take(i - 1));
        assert(logs.take(i).last() == logs[i - 1]);
        lemma_count_key_none(logs, i - 1, key);
    }
}

/// An entry whose key appears nowhere earlier is the first of its key.
proof fn lemma_first_index_at(logs: Seq<LogEntry>, i: int, key: Seq<char>)
    requires
        0 <= i < logs.len(),
        pattern_key(logs[i].body@) == key,
        forall|m: int| 0 <= m < i ==> pattern_key(#[trigger] logs[m].body@) != key,
    ensures
        first_index_of_key(logs, key) == i,
    decreases i,
{
    if i == 0 {
    } else {
        assert(pattern_key(logs[0].body@) != key);
        let rest = logs.drop_first();
        assert(rest[i - 1] == logs[i]);
        assert(forall|m: int| 0 <= m < i - 1 ==> #[trigger] rest[m] == logs[m + 1]);
        lemma_first_index_at(rest, i - 1, key);
    }
}

/// One accumulated pattern group (internal to the summary).
struct PatternAccum {
    pattern: String,
    count: u64,
    example: String,
    first: usize,
}

/// A sound pattern group over `logs`: its count is the number of
/// entries under its key, and its example is the body of the first.
spec fn accum_ok(logs: Seq<LogEntry>, g: PatternAccum) -> bool {
    &&& g.count as int == count_key(logs, g.pattern@)
    &&& g.count >= 1
    &&& 0 <= g.first < logs.len()
    &&& pattern_key(logs[g.first as int].body@) == g.pattern@
    &&& g.example@ == logs[g.first as int].body@
    &&& g.first as int == first_index_of_key(logs, g.pattern@)
}

/// Whether some group in `gs` carries the pattern key of entry `m`.
spec fn key_covered(logs: Seq<LogEntry>, gs: Seq<PatternAccum>, m: int) -> bool {
    exists|j: int|
        0 <= j < gs.len() && (#[trigger] gs[j]).pattern@ == pattern_key(logs[m].body@)
}

/// The order of the summary: more frequent patterns first, and among
/// equally frequent patterns the one seen first.
spec fn group_precedes(a: PatternAccum, b: PatternAccum) -> bool {
    a.count > b.count || (a.count == b.count && a.first < b.first)
}

/// Whether `a` comes before `b` in the summary order.
fn group_precedes_exec(a: &PatternAccum, b: &PatternAccum) -> (r: bool)
    ensures
        r == group_precedes(*a, *b),
{
    a.count > b.count || (a.count == b.count && a.first < b.first)
}

/// The grouping key of a message, as a fresh string.
fn make_pattern_key(body: &String) -> (r: String)
    ensures
        r@ == pattern_key(body@),
{
    if body.as_str().unicode_len() > 100 {
        body.as_str().substring_char(0, 100).to_owned().concat("...")
    } else {
        body.clone()
    }
}

/// The position of the group holding `key`, if one does.
fn find_pattern(groups: &Vec<PatternAccum>, key: &String) -> (r: Option<usize>)
    ensures
        r matches Some(j) ==> (j < groups@.len() && groups@[j as int].pattern@ == key@),
        r is None ==> forall|j: int| 0 <= j < groups@.len() ==> (#[trigger] groups@[j]).pattern@
            != key@,
{
    let mut j: usize = 0;
    while j < groups.len()
        invariant
            0 <= j <= groups@.len(),
            forall|j2: int| 0 <= j2 < j ==> (#[trigger] groups@[j2]).pattern@ != key@,
        decreases groups@.len() - j,
    {
        if groups[j].pattern == *key {
            return Some(j);
        }
        j += 1;
    }
    None
}

/// Group entries by pattern key, in first-seen order.
fn accumulate_patterns(logs: &Vec<LogEntry>) -> (groups: Vec<PatternAccum>)
    ensures
        forall|j: int| 0 <= j < groups@.len() ==> #[trigger] accum_ok(logs@, groups@[j]),
        forall|j1: int, j2: int|
            0 <= j1 < j2 < groups@.len() ==> groups@[j1].first < groups@[j2].first,
        forall|m: int| 0 <= m < logs@.len() ==> #[trigger] key_covered(logs@, groups@, m),
{
    let mut groups: Vec<PatternAccum> = Vec::new();
    let mut i: usize = 0;
    while i < logs.len()
        invariant
            0 <= i <= logs@.len(),
            forall|j: int|
                0 <= j < groups@.len() ==> {
                    &&& (#[trigger] groups@[j]).count as int == count_key(
                        logs@.take(i as int),
                        groups@[j].pattern@,
                    )
                    &&& groups@[j].count >= 1
                    &&& groups@[j].count <= i
                    &&& 0 <= groups@[j].first < i
                    &&& pattern_key(logs@[groups@[j].first as int].body@) == groups@[j].pattern@
                    &&& groups@[j].example@ == logs@[groups@[j].first as int].body@
                    &&& groups@[j].first as int == first_index_of_key(logs@, groups@[j].pattern@)
                },
            forall|j1: int, j2: int|
                0 <= j1 < j2 < groups@.len() ==> groups@[j1].first < groups@[j2].first,
            forall|m: int| 0 <= m < i ==> #[trigger] key_covered(logs@, groups@, m),
        decreases logs@.len() - i,
    {
        let key = make_pattern_key(&logs[i].body);
        let ghost old_groups = groups@;
        match find_pattern(&groups, &key) {
            Some(j) => {
                let pat = groups[j].pattern.clone();
                let ex = groups[j].example.clone();
                let c = groups[j].count;
                let f = groups[j].first;
                groups.set(j, PatternAccum { pattern: pat, count: c + 1, example: ex, first: f });
                proof {
                    assert(groups@ == old_groups.update(j as int, groups@[j as int]));
                    assert(groups@[j as int].pattern@ == key@);
                    assert forall|j2: int| 0 <= j2 < groups@.len() implies {
                        &&& (#[trigger] groups@[j2]).count as int == count_key(
                            logs@.take(i as int + 1),
                            groups@[j2].pattern@,
                        )
                        &&& groups@[j2].count >= 1
                        &&& groups@[j2].count <= i + 1
                        &&& 0 <= groups@[j2].first < i + 1
                        &&& pattern_key(logs@[groups@[j2].first as int].body@)
                            == groups@[j2].pattern@
                        &&& groups@[j2].example@ == logs@[groups@[j2].first as int].body@
                        &&& groups@[j2].first as int == first_index_of_key(
                            logs@,
                            groups@[j2].pattern@,
                        )
                    } by {
                        lemma_count_key_step(logs@, i as int, groups@[j2].pattern@);
                        if j2 != j {
                            assert(groups@[j2] == old_groups[j2]);
                            if groups@[j2].pattern@ == key@ {
                                // two groups of one key would share their
                                // first position, against strict order
                                assert(old_groups[j2].first as int == first_index_of_key(
                                    logs@,
                                    key@,
                                ));
                                assert(old_groups[j as int].first as int == first_index_of_key(
                                    logs@,
                                    key@,
                                ));
                                if j2 < j {
                                    assert(old_groups[j2].first < old_groups[j as int].first);
                                } else {
                                    assert(old_groups[j as int].first < old_groups[j2].first);
                                }
                                assert(false);
                            }
                        }
                    }
                    assert forall|m: int| 0 <= m < i + 1 implies #[trigger] key_covered(
                        logs@,
                        groups@,
                        m,
                    ) by {
                        if m == i {
                            assert(groups@[j as int].pattern@ == pattern_key(logs@[m].body@));
                        } else {
                            assert(key_covered(logs@, old_groups, m));
                            let j3 = choose|j3: int|
                                0 <= j3 < old_groups.len() && (#[trigger] old_groups[j3]).pattern@
                                    == pattern_key(logs@[m].body@);
                            assert(groups@[j3].pattern@ == old_groups[j3].pattern@);
                        }
                    }
                }
            },
            None => {
                proof {
                    // an uncovered key cannot have appeared earlier: every
                    // earlier entry's key is held by some group, and no
                    // group holds this one
                    assert forall|m: int| 0 <= m < i implies pattern_key(
                        #[trigger] logs@[m].body@,
                    ) != key@ by {
                        assert(key_covered(logs@, groups@, m));
                        let j3 = choose|j3: int|
                            0 <= j3 < groups@.len() && (#[trigger] groups@[j3]).pattern@
                                == pattern_key(logs@[m].body@);
                    }
                    lemma_first_index_at(logs@, i as int, key@);
                }
                groups.push(
                    PatternAccum {
                        pattern: key,
                        count: 1,
                        example: logs[i].body.clone(),
                        first: i,
                    },
                );
                proof {
                    let n = groups@.len() - 1;
                    assert(groups@ == old_groups.push(groups@[n]));
                    assert forall|j2: int| 0 <= j2 < groups@.len() implies {
                        &&& (#[trigger] groups@[j2]).count as int == count_key(
                            logs@.take(i as int + 1),
                            groups@[j2].pattern@,
                        )
                        &&& groups@[j2].count >= 1
                        &&& groups@[j2].count <= i + 1
                        &&& 0 <= groups@[j2].first < i + 1
                        &&& pattern_key(logs@[groups@[j2].first as int].body@)
                            == groups@[j2].pattern@
                        &&& groups@[j2].example@ == logs@[groups@[j2].first as int].body@
                        &&& groups@[j2].first as int == first_index_of_key(
                            logs@,
                            groups@[j2].pattern@,
                        )
                    } by {
                        lemma_count_key_step(logs@, i as int, groups@[j2].pattern@);
                        if j2 < n {
                            assert(groups@[j2] == old_groups[j2]);
                            assert(old_groups[j2].pattern@ != key@);
                        } else {
                            assert(count_key(logs@.take(i as int), key@) == 0) by {
                                lemma_count_key_none(logs@, i as int, key@);
                            }
                        }
                    }
                    assert forall|m: int| 0 <= m < i + 1 implies #[trigger] key_covered(
                        logs@,
                        groups@,
                        m,
                    ) by {
                        if m == i {
                            assert(groups@[n].pattern@ == pattern_key(logs@[m].body@));
                        } else {
                            assert(key_covered(logs@, old_groups, m));
                            let j3 = choose|j3: int|
                                0 <= j3 < old_groups.len() && (#[trigger] old_groups[j3]).pattern@
                                    == pattern_key(logs@[m].body@);
                            assert(groups@[j3].pattern@ == old_groups[j3].pattern@);
                        }
                    }
                }
            },
        }
        i += 1;
    }
    proof {
        assert(logs@.take(logs@.len() as int) =~= logs@);
    }
    groups
}

/// One pattern of the error summary.
#[derive(Debug, Clone)]
pub struct ErrorPattern {
    pub pattern: String,
    pub count: u64,
    pub example: String,
}

/// The error-summary tool's output.
#[derive(Debug, Clone)]
pub struct ErrorSummaryOutput {
    pub total_errors: usize,
    pub time_range_hours: i64,
    pub top_patterns: Vec<ErrorPattern>,
}

/// A sound summary entry over `logs`: a real pattern key, its exact
/// occurrence count, and the verbatim body of its first occurrence.
pub open spec fn summary_entry_ok(logs: Seq<LogEntry>, p: ErrorPattern) -> bool {
    &&& p.count as int == count_key(logs, p.pattern@)
    &&& p.count >= 1
    &&& 0 <= first_index_of_key(logs, p.pattern@) < logs.len()
    &&& pattern_key(logs[first_index_of_key(logs, p.pattern@)].body@) == p.pattern@
    &&& p.example@ == logs[first_index_of_key(logs, p.pattern@)].body@
}

/// Summarize error entries: group by pattern key, count per group, keep
/// one verbatim example per group (the first seen), order by descending
/// count with ties by first occurrence, and keep the top `limit`.
pub fn error_summary_output(logs: &Vec<LogEntry>, limit: u64, hours: i64) -> (r:
    ErrorSummaryOutput)
    ensures
        r.total_errors == logs@.len(),
        r.time_range_hours == hours,
        r.top_patterns@.len() <= limit,
        forall|i: int|
            0 <= i < r.top_patterns@.len() ==> #[trigger] summary_entry_ok(
                logs@,
                r.top_patterns@[i],
            ),
        forall|i: int, j: int|
            0 <= i < j < r.top_patterns@.len() ==> r.top_patterns@[i].pattern@
                != r.top_patterns@[j].pattern@,
        forall|i: int, j: int|
            0 <= i < j < r.top_patterns@.len() ==> r.top_patterns@[i].count
                >= r.top_patterns@[j].count,
        forall|i: int, j: int|
            0 <= i < j < r.top_patterns@.len() && r.top_patterns@[i].count
                == r.top_patterns@[j].count ==> first_index_of_key(
                logs@,
                r.top_patterns@[i].pattern@,
            ) < first_index_of_key(logs@, r.top_patterns@[j].pattern@),
        r.top_patterns@.len() < limit ==> forall|m: int| #![trigger logs@[m]]
            0 <= m < logs@.len() ==> exists|j: int|
                0 <= j < r.top_patterns@.len() && (#[trigger] r.top_patterns@[j]).pattern@
                    == pattern_key(logs@[m].body@),
        r.top_patterns@.len() > 0 ==> forall|m: int| #![trigger logs@[m]]
            0 <= m < logs@.len() ==> (exists|j: int|
                0 <= j < r.top_patterns@.len() && (#[trigger] r.top_patterns@[j]).pattern@
                    == pattern_key(logs@[m].body@)) || count_key(logs@, pattern_key(logs@[m].body@))
                <= r.top_patterns@[r.top_patterns@.len() - 1].count,
{
    let mut remaining = accumulate_patterns(logs);
    proof {
        assert forall|i: int, j: int|
            0 <= i < remaining@.len() && 0 <= j < remaining@.len() && i != j implies (
        #[trigger] remaining@[i]).first != (#[trigger] remaining@[j]).first by {
            if i < j {
            } else {
                assert(remaining@[j].first < remaining@[i].first);
            }
        }
    }
    let mut sorted: Vec<PatternAccum> = Vec::new();
    while remaining.len() > 0 && (sorted.len() as u64) < limit
        invariant
            sorted@.len() <= limit,
            forall|j: int| 0 <= j < sorted@.len() ==> #[trigger] accum_ok(logs@, sorted@[j]),
            forall|j: int| 0 <= j < remaining@.len() ==> #[trigger] accum_ok(logs@, remaining@[j]),
            forall|i: int, j: int|
                0 <= i < j < sorted@.len() ==> group_precedes(sorted@[i], sorted@[j]),
            forall|i: int, j: int|
                0 <= i < sorted@.len() && 0 <= j < remaining@.len() ==> group_precedes(
                    #[trigger] sorted@[i],
                    #[trigger] remaining@[j],
                ),
            forall|i: int, j: int|
                0 <= i < remaining@.len() && 0 <= j < remaining@.len() && i != j
                    ==> (#[trigger] remaining@[i]).first != (#[trigger] remaining@[j]).first,
            forall|m: int|
                0 <= m < logs@.len() ==> #[trigger] key_covered(logs@, sorted@, m)
                    || key_covered(logs@, remaining@, m),
        decreases remaining@.len(),
    {
        let mut best: usize = 0;
        let mut j: usize = 1;
        while j < remaining.len()
            invariant
                0 <= best < j <= remaining@.len(),
                remaining@.len() > 0,
                forall|j2: int|
                    0 <= j2 < j && j2 != best ==> !group_precedes(
                        #[trigger] remaining@[j2],
                        remaining@[best as int],
                    ),
            decreases remaining@.len() - j,
        {
            if group_precedes_exec(&remaining[j], &remaining[best]) {
                best = j;
            }
            j += 1;
        }
        // The scan found an order-minimal element: everything else in
        // `remaining` comes strictly after it.
        proof {
            assert forall|x: int|
                0 <= x < remaining@.len() && x != best implies group_precedes(
                remaining@[best as int],
                #[trigger] remaining@[x],
            ) by {
                assert(!group_precedes(remaining@[x], remaining@[best as int]));
                assert(remaining@[x].first != remaining@[best as int].first);
            }
        }
        let ghost old_sorted = sorted@;
        let ghost old_remaining = remaining@;
        let chosen = remaining.remove(best);
        sorted.push(chosen);
        proof {
            assert(chosen == old_remaining[best as int]);
            assert(sorted@ == old_sorted.push(chosen));
            assert(forall|x: int| 0 <= x < best ==> #[trigger] remaining@[x] == old_remaining[x]);
            assert(forall|x: int|
                best <= x < remaining@.len() ==> #[trigger] remaining@[x] == old_remaining[x + 1]);
            // the new last of `sorted` precedes everything left
            assert forall|i: int, x: int|
                0 <= i < sorted@.len() && 0 <= x < remaining@.len() implies group_precedes(
                #[trigger] sorted@[i],
                #[trigger] remaining@[x],
            ) by {
                let old_x: int = if x < best {
                    x
                } else {
                    x + 1
                };
                assert(remaining@[x] == old_remaining[old_x]);
                if i < old_sorted.len() {
                    assert(group_precedes(old_sorted[i], old_remaining[old_x]));
                } else {
                    assert(sorted@[i] == chosen);
                    assert(group_precedes(old_remaining[best as int], old_remaining[old_x]));
                }
            }
            // completeness: every witness index survives the move
            assert forall|m: int| 0 <= m < logs@.len() implies #[trigger] key_covered(
                logs@,
                sorted@,
                m,
            ) || key_covered(logs@, remaining@, m) by {
                let k = pattern_key(logs@[m].body@);
                assert(key_covered(logs@, old_sorted, m) || key_covered(logs@, old_remaining, m));
                if key_covered(logs@, old_sorted, m) {
                    let j2 = choose|j2: int|
                        0 <= j2 < old_sorted.len() && (#[trigger] old_sorted[j2]).pattern@ == k;
                    assert(sorted@[j2].pattern@ == k);
                    assert(key_covered(logs@, sorted@, m));
                } else {
                    let j2 = choose|j2: int|
                        0 <= j2 < old_remaining.len() && (#[trigger] old_remaining[j2]).pattern@
                            == k;
                    if j2 == best {
                        assert(sorted@[sorted@.len() - 1].pattern@ == k);
                        assert(key_covered(logs@, sorted@, m));
                    } else if j2 < best {
                        assert(remaining@[j2].pattern@ == k);
                        assert(key_covered(logs@, remaining@, m));
                    } else {
                        assert(remaining@[j2 - 1].pattern@ == k);
                        assert(key_covered(logs@, remaining@, m));
                    }
                }
            }
        }
    }
    let ghost sorted_snap = sorted@;
    let ghost remaining_snap = remaining@;

    let mut top_patterns: Vec<ErrorPattern> = Vec::new();
    let mut i: usize = 0;
    while i < sorted.len()
        invariant
            0 <= i <= sorted@.len(),
            sorted@ == sorted_snap,
            top_patterns@.len() == i,
            forall|j: int|
                0 <= j < i ==> {
                    &&& (#[trigger] top_patterns@[j]).pattern@ == sorted_snap[j].pattern@
                    &&& top_patterns@[j].count == sorted_snap[j].count
                    &&& top_patterns@[j].example@ == sorted_snap[j].example@
                },
        decreases sorted@.len() - i,
    {
        let g = &sorted[i];
        top_patterns.push(
            ErrorPattern { pattern: g.pattern.clone(), count: g.count, example: g.example.clone() },
        );
        i += 1;
    }
    proof {
        let top = top_patterns@;
        assert forall|j: int| 0 <= j < top.len() implies #[trigger] summary_entry_ok(
            logs@,
            top[j],
        ) by {
            assert(accum_ok(logs@, sorted_snap[j]));
        }
        assert forall|x: int, y: int| 0 <= x < y < top.len() implies top[x].pattern@
            != top[y].pattern@ by {
            assert(accum_ok(logs@, sorted_snap[x]));
            assert(accum_ok(logs@, sorted_snap[y]));
            assert(group_precedes(sorted_snap[x], sorted_snap[y]));
            if top[x].pattern@ == top[y].pattern@ {
                assert(sorted_snap[x].first as int == first_index_of_key(
                    logs@,
                    sorted_snap[x].pattern@,
                ));
                assert(sorted_snap[x].count as int == count_key(logs@, sorted_snap[x].pattern@));
                assert(sorted_snap[x].first == sorted_snap[y].first);
                assert(sorted_snap[x].count == sorted_snap[y].count);
                assert(false);
            }
        }
        assert forall|x: int, y: int| 0 <= x < y < top.len() implies top[x].count
            >= top[y].count by {
            assert(group_precedes(sorted_snap[x], sorted_snap[y]));
        }
        assert forall|x: int, y: int|
            0 <= x < y < top.len() && top[x].count == top[y].count implies first_index_of_key(
            logs@,
            top[x].pattern@,
        ) < first_index_of_key(logs@, top[y].pattern@) by {
            assert(accum_ok(logs@, sorted_snap[x]));
            assert(accum_ok(logs@, sorted_snap[y]));
            assert(group_precedes(sorted_snap[x], sorted_snap[y]));
        }
        if top.len() < limit {
            // the extraction loop only stops short of the cap when
            // nothing is left, so every key made it into the summary
            assert(remaining_snap.len() == 0);
            assert forall|m: int| #![trigger logs@[m]] 0 <= m < logs@.len() implies exists|j: int|
                0 <= j < top.len() && (#[trigger] top[j]).pattern@ == pattern_key(
                    logs@[m].body@,
                ) by {
                let k = pattern_key(logs@[m].body@);
                assert(key_covered(logs@, sorted_snap, m) || key_covered(
                    logs@,
                    remaining_snap,
                    m,
                ));
                assert(key_covered(logs@, sorted_snap, m));
                let j = choose|j: int|
                    0 <= j < sorted_snap.len() && (#[trigger] sorted_snap[j]).pattern@ == k;
                assert(top[j].pattern@ == k);
            }
        }
        if top.len() > 0 {
            assert forall|m: int| #![trigger logs@[m]] 0 <= m < logs@.len() implies ((exists|j: int|
                0 <= j < top.len() && (#[trigger] top[j]).pattern@ == pattern_key(logs@[m].body@))
                || count_key(logs@, pattern_key(logs@[m].body@)) <= top[top.len() - 1].count) by {
                let k = pattern_key(logs@[m].body@);
                assert(key_covered(logs@, sorted_snap, m) || key_covered(
                    logs@,
                    remaining_snap,
                    m,
                ));
                if key_covered(logs@, sorted_snap, m) {
                    let j = choose|j: int|
                        0 <= j < sorted_snap.len() && (#[trigger] sorted_snap[j]).pattern@ == k;
                    assert(top[j].pattern@ == k);
                } else {
                    let j = choose|j: int|
                        0 <= j < remaining_snap.len() && (#[trigger] remaining_snap[j]).pattern@
                            == k;
                    assert(accum_ok(logs@, remaining_snap[j]));
                    assert(group_precedes(sorted_snap[top.len() - 1], remaining_snap[j]));
                    assert(count_key(logs@, k) == remaining_snap[j].count as int);
                }
            }
        }
    }
    ErrorSummaryOutput { total_errors: logs.len(), time_range_hours: hours, top_patterns }
}

// ============================================================================
// Tool registry
// ============================================================================

/// The type of a declared tool parameter.
#[derive(Clone, Copy, Debug, PartialEq, Eq, Structural)]
pub enum ToolParamType {
    Str,
    Int,
}

/// One declared parameter of a tool's input schema.
#[derive(Debug, Clone)]
pub struct ToolParamSpec {
    pub name: String,
    pub param_type: ToolParamType,
    pub description: String,
    /// The documented default, for integer parameters that have one.
    pub default_int: Option<i64>,
    /// The closed set of accepted values; empty means unconstrained.
    pub allowed_values: Vec<String>,
    pub required: bool,
}

/// A tool as the registry describes it to callers: name, prose, and the
/// declared input schema.
#[derive(Debug, Clone)]
pub struct McpTool {
    pub name: String,
    pub description: String,
    pub input_schema: Vec<ToolParamSpec>,
}

/// A parameter declaration with the given fields.
pub open spec fn param_is(
    p: ToolParamSpec,
    name: Seq<char>,
    ty: ToolParamType,
    desc: Seq<char>,
    dflt: Option<i64>,
    req: bool,
) -> bool {
    &&& p.name@ == name
    &&& p.param_type == ty
    &&& p.description@ == desc
    &&& p.default_int == dflt
    &&& p.required == req
}

/// The six severity band names, in rising order.
pub open spec fn severity_name_list(vs: Seq<String>) -> bool {
    &&& vs.len() == 6
    &&& vs[0]@ == "TRACE"@
    &&& vs[1]@ == "DEBUG"@
    &&& vs[2]@ == "INFO"@
    &&& vs[3]@ == "WARN"@
    &&& vs[4]@ == "ERROR"@
    &&& vs[5]@ == "FATAL"@
}

/// The eight aggregation-function names.
pub open spec fn aggregation_name_list(vs: Seq<String>) -> bool {
    &&& vs.len() == 8
    &&& vs[0]@ == "avg"@
    &&& vs[1]@ == "min"@
    &&& vs[2]@ == "max"@
    &&& vs[3]@ == "sum"@
    &&& vs[4]@ == "count"@
    &&& vs[5]@ == "p50"@
    &&& vs[6]@ == "p90"@
    &&& vs[7]@ == "p99"@
}

/// The log-search tool's declaration.
pub open spec fn search_logs_tool_ok(t: McpTool) -> bool {
    &&& t.name@ == "search_logs"@
    &&& t.description@
        == "Search logs with time range, severity filter, and text query. Returns matching log entries."@
    &&& t.input_schema@.len() == 5
    &&& param_is(
        t.input_schema@[0],
        "query"@,
        ToolParamType::Str,
        "Text to search for in log messages"@,
        None,
        false,
    )
    &&& t.input_schema@[0].allowed_values@.len() == 0
    &&& param_is(
        t.input_schema@[1],
        "hours"@,
        ToolParamType::Int,
        "Number of hours to search back (default: 1)"@,
        Some(1),
        false,
    )
    &&& t.input_schema@[1].allowed_values@.len() == 0
    &&& param_is(
        t.input_schema@[2],
        "min_severity"@,
        ToolParamType::Str,
        "Minimum severity level to include"@,
        None,
        false,
    )
    &&& severity_name_list(t.input_schema@[2].allowed_values@)
    &&& param_is(
        t.input_schema@[3],
        "service"@,
        ToolParamType::Str,
        "Filter by service name"@,
        None,
        false,
    )
    &&& t.input_schema@[3].allowed_values@.len() == 0
    &&& param_is(
        t.input_schema@[4],
        "limit"@,
        ToolParamType::Int,
        "Maximum number of results (default: 50)"@,
        Some(50),
        false,
    )
    &&& t.input_schema@[4].allowed_values@.len() == 0
}

/// The tail tool's declaration.
pub open spec fn tail_logs_tool_ok(t: McpTool) -> bool {
    &&& t.name@ == "tail_logs"@
    &&& t.description@
        == "Get the most recent log entries. Useful for seeing what's happening right now."@
    &&& t.input_schema@.len() == 3
    &&& param_is(
        t.input_schema@[0],
        "count"@,
        ToolParamType::Int,
        "Number of recent logs to return (default: 20)"@,
        Some(20),
        false,
    )
    &&& t.input_schema@[0].allowed_values@.len() == 0
    &&& param_is(
        t.input_schema@[1],
        "min_severity"@,
        ToolParamType::Str,
        "Minimum severity level to include"@,
        None,
        false,
    )
    &&& severity_name_list(t.input_schema@[1].allowed_values@)
    &&& param_is(
        t.input_schema@[2],
        "service"@,
        ToolParamType::Str,
        "Filter by service name"@,
        None,
        false,
    )
    &&& t.input_schema@[2].allowed_values@.len() == 0
}

/// The error-summary tool's declaration.
pub open spec fn error_summary_tool_ok(t: McpTool) -> bool {
    &&& t.name@ == "get_error_summary"@
    &&& t.description@
        == "Get a summary of errors in the system. Groups errors by message pattern and shows counts."@
    &&& t.input_schema@.len() == 2
    &&& param_is(
        t.input_schema@[0],
        "hours"@,
        ToolParamType::Int,
        "Number of hours to analyze (default: 24)"@,
        Some(24),
        false,
    )
    &&& t.input_schema@[0].allowed_values@.len() == 0
    &&& param_is(
        t.input_schema@[1],
        "limit"@,
        ToolParamType::Int,
        "Maximum number of error patterns to return (default: 10)"@,
        Some(10),
        false,
    )
    &&& t.input_schema@[1].allowed_values@.len() == 0
}

/// The metric-query tool's declaration.
pub open spec fn query_metrics_tool_ok(t: McpTool) -> bool {
    &&& t.name@ == "query_metrics"@
    &&& t.description@ == "Query metrics with aggregation over time. Returns time series data."@
    &&& t.input_schema@.len() == 4
    &&& param_is(
        t.input_schema@[0],
        "metric_name"@,
        ToolParamType::Str,
        "Name of the metric to query"@,
        None,
        true,
    )
    &&& t.input_schema@[0].allowed_values@.len() == 0
    &&& param_is(
        t.input_schema@[1],
        "hours"@,
        ToolParamType::Int,
        "Number of hours to query (default: 1)"@,
        Some(1),
        false,
    )
    &&& t.input_schema@[1].allowed_values@.len() == 0
    &&& param_is(
        t.input_schema@[2],
        "aggregation"@,
        ToolParamType::Str,
        "Aggregation function (default: avg)"@,
        None,
        false,
    )
    &&& aggregation_name_list(t.input_schema@[2].allowed_values@)
    &&& param_is(
        t.input_schema@[3],
        "interval_seconds"@,
        ToolParamType::Int,
        "Time bucket size in seconds (default: 60)"@,
        Some(60),
        false,
    )
    &&& t.input_schema@[3].allowed_values@.len() == 0
}

/// The health tool's declaration: no parameters.
pub open spec fn system_health_tool_ok(t: McpTool) -> bool {
    &&& t.name@ == "get_system_health"@
    &&& t.description@
        == "Get overall system health summary including error rates, log volume, and storage usage."@
    &&& t.input_schema@.len() == 0
}

/// The registry of available tools, keyed by name.
pub struct ToolRegistry {
    tools: Vec<McpTool>,
}

impl ToolRegistry {
    /// The registered tools, in registration order.
    pub closed spec fn spec_tools(&self) -> Seq<McpTool> {
        self.tools@
    }

    /// A well-formed registry holds each tool name at most once.
    pub open spec fn wf(&self) -> bool {
        forall|i: int, j: int|
            0 <= i < j < self.spec_tools().len() ==> (#[trigger] self.spec_tools()[i]).name@ != (
            #[trigger] self.spec_tools()[j]).name@
    }

    /// An empty registry.
    pub fn new() -> (r: Self)
        ensures
            r.spec_tools().len() == 0,
            r.wf(),
    {
        ToolRegistry { tools: Vec::new() }
    }

    /// Register a tool: a new name is appended, a known name replaced.
    pub fn register(&mut self, tool: McpTool)
        requires
            old(self).wf(),
        ensures
            final(self).wf(),
            (forall|k: int|
                0 <= k < old(self).spec_tools().len() ==> (#[trigger] old(
                    self,
                ).spec_tools()[k]).name@ != tool.name@) ==> final(self).spec_tools() == old(
                self,
            ).spec_tools().push(tool),
            (exists|k: int|
                0 <= k < old(self).spec_tools().len() && (#[trigger] old(
                    self,
                ).spec_tools()[k]).name@ == tool.name@) ==> (exists|k: int|
                0 <= k < old(self).spec_tools().len() && (#[trigger] old(
                    self,
                ).spec_tools()[k]).name@ == tool.name@ && final(self).spec_tools() == old(
                    self,
                ).spec_tools().update(k, tool)),
    {
        let n = self.tools.len();
        let mut j: usize = 0;
        while j < n
            invariant
                0 <= j <= n,
                n == self.tools@.len(),
                old(self).wf(),
                self.tools@ == old(self).tools@,
                forall|k: int|
                    0 <= k < j ==> (#[trigger] self.tools@[k]).name@ != tool.name@,
            decreases n - j,
        {
            if str_eq(self.tools[j].name.as_str(), tool.name.as_str()) {
                self.tools.set(j, tool);
                return ;
            }
            j += 1;
        }
        self.tools.push(tool);
    }

    /// Look a tool up by name: the registered tool under that name, if
    /// one is.
    pub fn get(&self, name: &str) -> (r: Option<&McpTool>)
        ensures
            r is Some <==> (exists|k: int|
                0 <= k < self.spec_tools().len() && (#[trigger] self.spec_tools()[k]).name@
                    == name@),
            r matches Some(t) ==> (exists|k: int|
                0 <= k < self.spec_tools().len() && #[trigger] self.spec_tools()[k] == *t
                    && t.name@ == name@),
    {
        let n = self.tools.len();
        let mut j: usize = 0;
        while j < n
            invariant
                0 <= j <= n,
                n == self.tools@.len(),
                forall|k: int| 0 <= k < j ==> (#[trigger] self.tools@[k]).name@ != name@,
            decreases n - j,
        {
            if str_eq(self.tools[j].name.as_str(), name) {
                proof {
                    assert((#[trigger] self.spec_tools()[j as int]).name@ == name@);
                }
                return Some(&self.tools[j]);
            }
            j += 1;
        }
        None
    }

    /// Every registered tool, in registration order.
    pub fn list(&self) -> (r: Vec<&McpTool>)
        ensures
            r@.len() == self.spec_tools().len(),
            forall|i: int|
                0 <= i < r@.len() ==> (#[trigger] r@[i]).name@ == self.spec_tools()[i].name@
                    && r@[i].description@ == self.spec_tools()[i].description@,
    {
        let mut out: Vec<&McpTool> = Vec::new();
        let mut i: usize = 0;
        while i < self.tools.len()
            invariant
                0 <= i <= self.tools@.len(),
                out@.len() == i,
                forall|k: int|
                    0 <= k < i ==> (#[trigger] out@[k]).name@ == self.tools@[k].name@
                        && out@[k].description@ == self.tools@[k].description@,
            decreases self.tools@.len() - i,
        {
            out.push(&self.tools[i]);
            i += 1;
        }
        out
    }
}

/// The six severity band names as a fresh list.
fn severity_name_values() -> (vs: Vec<String>)
    ensures
        severity_name_list(vs@),
{
    let mut vs: Vec<String> = Vec::new();
    vs.push("TRACE".to_owned());
    vs.push("DEBUG".to_owned());
    vs.push("INFO".to_owned());
    vs.push("WARN".to_owned());
    vs.push("ERROR".to_owned());
    vs.push("FATAL".to_owned());
    vs
}

/// The eight aggregation-function names as a fresh list.
fn aggregation_name_values() -> (vs: Vec<String>)
    ensures
        aggregation_name_list(vs@),
{
    let mut vs: Vec<String> = Vec::new();
    vs.push("avg".to_owned());
    vs.push("min".to_owned());
    vs.push("max".to_owned());
    vs.push("sum".to_owned());
    vs.push("count".to_owned());
    vs.push("p50".to_owned());
    vs.push("p90".to_owned());
    vs.push("p99".to_owned());
    vs
}

/// An unconstrained parameter declaration.
fn plain_param(
    name: &str,
    ty: ToolParamType,
    desc: &str,
    dflt: Option<i64>,
    req: bool,
) -> (p: ToolParamSpec)
    ensures
        param_is(p, name@, ty, desc@, dflt, req),
        p.allowed_values@.len() == 0,
{
    ToolParamSpec {
        name: name.to_owned(),
        param_type: ty,
        description: desc.to_owned(),
        default_int: dflt,
        allowed_values: Vec::new(),
        required: req,
    }
}

/// The log-search tool.
fn search_logs_tool() -> (t: McpTool)
    ensures
        search_logs_tool_ok(t),
{
    let mut schema: Vec<ToolParamSpec> = Vec::new();
    schema.push(
        plain_param(
            "query",
            ToolParamType::Str,
            "Text to search for in log messages",
            None,
            false,
        ),
    );
    schema.push(
        plain_param(
            "hours",
            ToolParamType::Int,
            "Number of hours to search back (default: 1)",
            Some(1),
            false,
        ),
    );
    let mut severity_param = plain_param(
        "min_severity",
        ToolParamType::Str,
        "Minimum severity level to include",
        None,
        false,
    );
    severity_param.allowed_values = severity_name_values();
    schema.push(severity_param);
    schema.push(
        plain_param("service", ToolParamType::Str, "Filter by service name", None, false),
    );
    schema.push(
        plain_param(
            "limit",
            ToolParamType::Int,
            "Maximum number of results (default: 50)",
            Some(50),
            false,
        ),
    );
    McpTool {
        name: "search_logs".to_owned(),
        description: "Search logs with time range, severity filter, and text query. Returns matching log entries.".to_owned(),
        input_schema: schema,
    }
}

/// The tail tool.
fn tail_logs_tool() -> (t: McpTool)
    ensures
        tail_logs_tool_ok(t),
{
    let mut schema: Vec<ToolParamSpec> = Vec::new();
    schema.push(
        plain_param(
            "count",
            ToolParamType::Int,
            "Number of recent logs to return (default: 20)",
            Some(20),
            false,
        ),
    );
    let mut severity_param = plain_param(
        "min_severity",
        ToolParamType::Str,
        "Minimum severity level to include",
        None,
        false,
    );
    severity_param.allowed_values = severity_name_values();
    schema.push(severity_param);
    schema.push(
        plain_param("service", ToolParamType::Str, "Filter by service name", None, false),
    );
    McpTool {
        name: "tail_logs".to_owned(),
        description: "Get the most recent log entries. Useful for seeing what's happening right now.".to_owned(),
        input_schema: schema,
    }
}

/// The error-summary tool.
fn error_summary_tool() -> (t: McpTool)
    ensures
        error_summary_tool_ok(t),
{
    let mut schema: Vec<ToolParamSpec> = Vec::new();
    schema.push(
        plain_param(
            "hours",
            ToolParamType::Int,
            "Number of hours to analyze (default: 24)",
            Some(24),
            false,
        ),
    );
    schema.push(
        plain_param(
            "limit",
            ToolParamType::Int,
            "Maximum number of error patterns to return (default: 10)",
            Some(10),
            false,
        ),
    );
    McpTool {
        name: "get_error_summary".to_owned(),
        description: "Get a summary of errors in the system. Groups errors by message pattern and shows counts.".to_owned(),
        input_schema: schema,
    }
}

/// The metric-query tool.
fn query_metrics_tool() -> (t: McpTool)
    ensures
        query_metrics_tool_ok(t),
{
    let mut schema: Vec<ToolParamSpec> = Vec::new();
    schema.push(
        plain_param(
            "metric_name",
            ToolParamType::Str,
            "Name of the metric to query",
            None,
            true,
        ),
    );
    schema.push(
        plain_param(
            "hours",
            ToolParamType::Int,
            "Number of hours to query (default: 1)",
            Some(1),
            false,
        ),
    );
    let mut aggregation_param = plain_param(
        "aggregation",
        ToolParamType::Str,
        "Aggregation function (default: avg)",
        None,
        false,
    );
    aggregation_param.allowed_values = aggregation_name_values();
    schema.push(aggregation_param);
    schema.push(
        plain_param(
            "interval_seconds",
            ToolParamType::Int,
            "Time bucket size in seconds (default: 60)",
            Some(60),
            false,
        ),
    );
    McpTool {
        name: "query_metrics".to_owned(),
        description: "Query metrics with aggregation over time. Returns time series data.".to_owned(),
        input_schema: schema,
    }
}

/// The health tool.
fn system_health_tool() -> (t: McpTool)
    ensures
        system_health_tool_ok(t),
{
    McpTool {
        name: "get_system_health".to_owned(),
        description: "Get overall system health summary including error rates, log volume, and storage usage.".to_owned(),
        input_schema: Vec::new(),
    }
}

/// The default registry: the five tools, fully declared, in a fixed
/// order.
pub fn create_tool_registry() -> (r: ToolRegistry)
    ensures
        r.wf(),
        r.spec_tools().len() == 5,
        search_logs_tool_ok(r.spec_tools()[0]),
        tail_logs_tool_ok(r.spec_tools()[1]),
        error_summary_tool_ok(r.spec_tools()[2]),
        query_metrics_tool_ok(r.spec_tools()[3]),
        system_health_tool_ok(r.spec_tools()[4]),
{
    proof {
        reveal_strlit("search_logs");
        reveal_strlit("tail_logs");
        reveal_strlit("get_error_summary");
        reveal_strlit("query_metrics");
        reveal_strlit("get_system_health");
    }
    let t1 = search_logs_tool();
    let t2 = tail_logs_tool();
    let t3 = error_summary_tool();
    let t4 = query_metrics_tool();
    let t5 = system_health_tool();
    let mut registry = ToolRegistry::new();
    registry.register(t1);
    proof {
        assert(registry.spec_tools().len() == 1);
        assert(search_logs_tool_ok(registry.spec_tools()[0]));
        assert forall|k: int| 0 <= k < registry.spec_tools().len() implies (
        #[trigger] registry.spec_tools()[k]).name@ != t2.name@ by {
            reveal_strlit("search_logs");
            reveal_strlit("tail_logs");
            reveal_strlit("get_error_summary");
            reveal_strlit("query_metrics");
            reveal_strlit("get_system_health");
            assert("search_logs"@.len() == 11);
            assert("tail_logs"@.len() == 9);
            assert("get_error_summary"@.len() == 17);
            assert("query_metrics"@.len() == 13);
            assert("get_system_health"@.len() == 17);
            assert("get_error_summary"@[4] == 'e');
            assert("get_system_health"@[4] == 's');
            assert(registry.spec_tools()[k].name@ == "search_logs"@);
        }
    }
    registry.register(t2);
    proof {
        assert(registry.spec_tools().len() == 2);
        assert(search_logs_tool_ok(registry.spec_tools()[0]));
        assert(tail_logs_tool_ok(registry.spec_tools()[1]));
        assert forall|k: int| 0 <= k < registry.spec_tools().len() implies (
        #[trigger] registry.spec_tools()[k]).name@ != t3.name@ by {
            reveal_strlit("search_logs");
            reveal_strlit("tail_logs");
            reveal_strlit("get_error_summary");
            reveal_strlit("query_metrics");
            reveal_strlit("get_system_health");
            assert("search_logs"@.len() == 11);
            assert("tail_logs"@.len() == 9);
            assert("get_error_summary"@.len() == 17);
            assert("query_metrics"@.len() == 13);
            assert("get_system_health"@.len() == 17);
            assert("get_error_summary"@[4] == 'e');
            assert("get_system_health"@[4] == 's');
            if k == 0 {
                assert(registry.spec_tools()[k].name@ == "search_logs"@);
            } else {
                assert(registry.spec_tools()[k].name@ == "tail_logs"@);
            }
        }
    }
    registry.register(t3);
    proof {
        assert(registry.spec_tools().len() == 3);
        assert(search_logs_tool_ok(registry.spec_tools()[0]));
        assert(tail_logs_tool_ok(registry.spec_tools()[1]));
        assert(error_summary_tool_ok(registry.spec_tools()[2]));
        assert forall|k: int| 0 <= k < registry.spec_tools().len() implies (
        #[trigger] registry.spec_tools()[k]).name@ != t4.name@ by {
            reveal_strlit("search_logs");
            reveal_strlit("tail_logs");
            reveal_strlit("get_error_summary");
            reveal_strlit("query_metrics");
            reveal_strlit("get_system_health");
            assert("search_logs"@.len() == 11);
            assert("tail_logs"@.len() == 9);
            assert("get_error_summary"@.len() == 17);
            assert("query_metrics"@.len() == 13);
            assert("get_system_health"@.len() == 17);
            assert("get_error_summary"@[4] == 'e');
            assert("get_system_health"@[4] == 's');
            if k == 0 {
                assert(registry.spec_tools()[k].name@ == "search_logs"@);
            } else if k == 1 {
                assert(registry.spec_tools()[k].name@ == "tail_logs"@);
            } else {
                assert(registry.spec_tools()[k].name@ == "get_error_summary"@);
            }
        }
    }
    registry.register(t4);
    proof {
        assert(registry.spec_tools().len() == 4);
        assert(search_logs_tool_ok(registry.spec_tools()[0]));
        assert(tail_logs_tool_ok(registry.spec_tools()[1]));
        assert(error_summary_tool_ok(registry.spec_tools()[2]));
        assert(query_metrics_tool_ok(registry.spec_tools()[3]));
        assert forall|k: int| 0 <= k < registry.spec_tools().len() implies (
        #[trigger] registry.spec_tools()[k]).name@ != t5.name@ by {
            reveal_strlit("search_logs");
            reveal_strlit("tail_logs");
            reveal_strlit("get_error_summary");
            reveal_strlit("query_metrics");
            reveal_strlit("get_system_health");
            assert("search_logs"@.len() == 11);
            assert("tail_logs"@.len() == 9);
            assert("get_error_summary"@.len() == 17);
            assert("query_metrics"@.len() == 13);
            assert("get_system_health"@.len() == 17);
            assert("get_error_summary"@[4] == 'e');
            assert("get_system_health"@[4] == 's');
            if k == 0 {
                assert(registry.spec_tools()[k].name@ == "search_logs"@);
            } else if k == 1 {
                assert(registry.spec_tools()[k].name@ == "tail_logs"@);
            } else if k == 2 {
                assert(registry.spec_tools()[k].name@ == "get_error_summary"@);
            } else {
                assert(registry.spec_tools()[k].name@ == "query_metrics"@);
            }
        }
    }
    registry.register(t5);
    proof {
        assert(registry.spec_tools().len() == 5);
        assert(search_logs_tool_ok(registry.spec_tools()[0]));
        assert(tail_logs_tool_ok(registry.spec_tools()[1]));
        assert(error_summary_tool_ok(registry.spec_tools()[2]));
        assert(query_metrics_tool_ok(registry.spec_tools()[3]));
        assert(system_health_tool_ok(registry.spec_tools()[4]));
    }
    registry
}

// ============================================================================
// Invocation envelope
// ============================================================================

/// The output of one tool invocation.
#[derive(Debug, Clone)]
pub enum ToolOutput {
    SearchLogs(SearchLogsOutput),
    TailLogs(TailLogsOutput),
    ErrorSummary(ErrorSummaryOutput),
    QueryMetrics(QueryMetricsOutput),
    SystemHealth(SystemHealthOutput),
}

/// The stable invocation envelope: errors ride in-band beside a success
/// flag, never as a transport failure.
#[derive(Debug, Clone)]
pub struct ToolResponse {
    pub success: bool,
    pub data: Option<ToolOutput>,
    pub error: Option<String>,
}

/// Wrap a tool's outcome in the invocation envelope.
pub fn tool_envelope(r: Result<ToolOutput, Error>) -> (resp: ToolResponse)
    ensures
        resp.success == (r is Ok),
        r matches Ok(d) ==> (resp.data matches Some(x) && x == d && resp.error is None),
        r matches Err(e) ==> (resp.data is None && (resp.error matches Some(m) && m@
            == error_message(&e))),
{
    match r {
        Ok(d) => ToolResponse { success: true, data: Some(d), error: None },
        Err(e) => {
            let message = e.message();
            ToolResponse { success: false, data: None, error: Some(message) }
        },
    }
}

} // verus!
