//! The query translator: turns typed search and aggregation parameters
//! into parameterized store queries, and normalizes the raw rows that a
//! store round trip hands back.
//!
//! Nothing here talks to the store itself. A builder method returns the
//! exact query text and bind values; the embedding program executes them
//! and feeds the resulting raw rows to the normalizers below.

use vstd::prelude::*;
use vstd::string::StringExecFns;

use crate::error::Error;
use crate::shim;
use crate::textfmt::decimal_digits;
use crate::textfmt::is_prefix_of;
use crate::textfmt::push_decimal;
use crate::textfmt::str_eq;
use crate::textfmt::str_starts_with;
use crate::types::clone_opt_string;
use crate::types::severity_number_of;
use crate::types::severity_of_number;
use crate::types::Aggregation;
use crate::types::LogEntry;
use crate::types::LogSeverity;
use crate::types::Pagination;
use crate::types::TimeRange;
use crate::types::Timestamp;
use crate::config::ClickHouseConfig;

verus! {

/// A positional bind value for a parameterized query.
#[derive(Debug, Clone)]
pub enum BindValue {
    /// A timestamp bound into a time predicate.
    Time(Timestamp),
    /// A text value bound into a string predicate.
    Text(String),
}

/// A parameterized query: its text and its positional bind values.
#[derive(Debug, Clone)]
pub struct SqlQuery {
    pub text: String,
    pub binds: Vec<BindValue>,
}

/// Parameters for a log search. Everything but the time window is
/// optional; an omitted filter excludes nothing.
#[derive(Debug, Clone)]
pub struct LogSearchParams {
    pub time_range: TimeRange,
    pub min_severity: Option<LogSeverity>,
    pub text_query: Option<String>,
    pub service_name: Option<String>,
    pub pagination: Pagination,
}

impl Default for LogSearchParams {
    /// The last hour, no filters, the default page.
    fn default() -> (r: Self)
        ensures
            r.time_range.wf(),
            r.time_range.end.secs - r.time_range.start.secs == 3600,
            r.min_severity is None,
            r.text_query is None,
            r.service_name is None,
            r.pagination.offset == 0,
            r.pagination.limit == 100,
    {
        LogSearchParams {
            time_range: TimeRange::last_hours(1),
            min_severity: None,
            text_query: None,
            service_name: None,
            pagination: Pagination::default(),
        }
    }
}

/// Parameters for a bucketed metric query. The label filter is carried
/// for interface stability; the current translation does not use it.
#[derive(Debug, Clone)]
pub struct MetricQueryParams {
    pub metric_name: String,
    pub time_range: TimeRange,
    pub aggregation: Aggregation,
    pub interval_seconds: Option<u32>,
    pub labels: Option<Vec<(String, String)>>,
}

/// A bucketed, aggregated metric sample.
///
/// The aggregated value is carried as the raw bits of an IEEE 754
/// double: the store produces it and the serialization boundary consumes
/// it, and no logic in this crate reads into it.
#[derive(Debug, Clone, Copy, PartialEq, Eq, Structural)]
pub struct MetricDataPoint {
    pub timestamp: Timestamp,
    pub value_bits: u64,
}

/// Storage totals, split into the log table and the metric tables.
#[derive(Debug, Clone, Copy, PartialEq, Eq, Structural)]
pub struct DatabaseStats {
    pub log_count: u64,
    pub log_bytes: u64,
    pub metric_count: u64,
    pub metric_bytes: u64,
}

impl Default for DatabaseStats {
    /// All counts zero.
    fn default() -> (r: Self)
        ensures
            r.log_count == 0,
            r.log_bytes == 0,
            r.metric_count == 0,
            r.metric_bytes == 0,
    {
        DatabaseStats { log_count: 0, log_bytes: 0, metric_count: 0, metric_bytes: 0 }
    }
}

/// A raw log row as the store returns it, all fields plain values.
#[derive(Debug, Clone)]
pub struct RawLogRow {
    pub id: String,
    pub timestamp_secs: i64,
    pub timestamp_nanos: u32,
    pub observed_secs: i64,
    pub observed_nanos: u32,
    pub trace_id: String,
    pub span_id: String,
    pub severity_number: i32,
    pub severity_text: String,
    pub body: String,
    pub resource_attributes: String,
    pub log_attributes: String,
    pub service_name: String,
}

/// A raw bucketed metric row as the store returns it.
#[derive(Debug, Clone, Copy, PartialEq, Eq, Structural)]
pub struct RawMetricRow {
    pub bucket_secs: i64,
    pub bucket_nanos: u32,
    pub value_bits: u64,
}

/// A raw per-table size row from the store's parts catalog.
#[derive(Debug, Clone)]
pub struct TableStatsRow {
    pub table: String,
    pub rows: u64,
    pub bytes: u64,
}

/// The store client: connection settings for the embedding program to
/// dial with, plus the query builders.
#[derive(Debug, Clone)]
pub struct ClickHouseClient {
    pub url: String,
    pub database: String,
    pub username: Option<String>,
    pub password: Option<String>,
}

/// An instant built from raw parts: the parts themselves where the
/// sub-second count is real, the epoch otherwise.
pub open spec fn checked_timestamp(secs: int, nanos: int) -> Timestamp {
    if nanos < 1_000_000_000 {
        Timestamp { secs: secs as i64, nanos: nanos as u32 }
    } else {
        Timestamp { secs: 0, nanos: 0 }
    }
}

/// An optional field normalized from a raw string: absent where the raw
/// value was empty, the raw value itself otherwise.
pub open spec fn normalized_absent(raw: Seq<char>, out: Option<String>) -> bool {
    if raw.len() == 0 {
        out is None
    } else {
        out matches Some(x) && x@ == raw
    }
}

/// The fixed SELECT-and-window prefix of every log search query.
pub open spec fn log_select_prefix() -> Seq<char> {
    "SELECT generateUUIDv4() as id, Timestamp as timestamp, ObservedTimestamp as observed_timestamp, TraceId as trace_id, SpanId as span_id, SeverityNumber as severity_number, SeverityText as severity_text, Body as body, ResourceAttributes as resource_attributes, LogAttributes as log_attributes, ServiceName as service_name FROM otel_logs WHERE Timestamp >= ? AND Timestamp < ?"@
}

/// The full text of a log search query: the fixed prefix, then one
/// predicate per present filter, then the descending order and the page.
pub open spec fn log_search_sql(p: &LogSearchParams) -> Seq<char> {
    log_select_prefix() + (if p.min_severity is Some {
        " AND SeverityNumber >= "@ + decimal_digits(severity_number_of(p.min_severity->0))
    } else {
        Seq::<char>::empty()
    }) + (if p.text_query is Some {
        " AND Body ILIKE ?"@
    } else {
        Seq::<char>::empty()
    }) + (if p.service_name is Some {
        " AND ServiceName = ?"@
    } else {
        Seq::<char>::empty()
    }) + " ORDER BY Timestamp DESC LIMIT "@ + decimal_digits(p.pagination.limit as int)
        + " OFFSET "@ + decimal_digits(p.pagination.offset as int)
}

/// How many values a log search query binds: the two window endpoints,
/// plus one per present text or service filter.
pub open spec fn log_search_bind_count(p: &LogSearchParams) -> int {
    2 + (if p.text_query is Some {
        1int
    } else {
        0int
    }) + (if p.service_name is Some {
        1int
    } else {
        0int
    })
}

/// The aggregation expression the store applies per bucket.
pub open spec fn aggregation_sql(a: Aggregation) -> Seq<char> {
    match a {
        Aggregation::Avg => "avg(Value)"@,
        Aggregation::Min => "min(Value)"@,
        Aggregation::Max => "max(Value)"@,
        Aggregation::Sum => "sum(Value)"@,
        Aggregation::Count => "count()"@,
        Aggregation::P50 => "quantile(0.5)(Value)"@,
        Aggregation::P90 => "quantile(0.9)(Value)"@,
        Aggregation::P99 => "quantile(0.99)(Value)"@,
    }
}

/// The bucket width a metric query uses: the caller's, or 60 seconds.
pub open spec fn metric_interval_seconds(p: &MetricQueryParams) -> int {
    if p.interval_seconds is Some {
        p.interval_seconds->0 as int
    } else {
        60
    }
}

/// The full text of a bucketed metric query: epoch-aligned buckets of
/// the chosen width, one aggregation per bucket, oldest bucket first.
pub open spec fn metric_query_sql(p: &MetricQueryParams) -> Seq<char> {
    "SELECT toStartOfInterval(TimeUnix, INTERVAL "@ + decimal_digits(metric_interval_seconds(p))
        + " SECOND) as bucket, "@ + aggregation_sql(p.aggregation)
        + " as value FROM otel_metrics_gauge WHERE MetricName = ? AND TimeUnix >= ? AND TimeUnix < ? GROUP BY bucket ORDER BY bucket"@
}

/// The epoch-aligned bucket an instant falls in: the greatest multiple
/// of `interval` not above `t`. This is the alignment the translated
/// metric query's bucketing uses: buckets align to the epoch, not to
/// the query's start.
pub open spec fn spec_bucket_start(t: int, interval: int) -> int {
    t - t % interval
}

/// The epoch-aligned start of the bucket holding `t_secs`.
pub fn bucket_start(t_secs: i64, interval_seconds: u32) -> (r: i64)
    requires
        t_secs >= 0,
        interval_seconds > 0,
    ensures
        r as int == spec_bucket_start(t_secs as int, interval_seconds as int),
        0 <= r <= t_secs,
        t_secs - r < interval_seconds,
        r as int % (interval_seconds as int) == 0,
{
    let m = t_secs % (interval_seconds as i64);
    proof {
        assert((m as int) == (t_secs as int) % (interval_seconds as int));
        assert(0 <= (m as int) && (m as int) < (interval_seconds as int));
        assert(m as int <= t_secs as int) by (nonlinear_arith)
            requires
                m as int == t_secs as int % (interval_seconds as int),
                t_secs as int >= 0,
                interval_seconds as int > 0,
        ;
    }
    let r = t_secs - m;
    proof {
        assert(r as int % (interval_seconds as int) == 0) by (nonlinear_arith)
            requires
                r as int == t_secs as int - t_secs as int % (interval_seconds as int),
                t_secs as int >= 0,
                interval_seconds as int > 0,
        ;
    }
    r
}

/// Over a window of `n` whole buckets aligned to the bucket width,
/// every instant's bucket start is one of the `n` aligned starts
/// `s, s + interval, ..., s + (n-1) * interval`. In particular, an
/// hour-long minute-aligned window has exactly 60 minute buckets.
pub proof fn lemma_aligned_window_buckets(s: int, t: int, interval: int, n: int) -> (k: int)
    requires
        interval > 0,
        n >= 0,
        0 <= s,
        s % interval == 0,
        s <= t < s + n * interval,
    ensures
        0 <= k < n,
        spec_bucket_start(t, interval) == s + interval * k,
        spec_bucket_start(t, interval) <= t < spec_bucket_start(t, interval) + interval,
{
    let b = spec_bucket_start(t, interval);
    assert(0 <= t % interval < interval);
    assert(b % interval == 0) by (nonlinear_arith)
        requires
            b == t - t % interval,
            t >= 0,
            interval > 0,
    ;
    let qb = b / interval;
    let qs = s / interval;
    assert(b == interval * qb) by (nonlinear_arith)
        requires
            b % interval == 0,
            qb == b / interval,
            interval > 0,
    ;
    assert(s == interval * qs) by (nonlinear_arith)
        requires
            s % interval == 0,
            qs == s / interval,
            interval > 0,
    ;
    let k = qb - qs;
    assert(b - s == interval * k) by (nonlinear_arith)
        requires
            b == interval * qb,
            s == interval * qs,
            k == qb - qs,
    ;
    assert(b <= t);
    assert(t - b < interval);
    if b < s {
        assert(k <= -1) by (nonlinear_arith)
            requires
                b - s == interval * k,
                b < s,
                interval > 0,
        ;
        assert(b - s <= -interval) by (nonlinear_arith)
            requires
                b - s == interval * k,
                k <= -1,
                interval > 0,
        ;
        assert(t < s);
        assert(false);
    }
    assert(0 <= b - s < n * interval);
    assert(0 <= k < n) by (nonlinear_arith)
        requires
            b - s == interval * k,
            0 <= b - s,
            b - s < n * interval,
            interval > 0,
    ;
    k
}

/// An instant already on a bucket boundary starts its own bucket.
pub proof fn lemma_bucket_start_aligned(t: int, interval: int)
    requires
        interval > 0,
        t >= 0,
        t % interval == 0,
    ensures
        spec_bucket_start(t, interval) == t,
{
}

/// The aggregation expression as query text.
fn aggregation_sql_text(a: Aggregation) -> (r: &'static str)
    ensures
        r@ == aggregation_sql(a),
{
    match a {
        Aggregation::Avg => "avg(Value)",
        Aggregation::Min => "min(Value)",
        Aggregation::Max => "max(Value)",
        Aggregation::Sum => "sum(Value)",
        Aggregation::Count => "count()",
        Aggregation::P50 => "quantile(0.5)(Value)",
        Aggregation::P90 => "quantile(0.9)(Value)",
        Aggregation::P99 => "quantile(0.99)(Value)",
    }
}

impl ClickHouseClient {
    /// A client holding the given connection settings.
    pub fn new(config: &ClickHouseConfig) -> (r: Result<Self, Error>)
        ensures
            r matches Ok(c) && c.url == config.url && c.database == config.database && c.username
                == config.username && c.password == config.password,
    {
        Ok(
            ClickHouseClient {
                url: config.url.clone(),
                database: config.database.clone(),
                username: clone_opt_string(&config.username),
                password: clone_opt_string(&config.password),
            },
        )
    }

    /// The reachability probe: a constant query with no binds.
    pub fn health_check_query(&self) -> (r: SqlQuery)
        ensures
            r.text@ == "SELECT 1"@,
            r.binds@.len() == 0,
    {
        SqlQuery { text: "SELECT 1".to_owned(), binds: Vec::new() }
    }

    /// The per-table size query over this client's database: one bind,
    /// the database name.
    pub fn stats_query(&self) -> (r: SqlQuery)
        ensures
            r.text@
                == "SELECT table, sum(rows) as rows, sum(bytes) as bytes FROM system.parts WHERE database = ? AND active = 1 GROUP BY table"@,
            r.binds@.len() == 1,
            (r.binds@[0] matches BindValue::Text(x) && x@ == self.database@),
    {
        let mut binds: Vec<BindValue> = Vec::new();
        binds.push(BindValue::Text(self.database.clone()));
        SqlQuery {
            text: "SELECT table, sum(rows) as rows, sum(bytes) as bytes FROM system.parts WHERE database = ? AND active = 1 GROUP BY table".to_owned(),
            binds,
        }
    }

    /// The log search query for `params`.
    ///
    /// The text carries the mandatory half-open time window, a numeric
    /// severity floor when one is set, a case-blind substring predicate
    /// on the body when a text filter is set, an exact service predicate
    /// when a service filter is set, strictly descending order by event
    /// timestamp, and the page bound. The window endpoints bind first;
    /// the text filter binds wrapped in `%`; the service binds verbatim.
    pub fn search_logs_query(&self, params: &LogSearchParams) -> (r: SqlQuery)
        ensures
            r.text@ == log_search_sql(params),
            r.binds@.len() == log_search_bind_count(params),
            r.binds@[0] == BindValue::Time(params.time_range.start),
            r.binds@[1] == BindValue::Time(params.time_range.end),
            params.text_query matches Some(t) ==> (r.binds@[2] matches BindValue::Text(x) && x@
                == "%"@ + t@ + "%"@),
            params.service_name matches Some(s) ==> (r.binds@[log_search_bind_count(params) - 1]
                matches BindValue::Text(x) && x@ == s@),
    {
        let mut text = "SELECT generateUUIDv4() as id, Timestamp as timestamp, ObservedTimestamp as observed_timestamp, TraceId as trace_id, SpanId as span_id, SeverityNumber as severity_number, SeverityText as severity_text, Body as body, ResourceAttributes as resource_attributes, LogAttributes as log_attributes, ServiceName as service_name FROM otel_logs WHERE Timestamp >= ? AND Timestamp < ?".to_owned();
        match &params.min_severity {
            Some(sev) => {
                text.append(" AND SeverityNumber >= ");
                let n = sev.to_severity_number();
                push_decimal(&mut text, n as u64);
            },
            None => {},
        }
        if params.text_query.is_some() {
            text.append(" AND Body ILIKE ?");
        }
        if params.service_name.is_some() {
            text.append(" AND ServiceName = ?");
        }
        text.append(" ORDER BY Timestamp DESC LIMIT ");
        push_decimal(&mut text, params.pagination.limit);
        text.append(" OFFSET ");
        push_decimal(&mut text, params.pagination.offset);
        proof {
            assert(text@ =~= log_search_sql(params));
        }

        let mut binds: Vec<BindValue> = Vec::new();
        binds.push(BindValue::Time(params.time_range.start));
        binds.push(BindValue::Time(params.time_range.end));
        match &params.text_query {
            Some(t) => {
                let wrapped = "%".to_owned().concat(t.as_str()).concat("%");
                binds.push(BindValue::Text(wrapped));
            },
            None => {},
        }
        match &params.service_name {
            Some(s) => {
                binds.push(BindValue::Text(s.clone()));
            },
            None => {},
        }
        SqlQuery { text, binds }
    }

    /// The row-count query over a time window: the same window predicate
    /// as a search, no other filters.
    pub fn count_logs_query(&self, time_range: &TimeRange) -> (r: SqlQuery)
        ensures
            r.text@ == "SELECT count() as count FROM otel_logs WHERE Timestamp >= ? AND Timestamp < ?"@,
            r.binds@.len() == 2,
            r.binds@[0] == BindValue::Time(time_range.start),
            r.binds@[1] == BindValue::Time(time_range.end),
    {
        let mut binds: Vec<BindValue> = Vec::new();
        binds.push(BindValue::Time(time_range.start));
        binds.push(BindValue::Time(time_range.end));
        SqlQuery {
            text: "SELECT count() as count FROM otel_logs WHERE Timestamp >= ? AND Timestamp < ?".to_owned(),
            binds,
        }
    }

    /// The metric-name listing query: distinct names in ascending order,
    /// no binds.
    pub fn list_metric_names_query(&self) -> (r: SqlQuery)
        ensures
            r.text@ == "SELECT DISTINCT MetricName as name FROM otel_metrics_gauge ORDER BY name"@,
            r.binds@.len() == 0,
    {
        SqlQuery {
            text: "SELECT DISTINCT MetricName as name FROM otel_metrics_gauge ORDER BY name".to_owned(),
            binds: Vec::new(),
        }
    }

    /// The bucketed metric query for `params`: fixed-width epoch-aligned
    /// buckets, one aggregation per bucket, ascending bucket order. The
    /// metric name binds first, then the window endpoints.
    pub fn query_metrics_query(&self, params: &MetricQueryParams) -> (r: SqlQuery)
        ensures
            r.text@ == metric_query_sql(params),
            r.binds@.len() == 3,
            (r.binds@[0] matches BindValue::Text(x) && x@ == params.metric_name@),
            r.binds@[1] == BindValue::Time(params.time_range.start),
            r.binds@[2] == BindValue::Time(params.time_range.end),
    {
        let interval: u32 = match params.interval_seconds {
            Some(i) => i,
            None => 60,
        };
        let mut text = "SELECT toStartOfInterval(TimeUnix, INTERVAL ".to_owned();
        push_decimal(&mut text, interval as u64);
        text.append(" SECOND) as bucket, ");
        text.append(aggregation_sql_text(params.aggregation));
        text.append(
            " as value FROM otel_metrics_gauge WHERE MetricName = ? AND TimeUnix >= ? AND TimeUnix < ? GROUP BY bucket ORDER BY bucket",
        );
        proof {
            assert(text@ =~= metric_query_sql(params));
        }

        let mut binds: Vec<BindValue> = Vec::new();
        binds.push(BindValue::Text(params.metric_name.clone()));
        binds.push(BindValue::Time(params.time_range.start));
        binds.push(BindValue::Time(params.time_range.end));
        SqlQuery { text, binds }
    }
}

/// How a normalized log entry relates to the raw row it came from:
/// timestamps keep their parts when the sub-second count is real and
/// fall back to the epoch otherwise; empty correlation and service
/// strings become absent; the remaining plain fields carry over.
pub open spec fn entry_matches_row(e: LogEntry, row: RawLogRow) -> bool {
    &&& e.id@ == row.id@
    &&& e.timestamp == checked_timestamp(row.timestamp_secs as int, row.timestamp_nanos as int)
    &&& e.observed_timestamp == checked_timestamp(
        row.observed_secs as int,
        row.observed_nanos as int,
    )
    &&& normalized_absent(row.trace_id@, e.trace_id)
    &&& normalized_absent(row.span_id@, e.span_id)
    &&& e.severity == severity_of_number(row.severity_number as int)
    &&& e.severity_text@ == row.severity_text@
    &&& e.body@ == row.body@
    &&& normalized_absent(row.service_name@, e.service_name)
}

/// Normalize one raw store row into a log entry.
///
/// Attribute blobs are parsed as JSON, the empty object standing in
/// where a blob does not parse; everything else follows
/// `entry_matches_row`.
pub fn log_entry_from_row(row: RawLogRow) -> (e: LogEntry)
    ensures
        entry_matches_row(e, row),
        e.timestamp.wf(),
        e.observed_timestamp.wf(),
{
    let resource_attributes = match shim::parse_json(row.resource_attributes.as_str()) {
        Ok(v) => v,
        Err(()) => shim::empty_json_object(),
    };
    let log_attributes = match shim::parse_json(row.log_attributes.as_str()) {
        Ok(v) => v,
        Err(()) => shim::empty_json_object(),
    };
    LogEntry {
        id: row.id,
        timestamp: Timestamp::checked(row.timestamp_secs, row.timestamp_nanos),
        observed_timestamp: Timestamp::checked(row.observed_secs, row.observed_nanos),
        trace_id: none_if_empty(row.trace_id),
        span_id: none_if_empty(row.span_id),
        severity: LogSeverity::from_severity_number(row.severity_number),
        severity_text: row.severity_text,
        body: row.body,
        resource_attributes,
        log_attributes,
        service_name: none_if_empty(row.service_name),
    }
}

/// Normalize a whole result set, one entry per row, in row order.
pub fn log_entries_from_rows(rows: Vec<RawLogRow>) -> (entries: Vec<LogEntry>)
    ensures
        entries@.len() == rows@.len(),
        forall|i: int|
            0 <= i < rows@.len() ==> #[trigger] entry_matches_row(entries@[i], rows@[i]),
{
    let ghost all = rows@;
    let n = rows.len();
    let mut entries: Vec<LogEntry> = Vec::new();
    let mut remaining = rows;
    let mut idx: usize = 0;
    while remaining.len() > 0
        invariant
            n == all.len(),
            idx + remaining@.len() == n,
            remaining@ == all.subrange(idx as int, all.len() as int),
            entries@.len() == idx,
            forall|i: int| 0 <= i < idx ==> #[trigger] entry_matches_row(entries@[i], all[i]),
        decreases remaining@.len(),
    {
        let row = remaining.remove(0);
        assert(row == all[idx as int]);
        entries.push(log_entry_from_row(row));
        idx += 1;
        proof {
            assert(remaining@ =~= all.subrange(idx as int, all.len() as int));
        }
    }
    entries
}

/// Normalize one raw bucket row into a metric data point.
pub fn metric_point_from_row(row: &RawMetricRow) -> (p: MetricDataPoint)
    ensures
        p.timestamp == checked_timestamp(row.bucket_secs as int, row.bucket_nanos as int),
        p.value_bits == row.value_bits,
        p.timestamp.wf(),
{
    MetricDataPoint {
        timestamp: Timestamp::checked(row.bucket_secs, row.bucket_nanos),
        value_bits: row.value_bits,
    }
}

/// Normalize a whole bucket result set, one point per row, in row order.
pub fn metric_points_from_rows(rows: &Vec<RawMetricRow>) -> (points: Vec<MetricDataPoint>)
    ensures
        points@.len() == rows@.len(),
        forall|i: int|
            0 <= i < rows@.len() ==> #[trigger] points@[i] == (MetricDataPoint {
                timestamp: checked_timestamp(rows@[i].bucket_secs as int, rows@[i].bucket_nanos as int),
                value_bits: rows@[i].value_bits,
            }),
{
    let mut points: Vec<MetricDataPoint> = Vec::new();
    let mut i: usize = 0;
    while i < rows.len()
        invariant
            0 <= i <= rows@.len(),
            points@.len() == i,
            forall|j: int|
                0 <= j < i ==> #[trigger] points@[j] == (MetricDataPoint {
                    timestamp: checked_timestamp(
                        rows@[j].bucket_secs as int,
                        rows@[j].bucket_nanos as int,
                    ),
                    value_bits: rows@[j].value_bits,
                }),
        decreases rows@.len() - i,
    {
        points.push(metric_point_from_row(&rows[i]));
        i += 1;
    }
    points
}

/// Integer addition capped at the largest unsigned 64-bit value.
pub open spec fn sat_add_u64(a: int, b: int) -> int {
    if a + b > u64::MAX {
        u64::MAX as int
    } else {
        a + b
    }
}

/// The stats totals after folding the first `n` per-table rows:
/// `(log_count, log_bytes, metric_count, metric_bytes)`. The log table
/// reports a single row, taken as-is; metric tables share a name prefix
/// and accumulate; other tables are ignored.
pub open spec fn stats_totals(rows: Seq<TableStatsRow>, n: int) -> (int, int, int, int)
    decreases n,
{
    if n <= 0 {
        (0int, 0int, 0int, 0int)
    } else {
        let prev = stats_totals(rows, n - 1);
        let row = rows[n - 1];
        if row.table@ == "otel_logs"@ {
            (row.rows as int, row.bytes as int, prev.2, prev.3)
        } else if is_prefix_of("otel_metrics"@, row.table@) {
            (prev.0, prev.1, sat_add_u64(prev.2, row.rows as int), sat_add_u64(
                prev.3,
                row.bytes as int,
            ))
        } else {
            prev
        }
    }
}

/// Fold per-table size rows into the storage totals.
///
/// Metric totals saturate at the largest unsigned 64-bit value instead
/// of overflowing.
pub fn stats_from_rows(rows: &Vec<TableStatsRow>) -> (r: DatabaseStats)
    ensures
        r.log_count == stats_totals(rows@, rows@.len() as int).0,
        r.log_bytes == stats_totals(rows@, rows@.len() as int).1,
        r.metric_count == stats_totals(rows@, rows@.len() as int).2,
        r.metric_bytes == stats_totals(rows@, rows@.len() as int).3,
{
    let mut stats = DatabaseStats::default();
    let mut i: usize = 0;
    while i < rows.len()
        invariant
            0 <= i <= rows@.len(),
            stats.log_count == stats_totals(rows@, i as int).0,
            stats.log_bytes == stats_totals(rows@, i as int).1,
            stats.metric_count == stats_totals(rows@, i as int).2,
            stats.metric_bytes == stats_totals(rows@, i as int).3,
        decreases rows@.len() - i,
    {
        let row = &rows[i];
        if str_eq(row.table.as_str(), "otel_logs") {
            stats.log_count = row.rows;
            stats.log_bytes = row.bytes;
        } else if str_starts_with(row.table.as_str(), "otel_metrics") {
            stats.metric_count = saturating_add_u64(stats.metric_count, row.rows);
            stats.metric_bytes = saturating_add_u64(stats.metric_bytes, row.bytes);
        }
        i += 1;
    }
    stats
}

/// Unsigned 64-bit addition that stops at the top of the range.
fn saturating_add_u64(a: u64, b: u64) -> (r: u64)
    ensures
        r as int == sat_add_u64(a as int, b as int),
{
    if a > u64::MAX - b {
        u64::MAX
    } else {
        a + b
    }
}

/// Turn an owned raw string into the normalized optional field.
fn none_if_empty(s: String) -> (r: Option<String>)
    ensures
        normalized_absent(s@, r),
{
    if s.as_str().is_empty() {
        None
    } else {
        Some(s)
    }
}

} // verus!
