//! Core data types: severity levels and their numeric codec, instants and
//! time ranges, pagination, aggregation functions, and the normalized log
//! entry shape.

use vstd::prelude::*;

use crate::shim;
use crate::textfmt::eq_ignore_ascii_case;
use crate::textfmt::matches_name_ci;

verus! {

/// The widest look-back a range helper accepts, in hours: far beyond any
/// real retention, but small enough that the second arithmetic below
/// cannot overflow.
pub const MAX_RANGE_HOURS: i64 = 1_000_000;

/// The widest look-back a range helper accepts, in minutes.
pub const MAX_RANGE_MINUTES: i64 = 60_000_000;

/// Log severity levels, from least to most severe.
#[derive(Clone, Copy, Debug, PartialEq, Eq, Structural)]
pub enum LogSeverity {
    Trace,
    Debug,
    Info,
    Warn,
    Error,
    Fatal,
}

/// The severity band a numeric severity code falls in.
/// Codes outside the 1..=24 scale fall back to `Info`.
pub open spec fn severity_of_number(num: int) -> LogSeverity {
    if 1 <= num <= 4 {
        LogSeverity::Trace
    } else if 5 <= num <= 8 {
        LogSeverity::Debug
    } else if 9 <= num <= 12 {
        LogSeverity::Info
    } else if 13 <= num <= 16 {
        LogSeverity::Warn
    } else if 17 <= num <= 20 {
        LogSeverity::Error
    } else if 21 <= num <= 24 {
        LogSeverity::Fatal
    } else {
        LogSeverity::Info
    }
}

/// The numeric floor of each severity band.
pub open spec fn severity_number_of(s: LogSeverity) -> int {
    match s {
        LogSeverity::Trace => 1,
        LogSeverity::Debug => 5,
        LogSeverity::Info => 9,
        LogSeverity::Warn => 13,
        LogSeverity::Error => 17,
        LogSeverity::Fatal => 21,
    }
}

impl LogSeverity {
    /// Decode a numeric severity code (scale 1..=24) into its band.
    pub fn from_severity_number(num: i32) -> (r: Self)
        ensures
            r == severity_of_number(num as int),
    {
        if 1 <= num && num <= 4 {
            LogSeverity::Trace
        } else if 5 <= num && num <= 8 {
            LogSeverity::Debug
        } else if 9 <= num && num <= 12 {
            LogSeverity::Info
        } else if 13 <= num && num <= 16 {
            LogSeverity::Warn
        } else if 17 <= num && num <= 20 {
            LogSeverity::Error
        } else if 21 <= num && num <= 24 {
            LogSeverity::Fatal
        } else {
            LogSeverity::Info
        }
    }

    /// Encode a severity as the numeric floor of its band.
    pub fn to_severity_number(&self) -> (r: i32)
        ensures
            r == severity_number_of(*self),
            1 <= r <= 21,
    {
        match self {
            LogSeverity::Trace => 1,
            LogSeverity::Debug => 5,
            LogSeverity::Info => 9,
            LogSeverity::Warn => 13,
            LogSeverity::Error => 17,
            LogSeverity::Fatal => 21,
        }
    }
}

/// Decoding the numeric floor of a severity band gives that band back.
pub proof fn lemma_severity_roundtrip(s: LogSeverity)
    ensures
        severity_of_number(severity_number_of(s)) == s,
{
}

/// Every numeric code on the 1..=24 scale lands in the band given by
/// the fixed table, and every code off the scale falls back to `Info`.
pub proof fn lemma_severity_bands(num: int)
    ensures
        1 <= num <= 4 ==> severity_of_number(num) == LogSeverity::Trace,
        5 <= num <= 8 ==> severity_of_number(num) == LogSeverity::Debug,
        9 <= num <= 12 ==> severity_of_number(num) == LogSeverity::Info,
        13 <= num <= 16 ==> severity_of_number(num) == LogSeverity::Warn,
        17 <= num <= 20 ==> severity_of_number(num) == LogSeverity::Error,
        21 <= num <= 24 ==> severity_of_number(num) == LogSeverity::Fatal,
        num < 1 || num > 24 ==> severity_of_number(num) == LogSeverity::Info,
{
}

/// The wire and display name of each severity band.
pub open spec fn severity_display_name(s: LogSeverity) -> Seq<char> {
    match s {
        LogSeverity::Trace => "TRACE"@,
        LogSeverity::Debug => "DEBUG"@,
        LogSeverity::Info => "INFO"@,
        LogSeverity::Warn => "WARN"@,
        LogSeverity::Error => "ERROR"@,
        LogSeverity::Fatal => "FATAL"@,
    }
}

impl LogSeverity {
    /// The uppercase short name used on the wire and in display output.
    pub fn display_name(&self) -> (r: String)
        ensures
            r@ == severity_display_name(*self),
    {
        match self {
            LogSeverity::Trace => "TRACE".to_owned(),
            LogSeverity::Debug => "DEBUG".to_owned(),
            LogSeverity::Info => "INFO".to_owned(),
            LogSeverity::Warn => "WARN".to_owned(),
            LogSeverity::Error => "ERROR".to_owned(),
            LogSeverity::Fatal => "FATAL".to_owned(),
        }
    }
}

/// The severity band a case-blind ASCII spelling of a band name denotes,
/// if any.
pub open spec fn severity_of_name(s: Seq<char>) -> Option<LogSeverity> {
    if matches_name_ci(s, "TRACE"@, "trace"@) {
        Some(LogSeverity::Trace)
    } else if matches_name_ci(s, "DEBUG"@, "debug"@) {
        Some(LogSeverity::Debug)
    } else if matches_name_ci(s, "INFO"@, "info"@) {
        Some(LogSeverity::Info)
    } else if matches_name_ci(s, "WARN"@, "warn"@) {
        Some(LogSeverity::Warn)
    } else if matches_name_ci(s, "ERROR"@, "error"@) {
        Some(LogSeverity::Error)
    } else if matches_name_ci(s, "FATAL"@, "fatal"@) {
        Some(LogSeverity::Fatal)
    } else {
        None
    }
}

impl LogSeverity {
    /// Parse a band name, ignoring ASCII case. Anything that is not a
    /// band name parses to nothing.
    pub fn parse_name(s: &str) -> (r: Option<Self>)
        ensures
            r == severity_of_name(s@),
    {
        proof {
            reveal_strlit("TRACE");
            reveal_strlit("trace");
            reveal_strlit("DEBUG");
            reveal_strlit("debug");
            reveal_strlit("INFO");
            reveal_strlit("info");
            reveal_strlit("WARN");
            reveal_strlit("warn");
            reveal_strlit("ERROR");
            reveal_strlit("error");
            reveal_strlit("FATAL");
            reveal_strlit("fatal");
        }
        if eq_ignore_ascii_case(s, "TRACE", "trace") {
            Some(LogSeverity::Trace)
        } else if eq_ignore_ascii_case(s, "DEBUG", "debug") {
            Some(LogSeverity::Debug)
        } else if eq_ignore_ascii_case(s, "INFO", "info") {
            Some(LogSeverity::Info)
        } else if eq_ignore_ascii_case(s, "WARN", "warn") {
            Some(LogSeverity::Warn)
        } else if eq_ignore_ascii_case(s, "ERROR", "error") {
            Some(LogSeverity::Error)
        } else if eq_ignore_ascii_case(s, "FATAL", "fatal") {
            Some(LogSeverity::Fatal)
        } else {
            None
        }
    }
}

/// The aggregation function a case-blind ASCII spelling of its wire
/// name denotes, if any.
pub open spec fn aggregation_of_name(s: Seq<char>) -> Option<Aggregation> {
    if matches_name_ci(s, "AVG"@, "avg"@) {
        Some(Aggregation::Avg)
    } else if matches_name_ci(s, "MIN"@, "min"@) {
        Some(Aggregation::Min)
    } else if matches_name_ci(s, "MAX"@, "max"@) {
        Some(Aggregation::Max)
    } else if matches_name_ci(s, "SUM"@, "sum"@) {
        Some(Aggregation::Sum)
    } else if matches_name_ci(s, "COUNT"@, "count"@) {
        Some(Aggregation::Count)
    } else if matches_name_ci(s, "P50"@, "p50"@) {
        Some(Aggregation::P50)
    } else if matches_name_ci(s, "P90"@, "p90"@) {
        Some(Aggregation::P90)
    } else if matches_name_ci(s, "P99"@, "p99"@) {
        Some(Aggregation::P99)
    } else {
        None
    }
}

impl Aggregation {
    /// Parse an aggregation-function name, ignoring ASCII case.
    /// Anything else parses to nothing.
    pub fn parse_name(s: &str) -> (r: Option<Self>)
        ensures
            r == aggregation_of_name(s@),
    {
        proof {
            reveal_strlit("AVG");
            reveal_strlit("avg");
            reveal_strlit("MIN");
            reveal_strlit("min");
            reveal_strlit("MAX");
            reveal_strlit("max");
            reveal_strlit("SUM");
            reveal_strlit("sum");
            reveal_strlit("COUNT");
            reveal_strlit("count");
            reveal_strlit("P50");
            reveal_strlit("p50");
            reveal_strlit("P90");
            reveal_strlit("p90");
            reveal_strlit("P99");
            reveal_strlit("p99");
        }
        if eq_ignore_ascii_case(s, "AVG", "avg") {
            Some(Aggregation::Avg)
        } else if eq_ignore_ascii_case(s, "MIN", "min") {
            Some(Aggregation::Min)
        } else if eq_ignore_ascii_case(s, "MAX", "max") {
            Some(Aggregation::Max)
        } else if eq_ignore_ascii_case(s, "SUM", "sum") {
            Some(Aggregation::Sum)
        } else if eq_ignore_ascii_case(s, "COUNT", "count") {
            Some(Aggregation::Count)
        } else if eq_ignore_ascii_case(s, "P50", "p50") {
            Some(Aggregation::P50)
        } else if eq_ignore_ascii_case(s, "P90", "p90") {
            Some(Aggregation::P90)
        } else if eq_ignore_ascii_case(s, "P99", "p99") {
            Some(Aggregation::P99)
        } else {
            None
        }
    }
}

/// Clone an optional string, preserving presence and contents.
pub(crate) fn clone_opt_string(s: &Option<String>) -> (r: Option<String>)
    ensures
        r == *s,
{
    match s {
        Some(x) => Some(x.clone()),
        None => None,
    }
}

/// An instant in time: non-leap Unix seconds plus a sub-second part.
/// Well-formed values keep the sub-second part below 10^9.
#[derive(Clone, Copy, Debug, PartialEq, Eq, Structural)]
pub struct Timestamp {
    pub secs: i64,
    pub nanos: u32,
}

impl Timestamp {
    /// A well-formed instant: the sub-second part names real nanoseconds.
    pub open spec fn wf(&self) -> bool {
        self.nanos < 1_000_000_000
    }

    /// `self` at or before `other` in time order.
    pub open spec fn spec_le(&self, other: &Timestamp) -> bool {
        self.secs < other.secs || (self.secs == other.secs && self.nanos <= other.nanos)
    }

    /// Build an instant from raw parts, falling back to the epoch when
    /// the sub-second part is not a real nanosecond count.
    pub fn checked(secs: i64, nanos: u32) -> (r: Self)
        ensures
            r.wf(),
            nanos < 1_000_000_000 ==> r.secs == secs && r.nanos == nanos,
            nanos >= 1_000_000_000 ==> r.secs == 0 && r.nanos == 0,
    {
        if nanos < 1_000_000_000 {
            Timestamp { secs, nanos }
        } else {
            Timestamp { secs: 0, nanos: 0 }
        }
    }

    /// `self` strictly before `other` in time order.
    pub open spec fn spec_lt(&self, other: &Timestamp) -> bool {
        self.secs < other.secs || (self.secs == other.secs && self.nanos < other.nanos)
    }

    /// Time-order comparison: `self` at or before `other`.
    pub fn le(&self, other: &Timestamp) -> (r: bool)
        ensures
            r == self.spec_le(other),
    {
        self.secs < other.secs || (self.secs == other.secs && self.nanos <= other.nanos)
    }

    /// Time-order comparison: `self` strictly before `other`.
    pub fn lt(&self, other: &Timestamp) -> (r: bool)
        ensures
            r == self.spec_lt(other),
    {
        self.secs < other.secs || (self.secs == other.secs && self.nanos < other.nanos)
    }

    /// The current instant, read from the system clock.
    pub fn now() -> (r: Self)
        ensures
            r.wf(),
            0 <= r.secs,
    {
        shim::clock_now()
    }

    /// The RFC 3339 text form of this instant.
    pub fn to_rfc3339(&self) -> (r: String)
        ensures
            r@ == shim::rfc3339_text(self.secs as int, self.nanos as int),
    {
        shim::format_rfc3339(self)
    }
}

/// A half-open window of time: `start` inclusive, `end` exclusive.
#[derive(Clone, Copy, Debug, PartialEq, Eq, Structural)]
pub struct TimeRange {
    pub start: Timestamp,
    pub end: Timestamp,
}

impl TimeRange {
    /// A well-formed window: both endpoints well-formed, start not after end.
    pub open spec fn wf(&self) -> bool {
        self.start.wf() && self.end.wf() && self.start.spec_le(&self.end)
    }

    /// The window ending now and reaching `minutes` minutes back.
    pub fn last_minutes(minutes: i64) -> (r: Self)
        requires
            0 <= minutes <= MAX_RANGE_MINUTES,
        ensures
            r.wf(),
            r.end.secs - r.start.secs == minutes * 60,
            r.start.nanos == r.end.nanos,
            0 <= r.end.secs,
    {
        let end = Timestamp::now();
        let start = Timestamp { secs: end.secs - minutes * 60, nanos: end.nanos };
        TimeRange { start, end }
    }

    /// The window ending now and reaching `hours` hours back.
    pub fn last_hours(hours: i64) -> (r: Self)
        requires
            0 <= hours <= MAX_RANGE_HOURS,
        ensures
            r.wf(),
            r.end.secs - r.start.secs == hours * 3600,
            r.start.nanos == r.end.nanos,
            0 <= r.end.secs,
    {
        let end = Timestamp::now();
        let start = Timestamp { secs: end.secs - hours * 3600, nanos: end.nanos };
        TimeRange { start, end }
    }
}

/// Offset/limit pagination. A limit is never silently zero: the default
/// is 100 and callers that omit a limit get that default.
#[derive(Clone, Copy, Debug, PartialEq, Eq, Structural)]
pub struct Pagination {
    pub offset: u64,
    pub limit: u64,
}

impl Pagination {
    /// Pagination from optional caller values, with the documented
    /// defaults for whatever was omitted.
    pub fn from_options(offset: Option<u64>, limit: Option<u64>) -> (r: Self)
        ensures
            r.offset == (if offset is Some { offset->0 } else { 0u64 }),
            r.limit == (if limit is Some { limit->0 } else { 100u64 }),
    {
        Pagination {
            offset: match offset {
                Some(o) => o,
                None => 0,
            },
            limit: match limit {
                Some(l) => l,
                None => 100,
            },
        }
    }
}

impl Default for Pagination {
    /// The default page: no offset, at most 100 items.
    fn default() -> (r: Self)
        ensures
            r.offset == 0,
            r.limit == 100,
    {
        Pagination { offset: 0, limit: 100 }
    }
}

/// Metric kinds recognized by the store schema.
#[derive(Clone, Copy, Debug, PartialEq, Eq, Structural)]
pub enum MetricType {
    Gauge,
    Sum,
    Histogram,
    ExponentialHistogram,
    Summary,
}

/// The wire name of each metric kind.
pub open spec fn metric_type_display_name(t: MetricType) -> Seq<char> {
    match t {
        MetricType::Gauge => "gauge"@,
        MetricType::Sum => "sum"@,
        MetricType::Histogram => "histogram"@,
        MetricType::ExponentialHistogram => "exponential_histogram"@,
        MetricType::Summary => "summary"@,
    }
}

impl MetricType {
    /// The lowercase wire name of this metric kind.
    pub fn display_name(&self) -> (r: String)
        ensures
            r@ == metric_type_display_name(*self),
    {
        match self {
            MetricType::Gauge => "gauge".to_owned(),
            MetricType::Sum => "sum".to_owned(),
            MetricType::Histogram => "histogram".to_owned(),
            MetricType::ExponentialHistogram => "exponential_histogram".to_owned(),
            MetricType::Summary => "summary".to_owned(),
        }
    }
}

/// Aggregation functions a metric query may apply per bucket.
#[derive(Clone, Copy, Debug, PartialEq, Eq, Structural)]
pub enum Aggregation {
    Avg,
    Min,
    Max,
    Sum,
    Count,
    P50,
    P90,
    P99,
}

/// The wire name of each aggregation function.
pub open spec fn aggregation_display_name(a: Aggregation) -> Seq<char> {
    match a {
        Aggregation::Avg => "avg"@,
        Aggregation::Min => "min"@,
        Aggregation::Max => "max"@,
        Aggregation::Sum => "sum"@,
        Aggregation::Count => "count"@,
        Aggregation::P50 => "p50"@,
        Aggregation::P90 => "p90"@,
        Aggregation::P99 => "p99"@,
    }
}

impl Aggregation {
    /// The lowercase wire name of this aggregation function.
    pub fn display_name(&self) -> (r: String)
        ensures
            r@ == aggregation_display_name(*self),
    {
        match self {
            Aggregation::Avg => "avg".to_owned(),
            Aggregation::Min => "min".to_owned(),
            Aggregation::Max => "max".to_owned(),
            Aggregation::Sum => "sum".to_owned(),
            Aggregation::Count => "count".to_owned(),
            Aggregation::P50 => "p50".to_owned(),
            Aggregation::P90 => "p90".to_owned(),
            Aggregation::P99 => "p99".to_owned(),
        }
    }
}

/// A normalized log entry, one per matching row of a search.
///
/// Optional correlation fields hold `None` where the row's value was the
/// empty string; attribute blobs are parsed JSON, defaulting to the empty
/// object where the blob does not parse.
#[derive(Debug)]
pub struct LogEntry {
    pub id: String,
    pub timestamp: Timestamp,
    pub observed_timestamp: Timestamp,
    pub trace_id: Option<String>,
    pub span_id: Option<String>,
    pub severity: LogSeverity,
    pub severity_text: String,
    pub body: String,
    pub resource_attributes: serde_json::Value,
    pub log_attributes: serde_json::Value,
    pub service_name: Option<String>,
}

/// A metric sample as the store's metric tables describe it.
///
/// The sample value is carried as the raw bits of an IEEE 754 double,
/// untouched by this crate's logic.
#[derive(Debug)]
pub struct Metric {
    pub name: String,
    pub description: Option<String>,
    pub unit: Option<String>,
    pub metric_type: MetricType,
    pub timestamp: Timestamp,
    pub value_bits: Option<u64>,
    pub resource_attributes: serde_json::Value,
    pub attributes: serde_json::Value,
    pub service_name: Option<String>,
}

} // verus!
