//! The built-in plugins: comparison and label filters, the four
//! aggregations, and the three UTC calendar groupings, together with the
//! factories that construct them by name and the registry initializer.

use vstd::prelude::*;
use vstd::arithmetic::div_mod::{
    lemma_basic_div, lemma_div_by_self, lemma_div_is_ordered_by_denominator,
    lemma_div_pos_is_pos, lemma_mod_division_less_than_divisor, lemma_small_mod,
};
use chrono::Timelike;
use crate::errors::{MetricQueryError, MetricQueryResult};
use crate::models::metric::{values_of, Metric};
use crate::numeric::{div_trunc, lemma_wrap_add, max_of, min_of, sum_of, wrap_i64_of};
use crate::plugins::{
    AggregationPlugin, FilterPlugin, PluginRegistry, TimeGroupingPlugin, str_eq,
};

verus! {

// ----- Filter plugin implementations -----

/// Accepts metrics whose value is strictly greater than a bound.
#[derive(Debug, Clone)]
pub struct GreaterThanFilter {
    pub value: i64,
}

impl GreaterThanFilter {
    pub fn new(value: i64) -> (r: Self)
        ensures
            r.value == value,
    {
        GreaterThanFilter { value }
    }
}

impl FilterPlugin for GreaterThanFilter {
    open spec fn spec_name(&self) -> Seq<char> {
        "gt"@
    }

    open spec fn spec_accepts(&self, metric: Metric) -> bool {
        metric.value > self.value
    }

    fn name(&self) -> (r: &str) {
        "gt"
    }

    fn apply(&self, metric: &Metric) -> (r: bool) {
        metric.value > self.value
    }
}

/// Accepts metrics whose value is strictly less than a bound.
#[derive(Debug, Clone)]
pub struct LessThanFilter {
    pub value: i64,
}

impl LessThanFilter {
    pub fn new(value: i64) -> (r: Self)
        ensures
            r.value == value,
    {
        LessThanFilter { value }
    }
}

impl FilterPlugin for LessThanFilter {
    open spec fn spec_name(&self) -> Seq<char> {
        "lt"@
    }

    open spec fn spec_accepts(&self, metric: Metric) -> bool {
        metric.value < self.value
    }

    fn name(&self) -> (r: &str) {
        "lt"
    }

    fn apply(&self, metric: &Metric) -> (r: bool) {
        metric.value < self.value
    }
}

/// Accepts metrics whose value is at least a bound.
#[derive(Debug, Clone)]
pub struct GreaterThanOrEqualFilter {
    pub value: i64,
}

impl GreaterThanOrEqualFilter {
    pub fn new(value: i64) -> (r: Self)
        ensures
            r.value == value,
    {
        GreaterThanOrEqualFilter { value }
    }
}

impl FilterPlugin for GreaterThanOrEqualFilter {
    open spec fn spec_name(&self) -> Seq<char> {
        "ge"@
    }

    open spec fn spec_accepts(&self, metric: Metric) -> bool {
        metric.value >= self.value
    }

    fn name(&self) -> (r: &str) {
        "ge"
    }

    fn apply(&self, metric: &Metric) -> (r: bool) {
        metric.value >= self.value
    }
}

/// Accepts metrics whose value is at most a bound.
#[derive(Debug, Clone)]
pub struct LessThanOrEqualFilter {
    pub value: i64,
}

impl LessThanOrEqualFilter {
    pub fn new(value: i64) -> (r: Self)
        ensures
            r.value == value,
    {
        LessThanOrEqualFilter { value }
    }
}

impl FilterPlugin for LessThanOrEqualFilter {
    open spec fn spec_name(&self) -> Seq<char> {
        "le"@
    }

    open spec fn spec_accepts(&self, metric: Metric) -> bool {
        metric.value <= self.value
    }

    fn name(&self) -> (r: &str) {
        "le"
    }

    fn apply(&self, metric: &Metric) -> (r: bool) {
        metric.value <= self.value
    }
}

/// Accepts metrics whose value equals a bound.
#[derive(Debug, Clone)]
pub struct EqualFilter {
    pub value: i64,
}

impl EqualFilter {
    pub fn new(value: i64) -> (r: Self)
        ensures
            r.value == value,
    {
        EqualFilter { value }
    }
}

impl FilterPlugin for EqualFilter {
    open spec fn spec_name(&self) -> Seq<char> {
        "eq"@
    }

    open spec fn spec_accepts(&self, metric: Metric) -> bool {
        metric.value == self.value
    }

    fn name(&self) -> (r: &str) {
        "eq"
    }

    fn apply(&self, metric: &Metric) -> (r: bool) {
        metric.value == self.value
    }
}

// ----- Label-specific filter implementations -----

/// Accepts metrics whose label is present and equals a bound target exactly;
/// metrics with an absent label are never accepted.
#[derive(Debug, Clone)]
pub struct LabelFilter {
    pub label: String,
}

impl LabelFilter {
    pub fn new(label: String) -> (r: Self)
        ensures
            r.label == label,
    {
        LabelFilter { label }
    }
}

impl FilterPlugin for LabelFilter {
    open spec fn spec_name(&self) -> Seq<char> {
        "label_eq"@
    }

    open spec fn spec_accepts(&self, metric: Metric) -> bool {
        metric.label matches Some(l) && l@ == self.label@
    }

    fn name(&self) -> (r: &str) {
        "label_eq"
    }

    fn apply(&self, metric: &Metric) -> (r: bool) {
        match &metric.label {
            Some(l) => str_eq(l.as_str(), self.label.as_str()),
            None => false,
        }
    }
}

/// Accepts metrics whose label is present and is a member of a bound set of
/// targets; metrics with an absent label are never accepted.
#[derive(Debug, Clone)]
pub struct LabelInFilter {
    pub labels: Vec<String>,
}

impl LabelInFilter {
    pub fn new(labels: Vec<String>) -> (r: Self)
        ensures
            r.labels == labels,
    {
        LabelInFilter { labels }
    }
}

/// Whether any string in the list has these contents.
fn labels_contain(labels: &Vec<String>, target: &str) -> (r: bool)
    ensures
        r == (exists|i: int| 0 <= i < labels@.len() && labels@[i]@ == target@),
{
    let mut i: usize = 0;
    while i < labels.len()
        invariant
            0 <= i <= labels@.len(),
            forall|j: int| 0 <= j < i ==> labels@[j]@ != target@,
        decreases labels@.len() - i,
    {
        if str_eq(labels[i].as_str(), target) {
            return true;
        }
        i = i + 1;
    }
    false
}

impl FilterPlugin for LabelInFilter {
    open spec fn spec_name(&self) -> Seq<char> {
        "label_in"@
    }

    open spec fn spec_accepts(&self, metric: Metric) -> bool {
        metric.label matches Some(l) && (exists|i: int|
            0 <= i < self.labels@.len() && self.labels@[i]@ == l@)
    }

    fn name(&self) -> (r: &str) {
        "label_in"
    }

    fn apply(&self, metric: &Metric) -> (r: bool) {
        match &metric.label {
            Some(l) => labels_contain(&self.labels, l.as_str()),
            None => false,
        }
    }
}

/// A metric with an absent label never satisfies a label equality filter
/// or a label membership filter, whatever targets they were configured
/// with.
pub proof fn lemma_absent_label_never_matches(
    eq_filter: LabelFilter,
    in_filter: LabelInFilter,
    m: Metric,
)
    requires
        m.label is None,
    ensures
        !eq_filter.spec_accepts(m),
        !in_filter.spec_accepts(m),
{
}

/// A metric with an empty-string label satisfies a label equality filter
/// exactly when the filter's target is the empty string too: label absence
/// and an empty-string label are distinct states.
pub proof fn lemma_empty_label_matches_empty_target(f: LabelFilter, m: Metric)
    requires
        m.label matches Some(l) && l@ == Seq::<char>::empty(),
    ensures
        f.spec_accepts(m) <==> f.label@ == Seq::<char>::empty(),
{
}

// ----- Aggregation plugin implementations -----

/// The wrapping 64-bit sum of the values of a slice of metrics.
fn wrapped_values_sum(metrics: &[Metric]) -> (r: i64)
    ensures
        r == wrap_i64_of(sum_of(values_of(metrics@))),
{
    let ghost vals = values_of(metrics@);
    let mut acc: i64 = 0;
    let mut i: usize = 0;
    proof {
        assert(vals.take(0) =~= Seq::<i64>::empty());
        lemma_small_mod(0nat, 0x1_0000_0000_0000_0000nat);
    }
    while i < metrics.len()
        invariant
            0 <= i <= vals.len(),
            vals == values_of(metrics@),
            vals.len() == metrics@.len(),
            acc == wrap_i64_of(sum_of(vals.take(i as int))),
        decreases vals.len() - i,
    {
        let v = metrics[i].value;
        proof {
            assert(vals.take(i as int + 1).drop_last() =~= vals.take(i as int));
            assert(vals.take(i as int + 1).last() == v);
            lemma_wrap_add(sum_of(vals.take(i as int)), v);
        }
        acc = acc.wrapping_add(v);
        i = i + 1;
    }
    proof {
        assert(vals.take(vals.len() as int) =~= vals);
    }
    acc
}

/// Sums all values; overflow wraps per fixed-width signed arithmetic.
#[derive(Debug, Clone)]
pub struct SumAggregation;

impl AggregationPlugin for SumAggregation {
    open spec fn spec_name(&self) -> Seq<char> {
        "sum"@
    }

    open spec fn spec_value(&self, vals: Seq<i64>) -> i64 {
        wrap_i64_of(sum_of(vals))
    }

    fn name(&self) -> (r: &str) {
        "sum"
    }

    fn apply(&self, metrics: &[Metric]) -> (r: MetricQueryResult<i64>) {
        if metrics.len() == 0 {
            return Err(MetricQueryError::EmptyMetricStream);
        }
        Ok(wrapped_values_sum(metrics))
    }
}

/// Sums all values (wrapping) and divides by the count, truncating toward
/// zero as Rust's signed division does.
#[derive(Debug, Clone)]
pub struct AvgAggregation;

impl AggregationPlugin for AvgAggregation {
    open spec fn spec_name(&self) -> Seq<char> {
        "avg"@
    }

    open spec fn spec_value(&self, vals: Seq<i64>) -> i64 {
        div_trunc(wrap_i64_of(sum_of(vals)) as int, vals.len() as int) as i64
    }

    fn name(&self) -> (r: &str) {
        "avg"
    }

    fn apply(&self, metrics: &[Metric]) -> (r: MetricQueryResult<i64>) {
        if metrics.len() == 0 {
            return Err(MetricQueryError::EmptyMetricStream);
        }
        let sum = wrapped_values_sum(metrics);
        let count: u64 = metrics.len() as u64;
        if count <= i64::MAX as u64 {
            let n = count as i64;
            proof {
                let s = sum as int;
                let d = n as int;
                if s >= 0 {
                    lemma_div_pos_is_pos(s, d);
                    lemma_div_is_ordered_by_denominator(s, 1, d);
                } else {
                    lemma_div_pos_is_pos(-s, d);
                    lemma_div_is_ordered_by_denominator(-s, 1, d);
                }
            }
            match sum.checked_div(n) {
                Some(q) => Ok(q),
                None => {
                    // unreachable: the divisor is positive and the truncating
                    // quotient of an i64 by a positive count stays in range
                    proof {
                        assert(false);
                    }
                    Err(MetricQueryError::EmptyMetricStream)
                },
            }
        } else {
            // more metrics than any signed 64-bit count: the truncating
            // quotient is 0, except that a sum of i64::MIN divided by a
            // count of exactly 2^63 gives -1
            let q: i64 = if sum == i64::MIN && count == 0x8000_0000_0000_0000u64 {
                -1
            } else {
                0
            };
            proof {
                let s = sum as int;
                let d = count as int;
                if s >= 0 {
                    lemma_basic_div(s, d);
                } else if -s < d {
                    lemma_basic_div(-s, d);
                } else {
                    lemma_div_by_self(d);
                }
            }
            Ok(q)
        }
    }
}

/// Selects the minimum value.
#[derive(Debug, Clone)]
pub struct MinAggregation;

impl AggregationPlugin for MinAggregation {
    open spec fn spec_name(&self) -> Seq<char> {
        "min"@
    }

    open spec fn spec_value(&self, vals: Seq<i64>) -> i64 {
        min_of(vals)
    }

    fn name(&self) -> (r: &str) {
        "min"
    }

    fn apply(&self, metrics: &[Metric]) -> (r: MetricQueryResult<i64>) {
        if metrics.len() == 0 {
            return Err(MetricQueryError::EmptyMetricStream);
        }
        let ghost vals = values_of(metrics@);
        let mut best = metrics[0].value;
        let mut i: usize = 1;
        proof {
            assert(vals.take(1)[0] == vals[0]);
        }
        while i < metrics.len()
            invariant
                1 <= i <= vals.len(),
                vals == values_of(metrics@),
                vals.len() == metrics@.len(),
                best == min_of(vals.take(i as int)),
            decreases vals.len() - i,
        {
            let v = metrics[i].value;
            proof {
                assert(vals.take(i as int + 1).drop_last() =~= vals.take(i as int));
                assert(vals.take(i as int + 1).last() == v);
            }
            if v < best {
                best = v;
            }
            i = i + 1;
        }
        proof {
            assert(vals.take(vals.len() as int) =~= vals);
        }
        Ok(best)
    }
}

/// Selects the maximum value.
#[derive(Debug, Clone)]
pub struct MaxAggregation;

impl AggregationPlugin for MaxAggregation {
    open spec fn spec_name(&self) -> Seq<char> {
        "max"@
    }

    open spec fn spec_value(&self, vals: Seq<i64>) -> i64 {
        max_of(vals)
    }

    fn name(&self) -> (r: &str) {
        "max"
    }

    fn apply(&self, metrics: &[Metric]) -> (r: MetricQueryResult<i64>) {
        if metrics.len() == 0 {
            return Err(MetricQueryError::EmptyMetricStream);
        }
        let ghost vals = values_of(metrics@);
        let mut best = metrics[0].value;
        let mut i: usize = 1;
        proof {
            assert(vals.take(1)[0] == vals[0]);
        }
        while i < metrics.len()
            invariant
                1 <= i <= vals.len(),
                vals == values_of(metrics@),
                vals.len() == metrics@.len(),
                best == max_of(vals.take(i as int)),
            decreases vals.len() - i,
        {
            let v = metrics[i].value;
            proof {
                assert(vals.take(i as int + 1).drop_last() =~= vals.take(i as int));
                assert(vals.take(i as int + 1).last() == v);
            }
            if v > best {
                best = v;
            }
            i = i + 1;
        }
        proof {
            assert(vals.take(vals.len() as int) =~= vals);
        }
        Ok(best)
    }
}

// ----- Time grouping plugin implementations -----

/// The smallest timestamp chrono can interpret as a UTC calendar instant.
pub const MIN_UTC_TIMESTAMP: i64 = -8_334_601_228_800;

/// The largest timestamp chrono can interpret as a UTC calendar instant.
pub const MAX_UTC_TIMESTAMP: i64 = 8_210_266_876_799;

/// Whether a timestamp lies in the range of representable UTC instants.
pub open spec fn in_utc_range(ts: int) -> bool {
    MIN_UTC_TIMESTAMP <= ts <= MAX_UTC_TIMESTAMP
}

/// The start of the calendar bucket of a given width that contains a
/// timestamp: the greatest multiple of the width that does not exceed it.
pub open spec fn bucket_start(ts: int, width: int) -> int
    recommends
        width > 0,
{
    ts - ts % width
}

/// Relies on chrono's `DateTime::<Utc>::from_timestamp`, which returns
/// `Some` exactly for seconds within the representable calendar range, on
/// `Timelike::with_minute` and `Timelike::with_second`, which for UTC only
/// zero the respective field, and on `DateTime::timestamp`: the chain yields
/// the start of the containing UTC hour.
#[verifier::external_body]
fn utc_hour_start(timestamp: i64) -> (r: Option<i64>)
    ensures
        r == (if in_utc_range(timestamp as int) {
            Some(bucket_start(timestamp as int, 3600) as i64)
        } else {
            None::<i64>
        }),
{
    match chrono::DateTime::<chrono::Utc>::from_timestamp(timestamp, 0) {
        None => None,
        Some(dt) => match dt.with_minute(0) {
            None => None,
            Some(d2) => match d2.with_second(0) {
                None => None,
                Some(d3) => Some(d3.timestamp()),
            },
        },
    }
}

/// Relies on chrono's `DateTime::<Utc>::from_timestamp`,
/// `Timelike::with_second` and `DateTime::timestamp`: the chain yields the
/// start of the containing UTC minute for every representable second.
#[verifier::external_body]
fn utc_minute_start(timestamp: i64) -> (r: Option<i64>)
    ensures
        r == (if in_utc_range(timestamp as int) {
            Some(bucket_start(timestamp as int, 60) as i64)
        } else {
            None::<i64>
        }),
{
    match chrono::DateTime::<chrono::Utc>::from_timestamp(timestamp, 0) {
        None => None,
        Some(dt) => match dt.with_second(0) {
            None => None,
            Some(d2) => Some(d2.timestamp()),
        },
    }
}

/// Relies on chrono's `DateTime::<Utc>::from_timestamp`,
/// `Timelike::with_hour`, `Timelike::with_minute`, `Timelike::with_second`
/// and `DateTime::timestamp`: the chain yields midnight of the containing
/// UTC day for every representable second.
#[verifier::external_body]
fn utc_day_start(timestamp: i64) -> (r: Option<i64>)
    ensures
        r == (if in_utc_range(timestamp as int) {
            Some(bucket_start(timestamp as int, 86400) as i64)
        } else {
            None::<i64>
        }),
{
    match chrono::DateTime::<chrono::Utc>::from_timestamp(timestamp, 0) {
        None => None,
        Some(dt) => match dt.with_hour(0) {
            None => None,
            Some(d2) => match d2.with_minute(0) {
                None => None,
                Some(d3) => match d3.with_second(0) {
                    None => None,
                    Some(d4) => Some(d4.timestamp()),
                },
            },
        },
    }
}

/// Truncates a timestamp to the start of its UTC hour.
#[derive(Debug, Clone)]
pub struct HourGrouping;

impl TimeGroupingPlugin for HourGrouping {
    open spec fn spec_name(&self) -> Seq<char> {
        "hour"@
    }

    open spec fn spec_valid(&self, timestamp: int) -> bool {
        in_utc_range(timestamp)
    }

    open spec fn spec_bucket(&self, timestamp: int) -> int {
        bucket_start(timestamp, 3600)
    }

    open spec fn spec_rejects_with(&self, e: MetricQueryError) -> bool {
        e is InvalidTimeGrouping
    }

    fn name(&self) -> (r: &str) {
        "hour"
    }

    fn get_group_timestamp(&self, timestamp: i64) -> (r: MetricQueryResult<i64>) {
        proof {
            lemma_mod_division_less_than_divisor(timestamp as int, 3600);
        }
        match utc_hour_start(timestamp) {
            Some(v) => Ok(v),
            None => Err(
                MetricQueryError::InvalidTimeGrouping {
                    reason: "timestamp out of range for the UTC calendar".to_owned(),
                },
            ),
        }
    }
}

/// Truncates a timestamp to the start of its UTC minute.
#[derive(Debug, Clone)]
pub struct MinuteGrouping;

impl TimeGroupingPlugin for MinuteGrouping {
    open spec fn spec_name(&self) -> Seq<char> {
        "minute"@
    }

    open spec fn spec_valid(&self, timestamp: int) -> bool {
        in_utc_range(timestamp)
    }

    open spec fn spec_bucket(&self, timestamp: int) -> int {
        bucket_start(timestamp, 60)
    }

    open spec fn spec_rejects_with(&self, e: MetricQueryError) -> bool {
        e is InvalidTimeGrouping
    }

    fn name(&self) -> (r: &str) {
        "minute"
    }

    fn get_group_timestamp(&self, timestamp: i64) -> (r: MetricQueryResult<i64>) {
        proof {
            lemma_mod_division_less_than_divisor(timestamp as int, 60);
        }
        match utc_minute_start(timestamp) {
            Some(v) => Ok(v),
            None => Err(
                MetricQueryError::InvalidTimeGrouping {
                    reason: "timestamp out of range for the UTC calendar".to_owned(),
                },
            ),
        }
    }
}

/// Truncates a timestamp to midnight of its UTC day.
#[derive(Debug, Clone)]
pub struct DayGrouping;

impl TimeGroupingPlugin for DayGrouping {
    open spec fn spec_name(&self) -> Seq<char> {
        "day"@
    }

    open spec fn spec_valid(&self, timestamp: int) -> bool {
        in_utc_range(timestamp)
    }

    open spec fn spec_bucket(&self, timestamp: int) -> int {
        bucket_start(timestamp, 86400)
    }

    open spec fn spec_rejects_with(&self, e: MetricQueryError) -> bool {
        e is InvalidTimeGrouping
    }

    fn name(&self) -> (r: &str) {
        "day"
    }

    fn get_group_timestamp(&self, timestamp: i64) -> (r: MetricQueryResult<i64>) {
        proof {
            lemma_mod_division_less_than_divisor(timestamp as int, 86400);
        }
        match utc_day_start(timestamp) {
            Some(v) => Ok(v),
            None => Err(
                MetricQueryError::InvalidTimeGrouping {
                    reason: "timestamp out of range for the UTC calendar".to_owned(),
                },
            ),
        }
    }
}

// ----- Dispatch enums over the built-in plugins -----

/// Any of the built-in filter plugins, configured.
#[derive(Debug, Clone)]
pub enum AnyFilter {
    Gt(GreaterThanFilter),
    Lt(LessThanFilter),
    Ge(GreaterThanOrEqualFilter),
    Le(LessThanOrEqualFilter),
    Equal(EqualFilter),
    LabelEq(LabelFilter),
    LabelIn(LabelInFilter),
}

impl FilterPlugin for AnyFilter {
    open spec fn spec_name(&self) -> Seq<char> {
        match self {
            AnyFilter::Gt(f) => f.spec_name(),
            AnyFilter::Lt(f) => f.spec_name(),
            AnyFilter::Ge(f) => f.spec_name(),
            AnyFilter::Le(f) => f.spec_name(),
            AnyFilter::Equal(f) => f.spec_name(),
            AnyFilter::LabelEq(f) => f.spec_name(),
            AnyFilter::LabelIn(f) => f.spec_name(),
        }
    }

    open spec fn spec_accepts(&self, metric: Metric) -> bool {
        match self {
            AnyFilter::Gt(f) => f.spec_accepts(metric),
            AnyFilter::Lt(f) => f.spec_accepts(metric),
            AnyFilter::Ge(f) => f.spec_accepts(metric),
            AnyFilter::Le(f) => f.spec_accepts(metric),
            AnyFilter::Equal(f) => f.spec_accepts(metric),
            AnyFilter::LabelEq(f) => f.spec_accepts(metric),
            AnyFilter::LabelIn(f) => f.spec_accepts(metric),
        }
    }

    fn name(&self) -> (r: &str) {
        match self {
            AnyFilter::Gt(f) => f.name(),
            AnyFilter::Lt(f) => f.name(),
            AnyFilter::Ge(f) => f.name(),
            AnyFilter::Le(f) => f.name(),
            AnyFilter::Equal(f) => f.name(),
            AnyFilter::LabelEq(f) => f.name(),
            AnyFilter::LabelIn(f) => f.name(),
        }
    }

    fn apply(&self, metric: &Metric) -> (r: bool) {
        match self {
            AnyFilter::Gt(f) => f.apply(metric),
            AnyFilter::Lt(f) => f.apply(metric),
            AnyFilter::Ge(f) => f.apply(metric),
            AnyFilter::Le(f) => f.apply(metric),
            AnyFilter::Equal(f) => f.apply(metric),
            AnyFilter::LabelEq(f) => f.apply(metric),
            AnyFilter::LabelIn(f) => f.apply(metric),
        }
    }
}

impl AnyFilter {
    /// The same filter kind with a comparison bound replaced; label filters
    /// keep their configuration, since a numeric threshold does not apply
    /// to them.
    pub open spec fn spec_with_threshold(self, value: i64) -> AnyFilter {
        match self {
            AnyFilter::Gt(_) => AnyFilter::Gt(GreaterThanFilter { value }),
            AnyFilter::Lt(_) => AnyFilter::Lt(LessThanFilter { value }),
            AnyFilter::Ge(_) => AnyFilter::Ge(GreaterThanOrEqualFilter { value }),
            AnyFilter::Le(_) => AnyFilter::Le(LessThanOrEqualFilter { value }),
            AnyFilter::Equal(_) => AnyFilter::Equal(EqualFilter { value }),
            AnyFilter::LabelEq(f) => AnyFilter::LabelEq(f),
            AnyFilter::LabelIn(f) => AnyFilter::LabelIn(f),
        }
    }

    /// Bind a comparison bound on this filter kind.
    pub fn with_threshold(self, value: i64) -> (r: AnyFilter)
        ensures
            r == self.spec_with_threshold(value),
    {
        match self {
            AnyFilter::Gt(_) => AnyFilter::Gt(GreaterThanFilter::new(value)),
            AnyFilter::Lt(_) => AnyFilter::Lt(LessThanFilter::new(value)),
            AnyFilter::Ge(_) => AnyFilter::Ge(GreaterThanOrEqualFilter::new(value)),
            AnyFilter::Le(_) => AnyFilter::Le(LessThanOrEqualFilter::new(value)),
            AnyFilter::Equal(_) => AnyFilter::Equal(EqualFilter::new(value)),
            AnyFilter::LabelEq(f) => AnyFilter::LabelEq(f),
            AnyFilter::LabelIn(f) => AnyFilter::LabelIn(f),
        }
    }
}

/// Any of the built-in aggregation plugins.
#[derive(Debug, Clone)]
pub enum AnyAggregation {
    Sum(SumAggregation),
    Avg(AvgAggregation),
    Min(MinAggregation),
    Max(MaxAggregation),
}

impl AggregationPlugin for AnyAggregation {
    open spec fn spec_name(&self) -> Seq<char> {
        match self {
            AnyAggregation::Sum(a) => a.spec_name(),
            AnyAggregation::Avg(a) => a.spec_name(),
            AnyAggregation::Min(a) => a.spec_name(),
            AnyAggregation::Max(a) => a.spec_name(),
        }
    }

    open spec fn spec_value(&self, vals: Seq<i64>) -> i64 {
        match self {
            AnyAggregation::Sum(a) => a.spec_value(vals),
            AnyAggregation::Avg(a) => a.spec_value(vals),
            AnyAggregation::Min(a) => a.spec_value(vals),
            AnyAggregation::Max(a) => a.spec_value(vals),
        }
    }

    fn name(&self) -> (r: &str) {
        match self {
            AnyAggregation::Sum(a) => a.name(),
            AnyAggregation::Avg(a) => a.name(),
            AnyAggregation::Min(a) => a.name(),
            AnyAggregation::Max(a) => a.name(),
        }
    }

    fn apply(&self, metrics: &[Metric]) -> (r: MetricQueryResult<i64>) {
        match self {
            AnyAggregation::Sum(a) => a.apply(metrics),
            AnyAggregation::Avg(a) => a.apply(metrics),
            AnyAggregation::Min(a) => a.apply(metrics),
            AnyAggregation::Max(a) => a.apply(metrics),
        }
    }
}

/// Any of the built-in time grouping plugins.
#[derive(Debug, Clone)]
pub enum AnyTimeGrouping {
    Hour(HourGrouping),
    Minute(MinuteGrouping),
    Day(DayGrouping),
}

impl TimeGroupingPlugin for AnyTimeGrouping {
    open spec fn spec_name(&self) -> Seq<char> {
        match self {
            AnyTimeGrouping::Hour(g) => g.spec_name(),
            AnyTimeGrouping::Minute(g) => g.spec_name(),
            AnyTimeGrouping::Day(g) => g.spec_name(),
        }
    }

    open spec fn spec_valid(&self, timestamp: int) -> bool {
        match self {
            AnyTimeGrouping::Hour(g) => g.spec_valid(timestamp),
            AnyTimeGrouping::Minute(g) => g.spec_valid(timestamp),
            AnyTimeGrouping::Day(g) => g.spec_valid(timestamp),
        }
    }

    open spec fn spec_bucket(&self, timestamp: int) -> int {
        match self {
            AnyTimeGrouping::Hour(g) => g.spec_bucket(timestamp),
            AnyTimeGrouping::Minute(g) => g.spec_bucket(timestamp),
            AnyTimeGrouping::Day(g) => g.spec_bucket(timestamp),
        }
    }

    open spec fn spec_rejects_with(&self, e: MetricQueryError) -> bool {
        match self {
            AnyTimeGrouping::Hour(g) => g.spec_rejects_with(e),
            AnyTimeGrouping::Minute(g) => g.spec_rejects_with(e),
            AnyTimeGrouping::Day(g) => g.spec_rejects_with(e),
        }
    }

    fn name(&self) -> (r: &str) {
        match self {
            AnyTimeGrouping::Hour(g) => g.name(),
            AnyTimeGrouping::Minute(g) => g.name(),
            AnyTimeGrouping::Day(g) => g.name(),
        }
    }

    fn get_group_timestamp(&self, timestamp: i64) -> (r: MetricQueryResult<i64>) {
        match self {
            AnyTimeGrouping::Hour(g) => g.get_group_timestamp(timestamp),
            AnyTimeGrouping::Minute(g) => g.get_group_timestamp(timestamp),
            AnyTimeGrouping::Day(g) => g.get_group_timestamp(timestamp),
        }
    }
}


// ----- Distinctness of the built-in plugin names -----

/// The names of the built-in filters are pairwise distinct.
pub proof fn lemma_filter_names_distinct()
    ensures
        "gt"@ != "lt"@,
        "gt"@ != "ge"@,
        "gt"@ != "le"@,
        "gt"@ != "eq"@,
        "gt"@ != "label_eq"@,
        "gt"@ != "label_in"@,
        "lt"@ != "ge"@,
        "lt"@ != "le"@,
        "lt"@ != "eq"@,
        "lt"@ != "label_eq"@,
        "lt"@ != "label_in"@,
        "ge"@ != "le"@,
        "ge"@ != "eq"@,
        "ge"@ != "label_eq"@,
        "ge"@ != "label_in"@,
        "le"@ != "eq"@,
        "le"@ != "label_eq"@,
        "le"@ != "label_in"@,
        "eq"@ != "label_eq"@,
        "eq"@ != "label_in"@,
        "label_eq"@ != "label_in"@,
{
    reveal_strlit("gt");
    reveal_strlit("lt");
    reveal_strlit("ge");
    reveal_strlit("le");
    reveal_strlit("eq");
    reveal_strlit("label_eq");
    reveal_strlit("label_in");
    assert("gt"@[0] == 'g' && "gt"@[1] == 't');
    assert("lt"@[0] == 'l' && "lt"@[1] == 't');
    assert("ge"@[0] == 'g' && "ge"@[1] == 'e');
    assert("le"@[0] == 'l' && "le"@[1] == 'e');
    assert("eq"@[0] == 'e');
    assert("gt"@.len() == 2 && "label_eq"@.len() == 8 && "label_in"@.len() == 8);
    assert("label_eq"@[6] == 'e' && "label_in"@[6] == 'i');
}

/// The names of the built-in aggregations are pairwise distinct.
pub proof fn lemma_aggregation_names_distinct()
    ensures
        "sum"@ != "avg"@,
        "sum"@ != "min"@,
        "sum"@ != "max"@,
        "avg"@ != "min"@,
        "avg"@ != "max"@,
        "min"@ != "max"@,
{
    reveal_strlit("sum");
    reveal_strlit("avg");
    reveal_strlit("min");
    reveal_strlit("max");
    assert("sum"@[0] == 's' && "avg"@[0] == 'a');
    assert("min"@[0] == 'm' && "max"@[0] == 'm');
    assert("min"@[1] == 'i' && "max"@[1] == 'a');
}

/// The names of the built-in time groupings are pairwise distinct.
pub proof fn lemma_time_grouping_names_distinct()
    ensures
        "hour"@ != "minute"@,
        "hour"@ != "day"@,
        "minute"@ != "day"@,
{
    reveal_strlit("hour");
    reveal_strlit("minute");
    reveal_strlit("day");
    assert("hour"@.len() == 4 && "minute"@.len() == 6 && "day"@.len() == 3);
}

// ----- Factory functions -----

/// Create a comparison filter from a kind name and a bound.
pub fn create_filter(filter_type: &str, value: i64) -> (r: MetricQueryResult<AnyFilter>)
    ensures
        filter_type@ == "gt"@ ==> r == Ok::<AnyFilter, MetricQueryError>(
            AnyFilter::Gt((GreaterThanFilter { value })),
        ),
        filter_type@ == "lt"@ ==> r == Ok::<AnyFilter, MetricQueryError>(
            AnyFilter::Lt((LessThanFilter { value })),
        ),
        filter_type@ == "ge"@ ==> r == Ok::<AnyFilter, MetricQueryError>(
            AnyFilter::Ge((GreaterThanOrEqualFilter { value })),
        ),
        filter_type@ == "le"@ ==> r == Ok::<AnyFilter, MetricQueryError>(
            AnyFilter::Le((LessThanOrEqualFilter { value })),
        ),
        filter_type@ == "eq"@ ==> r == Ok::<AnyFilter, MetricQueryError>(
            AnyFilter::Equal((EqualFilter { value })),
        ),
        filter_type@ != "gt"@ && filter_type@ != "lt"@ && filter_type@ != "ge"@ && filter_type@
            != "le"@ && filter_type@ != "eq"@ ==> (r matches Err(e) && e is InvalidFilter),
{
    proof {
        lemma_filter_names_distinct();
    }
    if str_eq(filter_type, "gt") {
        Ok(AnyFilter::Gt(GreaterThanFilter::new(value)))
    } else if str_eq(filter_type, "lt") {
        Ok(AnyFilter::Lt(LessThanFilter::new(value)))
    } else if str_eq(filter_type, "ge") {
        Ok(AnyFilter::Ge(GreaterThanOrEqualFilter::new(value)))
    } else if str_eq(filter_type, "le") {
        Ok(AnyFilter::Le(LessThanOrEqualFilter::new(value)))
    } else if str_eq(filter_type, "eq") {
        Ok(AnyFilter::Equal(EqualFilter::new(value)))
    } else {
        Err(MetricQueryError::InvalidFilter { reason: "unknown filter type".to_owned() })
    }
}

/// Create an aggregation from a kind name.
pub fn create_aggregation(agg_type: &str) -> (r: MetricQueryResult<AnyAggregation>)
    ensures
        agg_type@ == "sum"@ ==> r == Ok::<AnyAggregation, MetricQueryError>(
            AnyAggregation::Sum(SumAggregation),
        ),
        agg_type@ == "avg"@ ==> r == Ok::<AnyAggregation, MetricQueryError>(
            AnyAggregation::Avg(AvgAggregation),
        ),
        agg_type@ == "min"@ ==> r == Ok::<AnyAggregation, MetricQueryError>(
            AnyAggregation::Min(MinAggregation),
        ),
        agg_type@ == "max"@ ==> r == Ok::<AnyAggregation, MetricQueryError>(
            AnyAggregation::Max(MaxAggregation),
        ),
        agg_type@ != "sum"@ && agg_type@ != "avg"@ && agg_type@ != "min"@ && agg_type@ != "max"@
            ==> (r matches Err(e) && e is InvalidAggregation),
{
    proof {
        lemma_aggregation_names_distinct();
    }
    if str_eq(agg_type, "sum") {
        Ok(AnyAggregation::Sum(SumAggregation))
    } else if str_eq(agg_type, "avg") {
        Ok(AnyAggregation::Avg(AvgAggregation))
    } else if str_eq(agg_type, "min") {
        Ok(AnyAggregation::Min(MinAggregation))
    } else if str_eq(agg_type, "max") {
        Ok(AnyAggregation::Max(MaxAggregation))
    } else {
        Err(MetricQueryError::InvalidAggregation { reason: "unknown aggregation type".to_owned() })
    }
}

/// Create a time grouping from a kind name.
pub fn create_time_grouping(grouping_type: &str) -> (r: MetricQueryResult<AnyTimeGrouping>)
    ensures
        grouping_type@ == "hour"@ ==> r == Ok::<AnyTimeGrouping, MetricQueryError>(
            AnyTimeGrouping::Hour(HourGrouping),
        ),
        grouping_type@ == "minute"@ ==> r == Ok::<AnyTimeGrouping, MetricQueryError>(
            AnyTimeGrouping::Minute(MinuteGrouping),
        ),
        grouping_type@ == "day"@ ==> r == Ok::<AnyTimeGrouping, MetricQueryError>(
            AnyTimeGrouping::Day(DayGrouping),
        ),
        grouping_type@ != "hour"@ && grouping_type@ != "minute"@ && grouping_type@ != "day"@ ==> (
        r matches Err(e) && e is InvalidTimeGrouping),
{
    proof {
        lemma_time_grouping_names_distinct();
    }
    if str_eq(grouping_type, "hour") {
        Ok(AnyTimeGrouping::Hour(HourGrouping))
    } else if str_eq(grouping_type, "minute") {
        Ok(AnyTimeGrouping::Minute(MinuteGrouping))
    } else if str_eq(grouping_type, "day") {
        Ok(AnyTimeGrouping::Day(DayGrouping))
    } else {
        Err(
            MetricQueryError::InvalidTimeGrouping {
                reason: "unknown time grouping type".to_owned(),
            },
        )
    }
}

/// Create a label equality filter from a kind name and a target label.
pub fn create_label_filter(filter_type: &str, label: String) -> (r: MetricQueryResult<AnyFilter>)
    ensures
        filter_type@ == "label_eq"@ ==> r == Ok::<AnyFilter, MetricQueryError>(
            AnyFilter::LabelEq((LabelFilter { label })),
        ),
        filter_type@ != "label_eq"@ ==> (r matches Err(e) && e is InvalidFilter),
{
    if str_eq(filter_type, "label_eq") {
        Ok(AnyFilter::LabelEq(LabelFilter::new(label)))
    } else {
        Err(MetricQueryError::InvalidFilter { reason: "unknown label filter type".to_owned() })
    }
}

/// Create a label membership filter from a kind name and the target labels.
pub fn create_label_in_filter(filter_type: &str, labels: Vec<String>) -> (r: MetricQueryResult<
    AnyFilter,
>)
    ensures
        filter_type@ == "label_in"@ ==> r == Ok::<AnyFilter, MetricQueryError>(
            AnyFilter::LabelIn((LabelInFilter { labels })),
        ),
        filter_type@ != "label_in"@ ==> (r matches Err(e) && e is InvalidFilter),
{
    if str_eq(filter_type, "label_in") {
        Ok(AnyFilter::LabelIn(LabelInFilter::new(labels)))
    } else {
        Err(MetricQueryError::InvalidFilter { reason: "unknown label filter type".to_owned() })
    }
}

// ----- Registry initialization -----

/// What the filter catalog of a freshly initialized registry holds: every
/// built-in filter under its own name, comparison filters bound to 0, the
/// label filters to an empty target, and nothing else.
pub open spec fn has_builtin_filters(m: Map<Seq<char>, AnyFilter>) -> bool {
    &&& forall|k: Seq<char>| #![auto]
        m.contains_key(k) <==> (k == "gt"@ || k == "lt"@ || k == "ge"@ || k == "le"@ || k == "eq"@
            || k == "label_eq"@ || k == "label_in"@)
    &&& m["gt"@] == AnyFilter::Gt((GreaterThanFilter { value: 0 }))
    &&& m["lt"@] == AnyFilter::Lt((LessThanFilter { value: 0 }))
    &&& m["ge"@] == AnyFilter::Ge((GreaterThanOrEqualFilter { value: 0 }))
    &&& m["le"@] == AnyFilter::Le((LessThanOrEqualFilter { value: 0 }))
    &&& m["eq"@] == AnyFilter::Equal((EqualFilter { value: 0 }))
    &&& m["label_eq"@] matches AnyFilter::LabelEq(f) && f.label@ == Seq::<char>::empty()
    &&& m["label_in"@] matches AnyFilter::LabelIn(f) && f.labels@.len() == 0
}

/// What the aggregation catalog of a freshly initialized registry holds.
pub open spec fn has_builtin_aggregations(m: Map<Seq<char>, AnyAggregation>) -> bool {
    &&& forall|k: Seq<char>| #![auto]
        m.contains_key(k) <==> (k == "sum"@ || k == "avg"@ || k == "min"@ || k == "max"@)
    &&& m["sum"@] == AnyAggregation::Sum(SumAggregation)
    &&& m["avg"@] == AnyAggregation::Avg(AvgAggregation)
    &&& m["min"@] == AnyAggregation::Min(MinAggregation)
    &&& m["max"@] == AnyAggregation::Max(MaxAggregation)
}

/// What the time grouping catalog of a freshly initialized registry holds.
pub open spec fn has_builtin_time_groupings(m: Map<Seq<char>, AnyTimeGrouping>) -> bool {
    &&& forall|k: Seq<char>| #![auto]
        m.contains_key(k) <==> (k == "hour"@ || k == "minute"@ || k == "day"@)
    &&& m["hour"@] == AnyTimeGrouping::Hour(HourGrouping)
    &&& m["minute"@] == AnyTimeGrouping::Minute(MinuteGrouping)
    &&& m["day"@] == AnyTimeGrouping::Day(DayGrouping)
}

/// Build a plugin registry loaded with all the built-in plugins.
pub fn init_registry() -> (r: PluginRegistry)
    ensures
        has_builtin_filters(r.spec_filters()),
        has_builtin_aggregations(r.spec_aggregations()),
        has_builtin_time_groupings(r.spec_time_groupings()),
{
    proof {
        lemma_filter_names_distinct();
        lemma_aggregation_names_distinct();
        lemma_time_grouping_names_distinct();
    }
    let mut registry = PluginRegistry::new();
    registry.register_filter(AnyFilter::Gt(GreaterThanFilter::new(0)));
    registry.register_filter(AnyFilter::Lt(LessThanFilter::new(0)));
    registry.register_filter(AnyFilter::Ge(GreaterThanOrEqualFilter::new(0)));
    registry.register_filter(AnyFilter::Le(LessThanOrEqualFilter::new(0)));
    registry.register_filter(AnyFilter::Equal(EqualFilter::new(0)));
    registry.register_filter(AnyFilter::LabelEq(LabelFilter::new(String::new())));
    registry.register_filter(AnyFilter::LabelIn(LabelInFilter::new(Vec::new())));
    registry.register_aggregation(AnyAggregation::Sum(SumAggregation));
    registry.register_aggregation(AnyAggregation::Avg(AvgAggregation));
    registry.register_aggregation(AnyAggregation::Min(MinAggregation));
    registry.register_aggregation(AnyAggregation::Max(MaxAggregation));
    registry.register_time_grouping(AnyTimeGrouping::Hour(HourGrouping));
    registry.register_time_grouping(AnyTimeGrouping::Minute(MinuteGrouping));
    registry.register_time_grouping(AnyTimeGrouping::Day(DayGrouping));
    registry
}


// ----- Verified duplication of configured plugins -----

/// Copy a list of strings element by element.
fn clone_strings(v: &Vec<String>) -> (r: Vec<String>)
    ensures
        r@.len() == v@.len(),
        forall|i: int| 0 <= i < v@.len() ==> r@[i]@ == v@[i]@,
{
    let mut r: Vec<String> = Vec::new();
    let mut i: usize = 0;
    while i < v.len()
        invariant
            0 <= i <= v@.len(),
            r@.len() == i,
            forall|j: int| 0 <= j < i ==> r@[j]@ == v@[j]@,
        decreases v@.len() - i,
    {
        r.push(v[i].clone());
        i = i + 1;
    }
    r
}

/// Two filters that behave alike: the same kind and the same configuration,
/// comparing label targets by their characters.
pub open spec fn filter_equivalent(a: AnyFilter, b: AnyFilter) -> bool {
    match (a, b) {
        (AnyFilter::Gt(x), AnyFilter::Gt(y)) => x == y,
        (AnyFilter::Lt(x), AnyFilter::Lt(y)) => x == y,
        (AnyFilter::Ge(x), AnyFilter::Ge(y)) => x == y,
        (AnyFilter::Le(x), AnyFilter::Le(y)) => x == y,
        (AnyFilter::Equal(x), AnyFilter::Equal(y)) => x == y,
        (AnyFilter::LabelEq(x), AnyFilter::LabelEq(y)) => x.label@ == y.label@,
        (AnyFilter::LabelIn(x), AnyFilter::LabelIn(y)) => x.labels@.len() == y.labels@.len()
            && (forall|i: int| 0 <= i < x.labels@.len() ==> x.labels@[i]@ == y.labels@[i]@),
        _ => false,
    }
}

/// Equivalent filters accept exactly the same metrics and carry the same
/// name.
pub proof fn lemma_filter_equivalent_accepts(a: AnyFilter, b: AnyFilter, m: Metric)
    requires
        filter_equivalent(a, b),
    ensures
        a.spec_accepts(m) == b.spec_accepts(m),
        a.spec_name() == b.spec_name(),
{
    match (a, b) {
        (AnyFilter::LabelIn(x), AnyFilter::LabelIn(y)) => match m.label {
            Some(l) => {
                assert forall|i: int| 0 <= i < x.labels@.len() && x.labels@[i]@ == l@ implies (
                exists|j: int| 0 <= j < y.labels@.len() && y.labels@[j]@ == l@) by {
                    assert(y.labels@[i]@ == l@);
                }
                assert forall|i: int| 0 <= i < y.labels@.len() && y.labels@[i]@ == l@ implies (
                exists|j: int| 0 <= j < x.labels@.len() && x.labels@[j]@ == l@) by {
                    assert(x.labels@[i]@ == l@);
                }
            },
            None => {},
        },
        _ => {},
    }
}

impl AnyFilter {
    /// Copy this filter; an exact copy but for label lists, which are
    /// copied character for character.
    pub fn duplicate(&self) -> (r: AnyFilter)
        ensures
            filter_equivalent(*self, r),
    {
        match self {
            AnyFilter::Gt(f) => AnyFilter::Gt(GreaterThanFilter { value: f.value }),
            AnyFilter::Lt(f) => AnyFilter::Lt(LessThanFilter { value: f.value }),
            AnyFilter::Ge(f) => AnyFilter::Ge(GreaterThanOrEqualFilter { value: f.value }),
            AnyFilter::Le(f) => AnyFilter::Le(LessThanOrEqualFilter { value: f.value }),
            AnyFilter::Equal(f) => AnyFilter::Equal(EqualFilter { value: f.value }),
            AnyFilter::LabelEq(f) => AnyFilter::LabelEq(LabelFilter { label: f.label.clone() }),
            AnyFilter::LabelIn(f) => AnyFilter::LabelIn(
                LabelInFilter { labels: clone_strings(&f.labels) },
            ),
        }
    }
}

impl AnyAggregation {
    /// Copy this aggregation.
    pub fn duplicate(&self) -> (r: AnyAggregation)
        ensures
            r == *self,
    {
        match self {
            AnyAggregation::Sum(_) => AnyAggregation::Sum(SumAggregation),
            AnyAggregation::Avg(_) => AnyAggregation::Avg(AvgAggregation),
            AnyAggregation::Min(_) => AnyAggregation::Min(MinAggregation),
            AnyAggregation::Max(_) => AnyAggregation::Max(MaxAggregation),
        }
    }
}

impl AnyTimeGrouping {
    /// Copy this time grouping.
    pub fn duplicate(&self) -> (r: AnyTimeGrouping)
        ensures
            r == *self,
    {
        match self {
            AnyTimeGrouping::Hour(_) => AnyTimeGrouping::Hour(HourGrouping),
            AnyTimeGrouping::Minute(_) => AnyTimeGrouping::Minute(MinuteGrouping),
            AnyTimeGrouping::Day(_) => AnyTimeGrouping::Day(DayGrouping),
        }
    }
}

} // verus!
