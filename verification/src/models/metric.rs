//! The elementary data entity: a single timestamped, optionally labeled
//! integer measurement.

use vstd::prelude::*;

verus! {

/// A metric is a single data point that is collected at a specific time.
///
/// `label` absence and an empty-string label are distinct states: an absent
/// label never matches a label filter, while an empty-string label can match
/// a filter whose target is also the empty string.
#[derive(Debug, Clone)]
pub struct Metric {
    /// The value of the metric.
    pub value: i64,
    /// The time at which the metric was collected, in seconds since the
    /// Unix epoch, UTC.
    pub timestamp: i64,
    /// An optional label (e.g. "cpu", "memory").
    pub label: Option<String>,
}

impl Metric {
    /// Create a new Metric.
    pub fn new(value: i64, timestamp: i64, label: Option<String>) -> (m: Metric)
        ensures
            m.value == value,
            m.timestamp == timestamp,
            m.label == label,
    {
        Metric { value, timestamp, label }
    }
}

/// A metric whose label is mandatory.
#[derive(Debug, Clone)]
pub struct LabeledMetric {
    /// The label of the metric.
    pub label: String,
    /// The value of the metric.
    pub value: i64,
    /// The time at which the metric was collected.
    pub timestamp: i64,
}

impl LabeledMetric {
    /// Create a new LabeledMetric.
    pub fn new(label: String, value: i64, timestamp: i64) -> (m: LabeledMetric)
        ensures
            m.label == label,
            m.value == value,
            m.timestamp == timestamp,
    {
        LabeledMetric { label, value, timestamp }
    }
}

/// The sequence of values carried by a sequence of metrics, in order.
pub open spec fn values_of(metrics: Seq<Metric>) -> Seq<i64> {
    metrics.map_values(|m: Metric| m.value)
}

/// Appending a metric appends its value.
pub proof fn lemma_values_of_push(s: Seq<Metric>, m: Metric)
    ensures
        values_of(s.push(m)) =~= values_of(s).push(m.value),
{
}

/// Copy a metric field by field.
///
/// The derived `Clone` is opaque to the verifier, so verified code that needs
/// to duplicate a metric goes through this function instead.
pub fn clone_metric(m: &Metric) -> (r: Metric)
    ensures
        r == *m,
{
    let label: Option<String> = match &m.label {
        Some(s) => Some(s.clone()),
        None => None,
    };
    Metric { value: m.value, timestamp: m.timestamp, label }
}

/// Copy a collection of metrics element by element.
pub fn clone_metrics(metrics: &Vec<Metric>) -> (r: Vec<Metric>)
    ensures
        r@ == metrics@,
{
    let mut r: Vec<Metric> = Vec::new();
    let mut i: usize = 0;
    while i < metrics.len()
        invariant
            0 <= i <= metrics@.len(),
            r@ =~= metrics@.take(i as int),
        decreases metrics@.len() - i,
    {
        r.push(clone_metric(&metrics[i]));
        i = i + 1;
    }
    proof {
        assert(metrics@.take(metrics@.len() as int) =~= metrics@);
    }
    r
}

/// Copy a slice of metrics element by element.
pub fn clone_metric_slice(metrics: &[Metric]) -> (r: Vec<Metric>)
    ensures
        r@ == metrics@,
{
    let mut r: Vec<Metric> = Vec::new();
    let mut i: usize = 0;
    while i < metrics.len()
        invariant
            0 <= i <= metrics@.len(),
            r@ =~= metrics@.take(i as int),
        decreases metrics@.len() - i,
    {
        r.push(clone_metric(&metrics[i]));
        i = i + 1;
    }
    proof {
        assert(metrics@.take(metrics@.len() as int) =~= metrics@);
    }
    r
}

} // verus!
