//! Error taxonomy of the metric query engine.
//!
//! Every failure is returned synchronously as a value; nothing panics and
//! nothing retries. The variants that carry a `reason` hold a short
//! human-readable explanation.

use vstd::prelude::*;

verus! {

/// Errors that the metric query engine can return.
#[derive(Debug)]
pub enum MetricQueryError {
    /// An unknown or ill-formed filter was requested.
    InvalidFilter { reason: String },
    /// An unknown or ill-formed aggregation was requested.
    InvalidAggregation { reason: String },
    /// An unknown or ill-formed time grouping was requested.
    InvalidTimeGrouping { reason: String },
    /// An aggregation or time grouping was applied to zero metrics.
    EmptyMetricStream,
    /// An internal operation could not be completed.
    OperationFailed { operation: String, reason: String },
}

/// Result type for metric query operations.
pub type MetricQueryResult<T> = Result<T, MetricQueryError>;

} // verus!
