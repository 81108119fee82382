//! A small in-process engine that transforms a sequence of timestamped
//! integer measurements ("metrics") through a chain of filter, aggregation
//! and time-bucketing steps, selected dynamically by name.
//!
//! The crate root holds a compatibility layer that maps a fixed enumeration
//! of filter, aggregation and time-grouping kinds onto the same pipeline
//! engine that the `transformations` module provides.

use vstd::prelude::*;

pub mod errors;
pub mod models;
pub mod numeric;
pub mod plugin_impls;
pub mod plugins;
pub mod transformations;

use crate::errors::{MetricQueryError, MetricQueryResult};
use crate::models::metric::{clone_metric_slice, Metric};
use crate::plugin_impls::{
    has_builtin_aggregations, has_builtin_filters, has_builtin_time_groupings,
    init_registry, AnyAggregation, AnyFilter, AnyTimeGrouping, AvgAggregation, DayGrouping,
    EqualFilter, GreaterThanFilter, GreaterThanOrEqualFilter, HourGrouping, LessThanFilter,
    LessThanOrEqualFilter, MaxAggregation, MinAggregation, MinuteGrouping, SumAggregation,
};
use crate::plugins::{str_eq, TransformationRegistry};
use crate::transformations::{
    run_err, run_ok, run_output, AggregationTransformation, FilterTransformation,
    MetricPipeline, TimeGroupingTransformation, TransformationStep,
};

verus! {

/// The closed filter vocabulary of the compatibility layer.
#[derive(Debug, Clone)]
pub enum Filter {
    GreaterThan { value: i64 },
    LessThan { value: i64 },
    GreaterThanOrEqual { value: i64 },
    LessThanOrEqual { value: i64 },
    Equal { value: i64 },
}

impl Filter {
    /// Select a filter kind by name and bind a threshold on it.
    pub fn new(filter_type: &str, value: i64) -> (r: MetricQueryResult<Filter>)
        ensures
            filter_type@ == "gt"@ ==> r == Ok::<Filter, MetricQueryError>(
                (Filter::GreaterThan { value }),
            ),
            filter_type@ == "lt"@ ==> r == Ok::<Filter, MetricQueryError>(
                (Filter::LessThan { value }),
            ),
            filter_type@ == "ge"@ ==> r == Ok::<Filter, MetricQueryError>(
                (Filter::GreaterThanOrEqual { value }),
            ),
            filter_type@ == "le"@ ==> r == Ok::<Filter, MetricQueryError>(
                (Filter::LessThanOrEqual { value }),
            ),
            filter_type@ == "eq"@ ==> r == Ok::<Filter, MetricQueryError>(
                (Filter::Equal { value }),
            ),
            filter_type@ != "gt"@ && filter_type@ != "lt"@ && filter_type@ != "ge"@ && filter_type@
                != "le"@ && filter_type@ != "eq"@ ==> (r matches Err(e) && e is InvalidFilter),
    {
        proof {
            crate::plugin_impls::lemma_filter_names_distinct();
        }
        if str_eq(filter_type, "gt") {
            Ok(Filter::GreaterThan { value })
        } else if str_eq(filter_type, "lt") {
            Ok(Filter::LessThan { value })
        } else if str_eq(filter_type, "ge") {
            Ok(Filter::GreaterThanOrEqual { value })
        } else if str_eq(filter_type, "le") {
            Ok(Filter::LessThanOrEqual { value })
        } else if str_eq(filter_type, "eq") {
            Ok(Filter::Equal { value })
        } else {
            Err(MetricQueryError::InvalidFilter { reason: "unknown filter type".to_owned() })
        }
    }
}

/// The closed aggregation vocabulary of the compatibility layer.
#[derive(Debug, Clone)]
pub enum Aggregation {
    Sum,
    Avg,
    Min,
    Max,
}

impl Aggregation {
    /// Select an aggregation kind by name.
    pub fn new(agg_type: &str) -> (r: MetricQueryResult<Aggregation>)
        ensures
            agg_type@ == "sum"@ ==> r == Ok::<Aggregation, MetricQueryError>(Aggregation::Sum),
            agg_type@ == "avg"@ ==> r == Ok::<Aggregation, MetricQueryError>(Aggregation::Avg),
            agg_type@ == "min"@ ==> r == Ok::<Aggregation, MetricQueryError>(Aggregation::Min),
            agg_type@ == "max"@ ==> r == Ok::<Aggregation, MetricQueryError>(Aggregation::Max),
            agg_type@ != "sum"@ && agg_type@ != "avg"@ && agg_type@ != "min"@ && agg_type@
                != "max"@ ==> (r matches Err(e) && e is InvalidAggregation),
    {
        proof {
            crate::plugin_impls::lemma_aggregation_names_distinct();
        }
        if str_eq(agg_type, "sum") {
            Ok(Aggregation::Sum)
        } else if str_eq(agg_type, "avg") {
            Ok(Aggregation::Avg)
        } else if str_eq(agg_type, "min") {
            Ok(Aggregation::Min)
        } else if str_eq(agg_type, "max") {
            Ok(Aggregation::Max)
        } else {
            Err(
                MetricQueryError::InvalidAggregation {
                    reason: "unknown aggregation type".to_owned(),
                },
            )
        }
    }
}

/// The closed time-grouping vocabulary of the compatibility layer.
#[derive(Debug, Clone)]
pub enum TimeGrouping {
    Hour,
    Minute,
    Day,
}

impl TimeGrouping {
    /// Select a time grouping kind by name.
    pub fn new(time_group_type: &str) -> (r: MetricQueryResult<TimeGrouping>)
        ensures
            time_group_type@ == "hour"@ ==> r == Ok::<TimeGrouping, MetricQueryError>(
                TimeGrouping::Hour,
            ),
            time_group_type@ == "minute"@ ==> r == Ok::<TimeGrouping, MetricQueryError>(
                TimeGrouping::Minute,
            ),
            time_group_type@ == "day"@ ==> r == Ok::<TimeGrouping, MetricQueryError>(
                TimeGrouping::Day,
            ),
            time_group_type@ != "hour"@ && time_group_type@ != "minute"@ && time_group_type@
                != "day"@ ==> (r matches Err(e) && e is InvalidTimeGrouping),
    {
        proof {
            crate::plugin_impls::lemma_time_grouping_names_distinct();
        }
        if str_eq(time_group_type, "hour") {
            Ok(TimeGrouping::Hour)
        } else if str_eq(time_group_type, "minute") {
            Ok(TimeGrouping::Minute)
        } else if str_eq(time_group_type, "day") {
            Ok(TimeGrouping::Day)
        } else {
            Err(
                MetricQueryError::InvalidTimeGrouping {
                    reason: "unknown time grouping type".to_owned(),
                },
            )
        }
    }
}

/// One record of the compatibility layer: an optional filter, an optional
/// aggregation and an optional time grouping.
#[derive(Debug, Clone)]
pub struct Transformation {
    pub filter: Option<Filter>,
    pub aggregation: Option<Aggregation>,
    pub time_grouping: Option<TimeGrouping>,
}

impl Transformation {
    /// Create an empty record.
    pub fn new() -> (r: Transformation)
        ensures
            r.filter is None,
            r.aggregation is None,
            r.time_grouping is None,
    {
        Transformation { filter: None, aggregation: None, time_grouping: None }
    }
}

/// The engine filter a legacy filter kind stands for.
pub open spec fn spec_legacy_filter(f: Filter) -> AnyFilter {
    match f {
        Filter::GreaterThan { value } => AnyFilter::Gt((GreaterThanFilter { value })),
        Filter::LessThan { value } => AnyFilter::Lt((LessThanFilter { value })),
        Filter::GreaterThanOrEqual { value } => AnyFilter::Ge(
            (GreaterThanOrEqualFilter { value }),
        ),
        Filter::LessThanOrEqual { value } => AnyFilter::Le((LessThanOrEqualFilter { value })),
        Filter::Equal { value } => AnyFilter::Equal((EqualFilter { value })),
    }
}

/// The engine aggregation a legacy aggregation kind stands for.
pub open spec fn spec_legacy_aggregation(a: Aggregation) -> AnyAggregation {
    match a {
        Aggregation::Sum => AnyAggregation::Sum(SumAggregation),
        Aggregation::Avg => AnyAggregation::Avg(AvgAggregation),
        Aggregation::Min => AnyAggregation::Min(MinAggregation),
        Aggregation::Max => AnyAggregation::Max(MaxAggregation),
    }
}

/// The engine time grouping a legacy grouping kind stands for.
pub open spec fn spec_legacy_grouping(g: TimeGrouping) -> AnyTimeGrouping {
    match g {
        TimeGrouping::Hour => AnyTimeGrouping::Hour(HourGrouping),
        TimeGrouping::Minute => AnyTimeGrouping::Minute(MinuteGrouping),
        TimeGrouping::Day => AnyTimeGrouping::Day(DayGrouping),
    }
}

/// The pipeline steps one legacy record contributes: a filter step if a
/// filter is present; then a combined time-group step if both an
/// aggregation and a time grouping are present, or a plain aggregation
/// step if only an aggregation is.
pub open spec fn spec_record_steps(t: Transformation) -> Seq<TransformationStep> {
    let filter_steps = match t.filter {
        Some(f) => seq![
            TransformationStep::Filter((FilterTransformation { filter: spec_legacy_filter(f) })),
        ],
        None => Seq::<TransformationStep>::empty(),
    };
    let agg_steps = match (t.aggregation, t.time_grouping) {
        (Some(a), Some(g)) => seq![
            TransformationStep::GroupByTime(
                (TimeGroupingTransformation {
                    time_grouping: spec_legacy_grouping(g),
                    aggregation: spec_legacy_aggregation(a),
                }),
            ),
        ],
        (Some(a), None) => seq![
            TransformationStep::Aggregate(
                (AggregationTransformation { aggregation: spec_legacy_aggregation(a) }),
            ),
        ],
        _ => Seq::<TransformationStep>::empty(),
    };
    filter_steps + agg_steps
}

/// The pipeline steps a series of legacy records contributes, in order.
pub open spec fn spec_legacy_steps(ts: Seq<Transformation>) -> Seq<TransformationStep>
    decreases ts.len(),
{
    if ts.len() == 0 {
        Seq::<TransformationStep>::empty()
    } else {
        spec_legacy_steps(ts.drop_last()) + spec_record_steps(ts.last())
    }
}

/// The registry name of a legacy filter kind.
fn filter_to_string(filter: &Filter) -> (r: &str)
    ensures
        r@ == crate::plugins::FilterPlugin::spec_name(&spec_legacy_filter(*filter)),
{
    match filter {
        Filter::GreaterThan { .. } => "gt",
        Filter::LessThan { .. } => "lt",
        Filter::GreaterThanOrEqual { .. } => "ge",
        Filter::LessThanOrEqual { .. } => "le",
        Filter::Equal { .. } => "eq",
    }
}

/// The threshold bound in a legacy filter kind.
fn filter_to_value(filter: &Filter) -> (r: i64)
    ensures
        spec_legacy_filter(*filter).spec_with_threshold(r) == spec_legacy_filter(*filter),
{
    match filter {
        Filter::GreaterThan { value } => *value,
        Filter::LessThan { value } => *value,
        Filter::GreaterThanOrEqual { value } => *value,
        Filter::LessThanOrEqual { value } => *value,
        Filter::Equal { value } => *value,
    }
}

/// The registry name of a legacy aggregation kind.
fn aggregation_to_string(agg: &Aggregation) -> (r: &str)
    ensures
        r@ == crate::plugins::AggregationPlugin::spec_name(&spec_legacy_aggregation(*agg)),
{
    match agg {
        Aggregation::Sum => "sum",
        Aggregation::Avg => "avg",
        Aggregation::Min => "min",
        Aggregation::Max => "max",
    }
}

/// The registry name of a legacy time grouping kind.
fn time_grouping_to_string(time_grouping: &TimeGrouping) -> (r: &str)
    ensures
        r@ == crate::plugins::TimeGroupingPlugin::spec_name(
            &spec_legacy_grouping(*time_grouping),
        ),
{
    match time_grouping {
        TimeGrouping::Hour => "hour",
        TimeGrouping::Minute => "minute",
        TimeGrouping::Day => "day",
    }
}

/// Build the pipeline that a series of legacy records describes and execute
/// it over the metrics.
fn apply_transformations(metrics: &[Metric], transformations: &[Transformation]) -> (r:
    MetricQueryResult<Vec<Metric>>)
    ensures
        run_ok(spec_legacy_steps(transformations@), metrics@) ==> (r matches Ok(v) && v@
            == run_output(spec_legacy_steps(transformations@), metrics@)),
        !run_ok(spec_legacy_steps(transformations@), metrics@) ==> (r matches Err(e) && run_err(
            spec_legacy_steps(transformations@),
            metrics@,
            e,
        )),
{
    let mut pipeline = MetricPipeline::new(clone_metric_slice(metrics));
    let mut i: usize = 0;
    proof {
        assert(spec_legacy_steps(transformations@.take(0)) =~= Seq::<TransformationStep>::empty());
    }
    while i < transformations.len()
        invariant
            0 <= i <= transformations@.len(),
            pipeline.spec_metrics() == metrics@,
            pipeline.spec_steps() == spec_legacy_steps(transformations@.take(i as int)),
            has_builtin_filters(pipeline.spec_filters()),
            has_builtin_aggregations(pipeline.spec_aggregations()),
            has_builtin_time_groupings(pipeline.spec_time_groupings()),
        decreases transformations@.len() - i,
    {
        let ghost pre_steps = pipeline.spec_steps();
        let ghost record = transformations@[i as int];
        let t = &transformations[i];
        if let Some(filter) = &t.filter {
            let filter_type = filter_to_string(filter);
            let value = filter_to_value(filter);
            let ghost expected = TransformationStep::Filter(
                (FilterTransformation { filter: spec_legacy_filter(*filter) }),
            );
            match pipeline.filter(filter_type, value) {
                Ok(_) => {
                    proof {
                        assert(pipeline.spec_steps() =~= pre_steps.push(expected));
                    }
                },
                Err(_) => {
                    // unreachable: every legacy filter name is built in
                    proof {
                        assert(false);
                    }
                    return Err(
                        MetricQueryError::InvalidFilter {
                            reason: "unknown filter type".to_owned(),
                        },
                    );
                },
            }
        }
        let ghost after_filter_steps = pipeline.spec_steps();
        match (&t.aggregation, &t.time_grouping) {
            (Some(agg), Some(time_group)) => {
                let agg_type = aggregation_to_string(agg);
                let time_group_type = time_grouping_to_string(time_group);
                let ghost expected = TransformationStep::GroupByTime(
                    (TimeGroupingTransformation {
                        time_grouping: spec_legacy_grouping(*time_group),
                        aggregation: spec_legacy_aggregation(*agg),
                    }),
                );
                match pipeline.group_by_time(time_group_type, agg_type) {
                    Ok(_) => {
                        proof {
                            assert(pipeline.spec_steps() == after_filter_steps.push(expected));
                        }
                    },
                    Err(_) => {
                        // unreachable: every legacy kind is built in
                        proof {
                            assert(false);
                        }
                        return Err(
                            MetricQueryError::InvalidAggregation {
                                reason: "unknown aggregation type".to_owned(),
                            },
                        );
                    },
                }
            },
            (Some(agg), None) => {
                let agg_type = aggregation_to_string(agg);
                let ghost expected = TransformationStep::Aggregate(
                    (AggregationTransformation { aggregation: spec_legacy_aggregation(*agg) }),
                );
                match pipeline.aggregate(agg_type) {
                    Ok(_) => {
                        proof {
                            assert(pipeline.spec_steps() == after_filter_steps.push(expected));
                        }
                    },
                    Err(_) => {
                        // unreachable: every legacy kind is built in
                        proof {
                            assert(false);
                        }
                        return Err(
                            MetricQueryError::InvalidAggregation {
                                reason: "unknown aggregation type".to_owned(),
                            },
                        );
                    },
                }
            },
            _ => {},
        }
        proof {
            assert(transformations@.take(i as int + 1).drop_last() =~= transformations@.take(
                i as int,
            ));
            assert(transformations@.take(i as int + 1).last() == record);
            assert(pipeline.spec_steps() =~= pre_steps + spec_record_steps(record));
        }
        i = i + 1;
    }
    proof {
        assert(transformations@.take(transformations@.len() as int) =~= transformations@);
    }
    pipeline.execute()
}

/// Transform a collection of metrics according to a series of legacy
/// transformation records.
///
/// The result is identical to building a pipeline with the corresponding
/// steps and executing it: a filter step where a filter is present, then a
/// combined time-group step where both an aggregation and a time grouping
/// are present, or a plain aggregation step where only an aggregation is.
pub fn transform(metrics: Vec<Metric>, transformations: Vec<Transformation>) -> (r:
    MetricQueryResult<Vec<Metric>>)
    ensures
        run_ok(spec_legacy_steps(transformations@), metrics@) ==> (r matches Ok(v) && v@
            == run_output(spec_legacy_steps(transformations@), metrics@)),
        !run_ok(spec_legacy_steps(transformations@), metrics@) ==> (r matches Err(e) && run_err(
            spec_legacy_steps(transformations@),
            metrics@,
            e,
        )),
{
    apply_transformations(metrics.as_slice(), transformations.as_slice())
}

/// Create a new metric pipeline with the given metrics and the built-in
/// plugins available by name.
pub fn create_pipeline(metrics: Vec<Metric>) -> (r: MetricPipeline)
    ensures
        r.spec_metrics() == metrics@,
        r.spec_steps() == Seq::<TransformationStep>::empty(),
        has_builtin_filters(r.spec_filters()),
        has_builtin_aggregations(r.spec_aggregations()),
        has_builtin_time_groupings(r.spec_time_groupings()),
{
    MetricPipeline::new(metrics)
}

/// Build a registry view listing the built-in plugins of each capability.
pub fn get_registry() -> (r: TransformationRegistry)
    ensures
        forall|i: int| #![trigger r.filters@[i]]
            0 <= i < r.filters@.len() ==> (r.filters@[i].name@ == "gt"@ || r.filters@[i].name@
                == "lt"@ || r.filters@[i].name@ == "ge"@ || r.filters@[i].name@ == "le"@
                || r.filters@[i].name@ == "eq"@ || r.filters@[i].name@ == "label_eq"@
                || r.filters@[i].name@ == "label_in"@),
        exists|i: int| 0 <= i < r.filters@.len() && r.filters@[i].name@ == "gt"@,
        exists|i: int| 0 <= i < r.filters@.len() && r.filters@[i].name@ == "lt"@,
        exists|i: int| 0 <= i < r.filters@.len() && r.filters@[i].name@ == "ge"@,
        exists|i: int| 0 <= i < r.filters@.len() && r.filters@[i].name@ == "le"@,
        exists|i: int| 0 <= i < r.filters@.len() && r.filters@[i].name@ == "eq"@,
        exists|i: int| 0 <= i < r.filters@.len() && r.filters@[i].name@ == "label_eq"@,
        exists|i: int| 0 <= i < r.filters@.len() && r.filters@[i].name@ == "label_in"@,
        forall|i: int| #![trigger r.aggregations@[i]]
            0 <= i < r.aggregations@.len() ==> (r.aggregations@[i].name@ == "sum"@
                || r.aggregations@[i].name@ == "avg"@ || r.aggregations@[i].name@ == "min"@
                || r.aggregations@[i].name@ == "max"@),
        exists|i: int| 0 <= i < r.aggregations@.len() && r.aggregations@[i].name@ == "sum"@,
        exists|i: int| 0 <= i < r.aggregations@.len() && r.aggregations@[i].name@ == "avg"@,
        exists|i: int| 0 <= i < r.aggregations@.len() && r.aggregations@[i].name@ == "min"@,
        exists|i: int| 0 <= i < r.aggregations@.len() && r.aggregations@[i].name@ == "max"@,
        forall|i: int| #![trigger r.time_groupings@[i]]
            0 <= i < r.time_groupings@.len() ==> (r.time_groupings@[i].name@ == "hour"@
                || r.time_groupings@[i].name@ == "minute"@ || r.time_groupings@[i].name@
                == "day"@),
        exists|i: int| 0 <= i < r.time_groupings@.len() && r.time_groupings@[i].name@ == "hour"@,
        exists|i: int|
            0 <= i < r.time_groupings@.len() && r.time_groupings@[i].name@ == "minute"@,
        exists|i: int| 0 <= i < r.time_groupings@.len() && r.time_groupings@[i].name@ == "day"@,
{
    let registry = init_registry();
    let mut r = TransformationRegistry::new();
    r.refresh(&registry);
    proof {
        assert(registry.spec_filters().contains_key("gt"@));
        assert(registry.spec_filters().contains_key("lt"@));
        assert(registry.spec_filters().contains_key("ge"@));
        assert(registry.spec_filters().contains_key("le"@));
        assert(registry.spec_filters().contains_key("eq"@));
        assert(registry.spec_filters().contains_key("label_eq"@));
        assert(registry.spec_filters().contains_key("label_in"@));
        assert(registry.spec_aggregations().contains_key("sum"@));
        assert(registry.spec_aggregations().contains_key("avg"@));
        assert(registry.spec_aggregations().contains_key("min"@));
        assert(registry.spec_aggregations().contains_key("max"@));
        assert(registry.spec_time_groupings().contains_key("hour"@));
        assert(registry.spec_time_groupings().contains_key("minute"@));
        assert(registry.spec_time_groupings().contains_key("day"@));
        assert forall|k: Seq<char>| #![auto]
            (exists|i: int| 0 <= i < r.filters@.len() && r.filters@[i].name@ == k) implies
            registry.spec_filters().contains_key(k) by {
            let i = choose|i: int| 0 <= i < r.filters@.len() && r.filters@[i].name@ == k;
            assert(registry.spec_filters().contains_key(r.filters@[i].name@));
        }
        assert forall|k: Seq<char>| #![auto]
            (exists|i: int| 0 <= i < r.aggregations@.len() && r.aggregations@[i].name@ == k)
            implies registry.spec_aggregations().contains_key(k) by {
            let i = choose|i: int| 0 <= i < r.aggregations@.len() && r.aggregations@[i].name@ == k;
            assert(registry.spec_aggregations().contains_key(r.aggregations@[i].name@));
        }
        assert forall|k: Seq<char>| #![auto]
            (exists|i: int| 0 <= i < r.time_groupings@.len() && r.time_groupings@[i].name@ == k)
            implies registry.spec_time_groupings().contains_key(k) by {
            let i = choose|i: int|
                0 <= i < r.time_groupings@.len() && r.time_groupings@[i].name@ == k;
            assert(registry.spec_time_groupings().contains_key(r.time_groupings@[i].name@));
        }
    }
    r
}

} // verus!
