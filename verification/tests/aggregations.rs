use metric_query_library::errors::MetricQueryError;
use metric_query_library::models::metric::Metric;
use metric_query_library::plugin_impls::{
    create_aggregation, AvgAggregation, MaxAggregation, MinAggregation, SumAggregation,
};
use metric_query_library::plugins::AggregationPlugin;
use metric_query_library::transformations::{AggregationTransformation, TransformationStrategy};

fn create_test_metrics() -> Vec<Metric> {
    vec![
        Metric::new(10, 1000, None),
        Metric::new(20, 2000, None),
        Metric::new(30, 3000, None),
        Metric::new(40, 4000, None),
    ]
}

#[test]
fn test_sum_aggregation() {
    let metrics = create_test_metrics();
    let aggregation = SumAggregation;
    let transformer = AggregationTransformation::new(aggregation);

    let result = transformer.apply(&metrics).unwrap();

    assert_eq!(result.len(), 1);
    assert_eq!(result[0].value, 100); // 10 + 20 + 30 + 40 = 100
}

#[test]
fn test_avg_aggregation() {
    let metrics = create_test_metrics();
    let aggregation = AvgAggregation;
    let transformer = AggregationTransformation::new(aggregation);

    let result = transformer.apply(&metrics).unwrap();

    assert_eq!(result.len(), 1);
    assert_eq!(result[0].value, 25); // (10 + 20 + 30 + 40) / 4 = 25
}

#[test]
fn test_min_aggregation() {
    let metrics = create_test_metrics();
    let aggregation = MinAggregation;
    let transformer = AggregationTransformation::new(aggregation);

    let result = transformer.apply(&metrics).unwrap();

    assert_eq!(result.len(), 1);
    assert_eq!(result[0].value, 10);
}

#[test]
fn test_max_aggregation() {
    let metrics = create_test_metrics();
    let aggregation = MaxAggregation;
    let transformer = AggregationTransformation::new(aggregation);

    let result = transformer.apply(&metrics).unwrap();

    assert_eq!(result.len(), 1);
    assert_eq!(result[0].value, 40);
}

#[test]
fn test_aggregation_factory() {
    let metrics = create_test_metrics();

    let sum_agg = create_aggregation("sum").unwrap();
    let sum_transformer = AggregationTransformation::new(sum_agg);
    let sum_result = sum_transformer.apply(&metrics).unwrap();
    assert_eq!(sum_result[0].value, 100);

    let avg_agg = create_aggregation("avg").unwrap();
    let avg_transformer = AggregationTransformation::new(avg_agg);
    let avg_result = avg_transformer.apply(&metrics).unwrap();
    assert_eq!(avg_result[0].value, 25);
}

#[test]
fn test_every_aggregation_fails_on_empty_input() {
    let metrics: Vec<Metric> = Vec::new();
    assert!(matches!(
        SumAggregation.apply(&metrics),
        Err(MetricQueryError::EmptyMetricStream)
    ));
    assert!(matches!(
        AvgAggregation.apply(&metrics),
        Err(MetricQueryError::EmptyMetricStream)
    ));
    assert!(matches!(
        MinAggregation.apply(&metrics),
        Err(MetricQueryError::EmptyMetricStream)
    ));
    assert!(matches!(
        MaxAggregation.apply(&metrics),
        Err(MetricQueryError::EmptyMetricStream)
    ));
}

#[test]
fn test_aggregate_strategy_fails_on_empty_input() {
    let metrics: Vec<Metric> = Vec::new();
    let transformer = AggregationTransformation::new(SumAggregation);
    assert!(matches!(
        transformer.apply(&metrics),
        Err(MetricQueryError::EmptyMetricStream)
    ));
}

#[test]
fn test_aggregate_strategy_keeps_first_timestamp_and_label() {
    let metrics = vec![
        Metric::new(7, 1234, Some(String::from("cpu"))),
        Metric::new(3, 9999, Some(String::from("memory"))),
    ];
    let transformer = AggregationTransformation::new(SumAggregation);
    let result = transformer.apply(&metrics).unwrap();
    assert_eq!(result.len(), 1);
    assert_eq!(result[0].value, 10);
    assert_eq!(result[0].timestamp, 1234);
    assert_eq!(result[0].label.as_deref(), Some("cpu"));
}

#[test]
fn test_avg_truncates_toward_zero() {
    // sum -7 over 2 values gives -3, not -4
    let metrics = vec![Metric::new(-3, 0, None), Metric::new(-4, 0, None)];
    let result = AvgAggregation.apply(&metrics).unwrap();
    assert_eq!(result, -3);
}

#[test]
fn test_sum_wraps_on_overflow() {
    let metrics = vec![Metric::new(i64::MAX, 0, None), Metric::new(1, 0, None)];
    let result = SumAggregation.apply(&metrics).unwrap();
    assert_eq!(result, i64::MIN);
}

#[test]
fn test_unknown_aggregation_kind_is_invalid() {
    let err = create_aggregation("median").unwrap_err();
    assert!(matches!(err, MetricQueryError::InvalidAggregation { .. }));
}
