use chrono::{TimeZone, Utc};
use metric_query_library::create_pipeline;
use metric_query_library::errors::MetricQueryError;
use metric_query_library::models::metric::Metric;
use metric_query_library::plugin_impls::{GreaterThanFilter, SumAggregation, DayGrouping};
use metric_query_library::transformations::{
    FilterTransformation, MetricPipeline, TimeGroupingTransformation, TransformationStrategy,
};

fn timestamp(year: i32, month: u32, day: u32, hour: u32, min: u32, sec: u32) -> i64 {
    Utc.with_ymd_and_hms(year, month, day, hour, min, sec)
        .unwrap()
        .timestamp()
}

fn create_test_metrics() -> Vec<Metric> {
    vec![
        // 2023-01-01 10:15:30
        Metric::new(10, timestamp(2023, 1, 1, 10, 15, 30), None),
        // 2023-01-01 10:30:45
        Metric::new(20, timestamp(2023, 1, 1, 10, 30, 45), None),
        // 2023-01-01 11:15:30
        Metric::new(5, timestamp(2023, 1, 1, 11, 15, 30), None),
        // 2023-01-01 11:45:00
        Metric::new(15, timestamp(2023, 1, 1, 11, 45, 0), None),
        // 2023-01-02 10:15:30
        Metric::new(40, timestamp(2023, 1, 2, 10, 15, 30), None),
        // 2023-01-02 10:45:30
        Metric::new(50, timestamp(2023, 1, 2, 10, 45, 30), None),
    ]
}

#[test]
fn test_pipeline_filter_and_aggregate() {
    let metrics = create_test_metrics();
    let mut pipeline = MetricPipeline::new(metrics);

    // Add filter for values > 15
    pipeline.filter("gt", 15).unwrap();

    // Add sum aggregation
    pipeline.aggregate("sum").unwrap();

    let result = pipeline.execute().unwrap();

    assert_eq!(result.len(), 1);
    assert_eq!(result[0].value, 110); // 20 + 40 + 50 = 110
}

#[test]
fn test_pipeline_filter_and_group_by_day() {
    let metrics = create_test_metrics();
    let mut pipeline = MetricPipeline::new(metrics);

    // Add filter for values > 10
    pipeline.filter("gt", 10).unwrap();

    // Add time grouping by day with sum aggregation
    pipeline.group_by_time("day", "sum").unwrap();

    let result = pipeline.execute().unwrap();

    // Should be grouped into 2 days (after filtering)
    assert_eq!(result.len(), 2);

    // Sort by timestamp to ensure consistent order
    let mut sorted_result = result.clone();
    sorted_result.sort_by_key(|m| m.timestamp);

    // First day: 2023-01-01 00:00:00 (only value > 10: 20 + 15 = 35)
    let day1_ts = timestamp(2023, 1, 1, 0, 0, 0);
    assert_eq!(sorted_result[0].timestamp, day1_ts);
    assert_eq!(sorted_result[0].value, 35);

    // Second day: 2023-01-02 00:00:00 (values > 10: 40 + 50 = 90)
    let day2_ts = timestamp(2023, 1, 2, 0, 0, 0);
    assert_eq!(sorted_result[1].timestamp, day2_ts);
    assert_eq!(sorted_result[1].value, 90);
}

#[test]
fn test_complex_pipeline() {
    let metrics = create_test_metrics();
    let mut pipeline = MetricPipeline::new(metrics);

    // First filter values > 10
    pipeline.filter("gt", 10).unwrap();

    // Group by hour with sum aggregation
    pipeline.group_by_time("hour", "sum").unwrap();

    // Then filter aggregated values > 30
    pipeline.filter("gt", 30).unwrap();

    let result = pipeline.execute().unwrap();

    // Should only include hours with sum > 30 (after initial filtering)
    assert_eq!(result.len(), 1);

    // Only the second day's 10:00 hour has a sum > 30 (40 + 50 = 90)
    let hour_ts = timestamp(2023, 1, 2, 10, 0, 0);
    assert_eq!(result[0].timestamp, hour_ts);
    assert_eq!(result[0].value, 90);
}

#[test]
fn test_end_to_end_two_days() {
    // six metrics across two UTC days, values [10,20,5,15,40,50];
    // filter gt 10, then group by day with sum: day one gives 35 (20+15),
    // day two gives 90 (40+50)
    let metrics = create_test_metrics();
    let mut pipeline = create_pipeline(metrics);
    pipeline.filter("gt", 10).unwrap();
    pipeline.group_by_time("day", "sum").unwrap();

    let mut result = pipeline.execute().unwrap();
    result.sort_by_key(|m| m.timestamp);

    assert_eq!(result.len(), 2);
    assert_eq!(result[0].timestamp, timestamp(2023, 1, 1, 0, 0, 0));
    assert_eq!(result[0].value, 35);
    assert_eq!(result[1].timestamp, timestamp(2023, 1, 2, 0, 0, 0));
    assert_eq!(result[1].value, 90);
}

#[test]
fn test_empty_pipeline_returns_input_unchanged() {
    let metrics = create_test_metrics();
    let pipeline = MetricPipeline::new(metrics.clone());
    let result = pipeline.execute().unwrap();
    assert_eq!(result.len(), metrics.len());
    for (got, expected) in result.iter().zip(metrics.iter()) {
        assert_eq!(got.value, expected.value);
        assert_eq!(got.timestamp, expected.timestamp);
        assert_eq!(got.label, expected.label);
    }
}

#[test]
fn test_execute_is_repeatable() {
    // execution always restarts from the originally stored metrics
    let metrics = create_test_metrics();
    let mut pipeline = MetricPipeline::new(metrics);
    pipeline.filter("gt", 15).unwrap();
    pipeline.aggregate("sum").unwrap();

    let first = pipeline.execute().unwrap();
    let second = pipeline.execute().unwrap();
    assert_eq!(first.len(), 1);
    assert_eq!(second.len(), 1);
    assert_eq!(first[0].value, second[0].value);
    assert_eq!(first[0].timestamp, second[0].timestamp);
}

#[test]
fn test_pipeline_matches_manual_composition() {
    // the pipeline behaves as the plain sequential composition of its steps
    let metrics = create_test_metrics();

    let mut pipeline = MetricPipeline::new(metrics.clone());
    pipeline.filter("gt", 10).unwrap();
    pipeline.group_by_time("day", "sum").unwrap();
    let mut piped = pipeline.execute().unwrap();
    piped.sort_by_key(|m| m.timestamp);

    let step1 = FilterTransformation::new(GreaterThanFilter::new(10));
    let mid = step1.apply(&metrics).unwrap();
    let step2 = TimeGroupingTransformation::new(DayGrouping, SumAggregation);
    let mut manual = step2.apply(&mid).unwrap();
    manual.sort_by_key(|m| m.timestamp);

    assert_eq!(piped.len(), manual.len());
    for (a, b) in piped.iter().zip(manual.iter()) {
        assert_eq!(a.value, b.value);
        assert_eq!(a.timestamp, b.timestamp);
    }
}

#[test]
fn test_unknown_names_fail_before_execution() {
    let metrics = create_test_metrics();
    let mut pipeline = MetricPipeline::new(metrics);
    assert!(matches!(
        pipeline.filter("between", 1),
        Err(MetricQueryError::InvalidFilter { .. })
    ));
    assert!(matches!(
        pipeline.aggregate("median"),
        Err(MetricQueryError::InvalidAggregation { .. })
    ));
    assert!(matches!(
        pipeline.group_by_time("week", "sum"),
        Err(MetricQueryError::InvalidTimeGrouping { .. })
    ));
    assert!(matches!(
        pipeline.group_by_time("day", "median"),
        Err(MetricQueryError::InvalidAggregation { .. })
    ));
    // the failed builder calls left no step behind
    let result = pipeline.execute().unwrap();
    assert_eq!(result.len(), 6);
}

#[test]
fn test_aggregate_step_on_empty_stream_fails() {
    let metrics: Vec<Metric> = Vec::new();
    let mut pipeline = MetricPipeline::new(metrics);
    pipeline.aggregate("sum").unwrap();
    assert!(matches!(
        pipeline.execute(),
        Err(MetricQueryError::EmptyMetricStream)
    ));
}

#[test]
fn test_first_failing_step_aborts_execution() {
    // the filter empties the stream, so the following aggregation fails and
    // no partial output is returned
    let metrics = create_test_metrics();
    let mut pipeline = MetricPipeline::new(metrics);
    pipeline.filter("gt", 1000).unwrap();
    pipeline.aggregate("sum").unwrap();
    pipeline.aggregate("max").unwrap();
    assert!(matches!(
        pipeline.execute(),
        Err(MetricQueryError::EmptyMetricStream)
    ));
}

#[test]
fn test_pipeline_filter_by_label() {
    let metrics = vec![
        Metric::new(1, 10, Some(String::from("cpu"))),
        Metric::new(2, 20, Some(String::from("memory"))),
        Metric::new(3, 30, None),
    ];
    let mut pipeline = MetricPipeline::new(metrics);
    pipeline
        .filter_by_label("label_eq", String::from("cpu"))
        .unwrap();
    let result = pipeline.execute().unwrap();
    assert_eq!(result.len(), 1);
    assert_eq!(result[0].value, 1);

    let mut other = MetricPipeline::new(Vec::new());
    assert!(matches!(
        other.filter_by_label("label_is", String::from("cpu")),
        Err(MetricQueryError::InvalidFilter { .. })
    ));
}

#[test]
fn test_pipeline_filter_by_labels() {
    let metrics = vec![
        Metric::new(1, 10, Some(String::from("cpu"))),
        Metric::new(2, 20, Some(String::from("memory"))),
        Metric::new(3, 30, Some(String::from("disk"))),
        Metric::new(4, 40, None),
    ];
    let mut pipeline = MetricPipeline::new(metrics);
    pipeline
        .filter_by_labels("label_in", vec![String::from("cpu"), String::from("disk")])
        .unwrap();
    let result = pipeline.execute().unwrap();
    assert_eq!(result.len(), 2);
    assert_eq!(result[0].value, 1);
    assert_eq!(result[1].value, 3);

    let mut other = MetricPipeline::new(Vec::new());
    assert!(matches!(
        other.filter_by_labels("label_eq", vec![String::from("cpu")]),
        Err(MetricQueryError::InvalidFilter { .. })
    ));
}

#[test]
fn test_pipeline_filter_rebinds_threshold() {
    // the threshold handed to the builder call is the one the step uses,
    // not the placeholder the catalog was initialized with
    let metrics = vec![Metric::new(-5, 0, None), Metric::new(5, 0, None)];
    let mut pipeline = MetricPipeline::new(metrics);
    pipeline.filter("gt", -10).unwrap();
    let result = pipeline.execute().unwrap();
    assert_eq!(result.len(), 2);
}
