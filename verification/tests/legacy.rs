use chrono::{TimeZone, Utc};
use metric_query_library::errors::MetricQueryError;
use metric_query_library::models::metric::{LabeledMetric, Metric};
use metric_query_library::transformations::MetricPipeline;
use metric_query_library::{
    get_registry, transform, Aggregation, Filter, TimeGrouping, Transformation,
};

fn timestamp(year: i32, month: u32, day: u32, hour: u32, min: u32, sec: u32) -> i64 {
    Utc.with_ymd_and_hms(year, month, day, hour, min, sec)
        .unwrap()
        .timestamp()
}

fn create_test_metrics() -> Vec<Metric> {
    vec![
        Metric::new(10, timestamp(2023, 1, 1, 10, 15, 30), None),
        Metric::new(20, timestamp(2023, 1, 1, 10, 30, 45), None),
        Metric::new(5, timestamp(2023, 1, 1, 11, 15, 30), None),
        Metric::new(15, timestamp(2023, 1, 1, 11, 45, 0), None),
        Metric::new(40, timestamp(2023, 1, 2, 10, 15, 30), None),
        Metric::new(50, timestamp(2023, 1, 2, 10, 45, 30), None),
    ]
}

#[test]
fn test_legacy_kind_constructors() {
    assert!(matches!(
        Filter::new("gt", 7),
        Ok(Filter::GreaterThan { value: 7 })
    ));
    assert!(matches!(
        Filter::new("le", -3),
        Ok(Filter::LessThanOrEqual { value: -3 })
    ));
    assert!(matches!(
        Filter::new("between", 0),
        Err(MetricQueryError::InvalidFilter { .. })
    ));

    assert!(matches!(Aggregation::new("avg"), Ok(Aggregation::Avg)));
    assert!(matches!(
        Aggregation::new("median"),
        Err(MetricQueryError::InvalidAggregation { .. })
    ));

    assert!(matches!(TimeGrouping::new("day"), Ok(TimeGrouping::Day)));
    assert!(matches!(
        TimeGrouping::new("week"),
        Err(MetricQueryError::InvalidTimeGrouping { .. })
    ));
}

#[test]
fn test_transformation_record_starts_empty() {
    let t = Transformation::new();
    assert!(t.filter.is_none());
    assert!(t.aggregation.is_none());
    assert!(t.time_grouping.is_none());
}

#[test]
fn test_transform_matches_manual_pipeline() {
    // one record with a filter and a day grouping with sum must behave as
    // building and executing the equivalent pipeline by hand
    let metrics = create_test_metrics();
    let record = Transformation {
        filter: Some(Filter::GreaterThan { value: 10 }),
        aggregation: Some(Aggregation::Sum),
        time_grouping: Some(TimeGrouping::Day),
    };
    let mut via_records = transform(metrics.clone(), vec![record]).unwrap();
    via_records.sort_by_key(|m| m.timestamp);

    let mut pipeline = MetricPipeline::new(metrics);
    pipeline.filter("gt", 10).unwrap();
    pipeline.group_by_time("day", "sum").unwrap();
    let mut via_pipeline = pipeline.execute().unwrap();
    via_pipeline.sort_by_key(|m| m.timestamp);

    assert_eq!(via_records.len(), via_pipeline.len());
    for (a, b) in via_records.iter().zip(via_pipeline.iter()) {
        assert_eq!(a.value, b.value);
        assert_eq!(a.timestamp, b.timestamp);
    }
}

#[test]
fn test_transform_aggregation_only_record() {
    let metrics = create_test_metrics();
    let record = Transformation {
        filter: None,
        aggregation: Some(Aggregation::Max),
        time_grouping: None,
    };
    let result = transform(metrics.clone(), vec![record]).unwrap();
    assert_eq!(result.len(), 1);
    assert_eq!(result[0].value, 50);
    // the single output metric carries the first input's timestamp
    assert_eq!(result[0].timestamp, metrics[0].timestamp);
}

#[test]
fn test_transform_with_no_records_copies_input() {
    let metrics = create_test_metrics();
    let result = transform(metrics.clone(), Vec::new()).unwrap();
    assert_eq!(result.len(), metrics.len());
    for (got, expected) in result.iter().zip(metrics.iter()) {
        assert_eq!(got.value, expected.value);
        assert_eq!(got.timestamp, expected.timestamp);
    }
}

#[test]
fn test_transform_empty_stream_aggregation_fails() {
    let record = Transformation {
        filter: None,
        aggregation: Some(Aggregation::Sum),
        time_grouping: None,
    };
    assert!(matches!(
        transform(Vec::new(), vec![record]),
        Err(MetricQueryError::EmptyMetricStream)
    ));
}

#[test]
fn test_registry_lists_builtin_plugins() {
    let registry = get_registry();
    for name in ["gt", "lt", "ge", "le", "eq", "label_eq", "label_in"] {
        assert!(registry.has_filter(name), "missing filter {}", name);
    }
    for name in ["sum", "avg", "min", "max"] {
        assert!(registry.has_aggregation(name), "missing aggregation {}", name);
    }
    for name in ["hour", "minute", "day"] {
        assert!(
            registry.has_time_grouping(name),
            "missing time grouping {}",
            name
        );
    }
    assert!(!registry.has_filter("between"));
    assert!(!registry.has_aggregation("median"));
    assert!(!registry.has_time_grouping("week"));
}

#[test]
fn test_labeled_metric_holds_its_fields() {
    let m = LabeledMetric::new(String::from("cpu"), 7, 1234);
    assert_eq!(m.label, "cpu");
    assert_eq!(m.value, 7);
    assert_eq!(m.timestamp, 1234);
}
