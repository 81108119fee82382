use chrono::{TimeZone, Utc};
use metric_query_library::errors::MetricQueryError;
use metric_query_library::models::metric::Metric;
use metric_query_library::plugin_impls::{
    create_time_grouping, DayGrouping, HourGrouping, MinuteGrouping, SumAggregation,
    MAX_UTC_TIMESTAMP, MIN_UTC_TIMESTAMP,
};
use metric_query_library::plugins::TimeGroupingPlugin;
use metric_query_library::transformations::{TimeGroupingTransformation, TransformationStrategy};

fn timestamp(year: i32, month: u32, day: u32, hour: u32, min: u32, sec: u32) -> i64 {
    Utc.with_ymd_and_hms(year, month, day, hour, min, sec)
        .unwrap()
        .timestamp()
}

fn create_test_metrics() -> Vec<Metric> {
    vec![
        // 2023-01-01 10:15:30
        Metric::new(10, timestamp(2023, 1, 1, 10, 15, 30), None),
        // 2023-01-01 10:30:45
        Metric::new(20, timestamp(2023, 1, 1, 10, 30, 45), None),
        // 2023-01-01 11:15:30
        Metric::new(30, timestamp(2023, 1, 1, 11, 15, 30), None),
        // 2023-01-02 10:15:30
        Metric::new(40, timestamp(2023, 1, 2, 10, 15, 30), None),
    ]
}

#[test]
fn test_hour_grouping() {
    let metrics = create_test_metrics();
    let time_grouping = HourGrouping;
    let aggregation = SumAggregation;
    let transformer = TimeGroupingTransformation::new(time_grouping, aggregation);

    let result = transformer.apply(&metrics).unwrap();

    // Should be grouped into 3 hours
    assert_eq!(result.len(), 3);

    // Sort by timestamp to ensure consistent order
    let mut sorted_result = result.clone();
    sorted_result.sort_by_key(|m| m.timestamp);

    // First hour: 2023-01-01 10:00:00 (two metrics: 10 + 20 = 30)
    let hour1_ts = timestamp(2023, 1, 1, 10, 0, 0);
    assert_eq!(sorted_result[0].timestamp, hour1_ts);
    assert_eq!(sorted_result[0].value, 30);

    // Second hour: 2023-01-01 11:00:00 (one metric: 30)
    let hour2_ts = timestamp(2023, 1, 1, 11, 0, 0);
    assert_eq!(sorted_result[1].timestamp, hour2_ts);
    assert_eq!(sorted_result[1].value, 30);

    // Third hour: 2023-01-02 10:00:00 (one metric: 40)
    let hour3_ts = timestamp(2023, 1, 2, 10, 0, 0);
    assert_eq!(sorted_result[2].timestamp, hour3_ts);
    assert_eq!(sorted_result[2].value, 40);
}

#[test]
fn test_day_grouping() {
    let metrics = create_test_metrics();
    let time_grouping = DayGrouping;
    let aggregation = SumAggregation;
    let transformer = TimeGroupingTransformation::new(time_grouping, aggregation);

    let result = transformer.apply(&metrics).unwrap();

    // Should be grouped into 2 days
    assert_eq!(result.len(), 2);

    // Sort by timestamp to ensure consistent order
    let mut sorted_result = result.clone();
    sorted_result.sort_by_key(|m| m.timestamp);

    // First day: 2023-01-01 00:00:00 (three metrics: 10 + 20 + 30 = 60)
    let day1_ts = timestamp(2023, 1, 1, 0, 0, 0);
    assert_eq!(sorted_result[0].timestamp, day1_ts);
    assert_eq!(sorted_result[0].value, 60);

    // Second day: 2023-01-02 00:00:00 (one metric: 40)
    let day2_ts = timestamp(2023, 1, 2, 0, 0, 0);
    assert_eq!(sorted_result[1].timestamp, day2_ts);
    assert_eq!(sorted_result[1].value, 40);
}

#[test]
fn test_time_grouping_factory() {
    let metrics = create_test_metrics();
    let aggregation = SumAggregation;

    let hour_group = create_time_grouping("hour").unwrap();
    let hour_transformer = TimeGroupingTransformation::new(hour_group, aggregation.clone());
    let hour_result = hour_transformer.apply(&metrics).unwrap();
    assert_eq!(hour_result.len(), 3);

    let day_group = create_time_grouping("day").unwrap();
    let day_transformer = TimeGroupingTransformation::new(day_group, aggregation);
    let day_result = day_transformer.apply(&metrics).unwrap();
    assert_eq!(day_result.len(), 2);
}

#[test]
fn test_hour_bucket_boundaries() {
    // metrics at 10:15:30 and 10:30:45 both map to hour bucket 10:00:00,
    // while 11:15:30 maps to a distinct bucket
    let hour = HourGrouping;
    let bucket1 = hour
        .get_group_timestamp(timestamp(2023, 1, 1, 10, 15, 30))
        .unwrap();
    let bucket2 = hour
        .get_group_timestamp(timestamp(2023, 1, 1, 10, 30, 45))
        .unwrap();
    let bucket3 = hour
        .get_group_timestamp(timestamp(2023, 1, 1, 11, 15, 30))
        .unwrap();
    assert_eq!(bucket1, timestamp(2023, 1, 1, 10, 0, 0));
    assert_eq!(bucket2, bucket1);
    assert_ne!(bucket3, bucket1);
    assert_eq!(bucket3, timestamp(2023, 1, 1, 11, 0, 0));
}

#[test]
fn test_day_bucket_collapses_same_day() {
    // day grouping maps all three same-day instants to midnight
    let day = DayGrouping;
    let midnight = timestamp(2023, 1, 1, 0, 0, 0);
    for ts in [
        timestamp(2023, 1, 1, 10, 15, 30),
        timestamp(2023, 1, 1, 10, 30, 45),
        timestamp(2023, 1, 1, 11, 15, 30),
    ] {
        assert_eq!(day.get_group_timestamp(ts).unwrap(), midnight);
    }
}

#[test]
fn test_minute_grouping_zeroes_seconds() {
    let minute = MinuteGrouping;
    let bucket = minute
        .get_group_timestamp(timestamp(2023, 1, 1, 10, 15, 30))
        .unwrap();
    assert_eq!(bucket, timestamp(2023, 1, 1, 10, 15, 0));
}

#[test]
fn test_grouping_handles_negative_timestamps() {
    // 1969-12-31 23:59:59 belongs to the day starting 1969-12-31 00:00:00
    let day = DayGrouping;
    let bucket = day.get_group_timestamp(-1).unwrap();
    assert_eq!(bucket, timestamp(1969, 12, 31, 0, 0, 0));
}

#[test]
fn test_out_of_range_timestamp_is_rejected() {
    let hour = HourGrouping;
    assert!(matches!(
        hour.get_group_timestamp(i64::MAX),
        Err(MetricQueryError::InvalidTimeGrouping { .. })
    ));
    assert!(matches!(
        hour.get_group_timestamp(MAX_UTC_TIMESTAMP + 1),
        Err(MetricQueryError::InvalidTimeGrouping { .. })
    ));
    assert!(matches!(
        hour.get_group_timestamp(MIN_UTC_TIMESTAMP - 1),
        Err(MetricQueryError::InvalidTimeGrouping { .. })
    ));
    // the extreme representable instants are still accepted
    assert!(hour.get_group_timestamp(MAX_UTC_TIMESTAMP).is_ok());
    assert!(hour.get_group_timestamp(MIN_UTC_TIMESTAMP).is_ok());
}

#[test]
fn test_group_strategy_rejects_invalid_timestamp() {
    let metrics = vec![Metric::new(1, MAX_UTC_TIMESTAMP + 1, None)];
    let transformer = TimeGroupingTransformation::new(HourGrouping, SumAggregation);
    assert!(matches!(
        transformer.apply(&metrics),
        Err(MetricQueryError::InvalidTimeGrouping { .. })
    ));
}

#[test]
fn test_group_strategy_fails_on_empty_input() {
    let metrics: Vec<Metric> = Vec::new();
    let transformer = TimeGroupingTransformation::new(HourGrouping, SumAggregation);
    assert!(matches!(
        transformer.apply(&metrics),
        Err(MetricQueryError::EmptyMetricStream)
    ));
}

#[test]
fn test_grouped_output_drops_labels() {
    let metrics = vec![
        Metric::new(1, timestamp(2023, 1, 1, 10, 0, 0), Some(String::from("cpu"))),
        Metric::new(2, timestamp(2023, 1, 1, 10, 30, 0), Some(String::from("memory"))),
    ];
    let transformer = TimeGroupingTransformation::new(HourGrouping, SumAggregation);
    let result = transformer.apply(&metrics).unwrap();
    assert_eq!(result.len(), 1);
    assert_eq!(result[0].value, 3);
    assert!(result[0].label.is_none());
}

#[test]
fn test_unknown_time_grouping_kind_is_invalid() {
    let err = create_time_grouping("week").unwrap_err();
    assert!(matches!(err, MetricQueryError::InvalidTimeGrouping { .. }));
}
