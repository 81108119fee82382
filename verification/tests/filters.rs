use metric_query_library::models::metric::Metric;
use metric_query_library::plugin_impls::{
    create_filter, create_label_filter, create_label_in_filter, EqualFilter, GreaterThanFilter,
    LabelFilter, LabelInFilter, LessThanFilter,
};
use metric_query_library::plugins::FilterPlugin;
use metric_query_library::transformations::{FilterTransformation, TransformationStrategy};

fn create_test_metrics() -> Vec<Metric> {
    vec![
        Metric::new(10, 1000, None),
        Metric::new(20, 2000, None),
        Metric::new(30, 3000, None),
        Metric::new(15, 4000, None),
        Metric::new(25, 5000, None),
    ]
}

#[test]
fn test_greater_than_filter() {
    let metrics = create_test_metrics();
    let filter = GreaterThanFilter::new(20);
    let transformer = FilterTransformation::new(filter);

    let result = transformer.apply(&metrics).unwrap();

    assert_eq!(result.len(), 2);
    assert_eq!(result[0].value, 30);
    assert_eq!(result[1].value, 25);
}

#[test]
fn test_equal_filter() {
    let metrics = create_test_metrics();
    let filter = EqualFilter::new(20);
    let transformer = FilterTransformation::new(filter);

    let result = transformer.apply(&metrics).unwrap();

    assert_eq!(result.len(), 1);
    assert_eq!(result[0].value, 20);
}

#[test]
fn test_filter_factory() {
    let metrics = create_test_metrics();

    let gt_filter = create_filter("gt", 15).unwrap();
    let gt_transformer = FilterTransformation::new(gt_filter);
    let gt_result = gt_transformer.apply(&metrics).unwrap();
    assert_eq!(gt_result.len(), 3);

    let lt_filter = create_filter("lt", 20).unwrap();
    let lt_transformer = FilterTransformation::new(lt_filter);
    let lt_result = lt_transformer.apply(&metrics).unwrap();
    assert_eq!(lt_result.len(), 2);

    let eq_filter = create_filter("eq", 15).unwrap();
    let eq_transformer = FilterTransformation::new(eq_filter);
    let eq_result = eq_transformer.apply(&metrics).unwrap();
    assert_eq!(eq_result.len(), 1);
}

#[test]
fn test_filter_preserves_order_and_fields() {
    // input values (10,t1),(20,t2),(30,t3),(15,t4),(25,t5) with gt 20
    // keeps (30,t3) then (25,t5), every field unchanged
    let metrics = create_test_metrics();
    let transformer = FilterTransformation::new(GreaterThanFilter::new(20));
    let result = transformer.apply(&metrics).unwrap();

    assert_eq!(result.len(), 2);
    assert_eq!(result[0].value, 30);
    assert_eq!(result[0].timestamp, 3000);
    assert!(result[0].label.is_none());
    assert_eq!(result[1].value, 25);
    assert_eq!(result[1].timestamp, 5000);
    assert!(result[1].label.is_none());
}

#[test]
fn test_filter_never_fails_on_empty_input() {
    let metrics: Vec<Metric> = Vec::new();
    let transformer = FilterTransformation::new(LessThanFilter::new(100));
    let result = transformer.apply(&metrics).unwrap();
    assert_eq!(result.len(), 0);
}

#[test]
fn test_ge_and_le_filters() {
    let metrics = create_test_metrics();

    let ge_filter = create_filter("ge", 20).unwrap();
    let ge_result = FilterTransformation::new(ge_filter).apply(&metrics).unwrap();
    assert_eq!(ge_result.len(), 3); // 20, 30, 25

    let le_filter = create_filter("le", 20).unwrap();
    let le_result = FilterTransformation::new(le_filter).apply(&metrics).unwrap();
    assert_eq!(le_result.len(), 3); // 10, 20, 15
}

#[test]
fn test_unknown_filter_kind_is_invalid() {
    let err = create_filter("between", 7).unwrap_err();
    assert!(matches!(
        err,
        metric_query_library::errors::MetricQueryError::InvalidFilter { .. }
    ));
}

#[test]
fn test_label_eq_filter_semantics() {
    let filter = LabelFilter::new(String::from("cpu"));
    let labeled = Metric::new(1, 0, Some(String::from("cpu")));
    let other = Metric::new(1, 0, Some(String::from("memory")));
    let unlabeled = Metric::new(1, 0, None);

    assert!(filter.apply(&labeled));
    assert!(!filter.apply(&other));
    // an absent label never matches, whatever the target
    assert!(!filter.apply(&unlabeled));
}

#[test]
fn test_empty_label_vs_absent_label() {
    // an empty-string label matches only an empty-string target; an absent
    // label matches nothing, including an empty-string target
    let empty_target = LabelFilter::new(String::new());
    let cpu_target = LabelFilter::new(String::from("cpu"));
    let empty_labeled = Metric::new(1, 0, Some(String::new()));
    let unlabeled = Metric::new(1, 0, None);

    assert!(empty_target.apply(&empty_labeled));
    assert!(!cpu_target.apply(&empty_labeled));
    assert!(!empty_target.apply(&unlabeled));

    let in_filter = LabelInFilter::new(vec![String::new(), String::from("cpu")]);
    assert!(in_filter.apply(&empty_labeled));
    assert!(!in_filter.apply(&unlabeled));
}

#[test]
fn test_label_in_filter() {
    let filter = LabelInFilter::new(vec![String::from("cpu"), String::from("memory")]);
    assert!(filter.apply(&Metric::new(1, 0, Some(String::from("cpu")))));
    assert!(filter.apply(&Metric::new(1, 0, Some(String::from("memory")))));
    assert!(!filter.apply(&Metric::new(1, 0, Some(String::from("disk")))));
    assert!(!filter.apply(&Metric::new(1, 0, None)));
}

#[test]
fn test_label_filter_factories() {
    let eq = create_label_filter("label_eq", String::from("cpu")).unwrap();
    assert_eq!(eq.name(), "label_eq");
    assert!(create_label_filter("label_neq", String::from("cpu")).is_err());

    let inf = create_label_in_filter("label_in", vec![String::from("cpu")]).unwrap();
    assert_eq!(inf.name(), "label_in");
    assert!(create_label_in_filter("label_eq", vec![String::from("cpu")]).is_err());
}
