use gcm_exporter::{
    build_label_map, classify_metric, descriptor_type_of, get_data_points_attributes_keys,
    kv_map_k, kv_map_normalize_k_v, unique_identifier_key, AggregatedMetric, Attribute,
    MetricKind, MetricPayload, NumberDataPoint, NumericKind, SampleValue, ValueType,
};

fn point(keys: &[&str]) -> NumberDataPoint {
    NumberDataPoint {
        attributes: keys
            .iter()
            .map(|k| Attribute { key: k.to_string(), value: "v".to_string() })
            .collect(),
        value: SampleValue::Int64(0),
    }
}

#[test]
fn test_attribute_keys_deduplicated_in_first_occurrence_order() {
    let payload = MetricPayload::Sum {
        is_monotonic: true,
        start_nanos: 0,
        end_nanos: 1,
        points: vec![point(&["b", "a"]), point(&["a", "c"]), point(&["b"])],
    };
    let keys = get_data_points_attributes_keys(&payload);
    assert_eq!(keys, vec!["b".to_string(), "a".to_string(), "c".to_string()]);
}

#[test]
fn test_attribute_keys_of_exponential_histogram_are_empty() {
    let keys = get_data_points_attributes_keys(&MetricPayload::ExponentialHistogram);
    assert!(keys.is_empty());
}

#[test]
fn test_kv_mapping() {
    let kv = Attribute { key: "1bad.key".to_string(), value: "123.4".to_string() };
    let (k, v) = kv_map_normalize_k_v(&kv);
    assert_eq!(k, "key_1bad_key");
    assert_eq!(v, "123.4");
    assert_eq!(kv_map_k(&kv), "1bad.key");
}

#[test]
fn test_build_label_map_normalizes_and_tags() {
    let attrs = vec![
        Attribute { key: "good".to_string(), value: "1".to_string() },
        Attribute { key: "needs fix".to_string(), value: "2".to_string() },
    ];
    let m = build_label_map(&attrs, true, "cafe0123");
    assert_eq!(m.get_label(&"good".to_string()), Some(&"1".to_string()));
    assert_eq!(m.get_label(&"needs_fix".to_string()), Some(&"2".to_string()));
    assert_eq!(
        m.get_label(&unique_identifier_key().to_string()),
        Some(&"cafe0123".to_string())
    );
    assert_eq!(m.label_count(), 3);
}

#[test]
fn test_descriptor_type_of() {
    assert_eq!(
        descriptor_type_of("workload.googleapis.com", "myhistogram"),
        "workload.googleapis.com/myhistogram"
    );
}

#[test]
fn test_classification_table() {
    let mk = |kind: NumericKind, payload: MetricPayload| AggregatedMetric {
        name: "m".to_string(),
        description: String::new(),
        unit: String::new(),
        numeric_kind: kind,
        payload,
    };
    let sum = |mono: bool| MetricPayload::Sum {
        is_monotonic: mono,
        start_nanos: 0,
        end_nanos: 1,
        points: vec![],
    };
    let gauge = || MetricPayload::Gauge { start_nanos: None, end_nanos: 1, points: vec![] };

    assert_eq!(
        classify_metric(&mk(NumericKind::Int64, sum(true))),
        (MetricKind::Cumulative, ValueType::Int64)
    );
    assert_eq!(
        classify_metric(&mk(NumericKind::UInt64, sum(true))),
        (MetricKind::Cumulative, ValueType::Int64)
    );
    assert_eq!(
        classify_metric(&mk(NumericKind::Float64, sum(false))),
        (MetricKind::Gauge, ValueType::Double)
    );
    assert_eq!(
        classify_metric(&mk(NumericKind::Int64, gauge())),
        (MetricKind::Gauge, ValueType::Int64)
    );
    assert_eq!(
        classify_metric(&mk(NumericKind::Float64, gauge())),
        (MetricKind::Gauge, ValueType::Double)
    );
    assert_eq!(
        classify_metric(&mk(
            NumericKind::Float64,
            MetricPayload::Histogram { start_nanos: 0, end_nanos: 1, points: vec![] },
        )),
        (MetricKind::Cumulative, ValueType::Distribution)
    );
    assert_eq!(
        classify_metric(&mk(NumericKind::Float64, MetricPayload::ExponentialHistogram)),
        (MetricKind::Cumulative, ValueType::Distribution)
    );
}
