use gcm_exporter::{
    build_descriptor, convert, gauge_convert_f64, gauge_convert_i64, sum_convert_f64,
    sum_convert_i64, AggregatedMetric, Attribute, DoubleBits, HistogramDataPoint, MetricKind,
    MetricPayload, NumberDataPoint, NumericKind, SampleValue, TypedValue, ValueType,
};

fn attrs() -> Vec<Attribute> {
    vec![
        Attribute { key: "string".to_string(), value: "string".to_string() },
        Attribute { key: "int".to_string(), value: "123".to_string() },
        Attribute { key: "float".to_string(), value: "123.4".to_string() },
    ]
}

fn bits(x: f64) -> DoubleBits {
    DoubleBits { bits: x.to_bits() }
}

fn histogram_metric(point: HistogramDataPoint) -> AggregatedMetric {
    AggregatedMetric {
        name: "myhistogram".to_string(),
        description: "foo".to_string(),
        unit: "myunit".to_string(),
        numeric_kind: NumericKind::Float64,
        payload: MetricPayload::Histogram {
            start_nanos: 1_723_249_032_929_246_000,
            end_nanos: 1_723_249_032_972_447_000,
            points: vec![point],
        },
    }
}

fn default_buckets_point() -> HistogramDataPoint {
    let bounds: Vec<DoubleBits> = [
        0.0, 5.0, 10.0, 25.0, 50.0, 75.0, 100.0, 250.0, 500.0, 750.0, 1000.0, 2500.0, 5000.0,
        7500.0, 10000.0,
    ]
    .iter()
    .map(|b| bits(*b))
    .collect();
    let bucket_counts: Vec<u64> =
        vec![1, 5, 5, 15, 25, 25, 25, 150, 250, 250, 250, 1500, 2500, 2500, 2499, 0];
    HistogramDataPoint {
        attributes: attrs(),
        count: 10_000,
        mean: bits(4999.5),
        bounds,
        bucket_counts,
    }
}

#[test]
fn test_histogram_default_buckets() {
    let point = default_buckets_point();
    let metric = histogram_metric(default_buckets_point());
    let descriptor = build_descriptor(&metric, "workload.googleapis.com", false);

    assert_eq!(descriptor.metric_type, "workload.googleapis.com/myhistogram");
    assert_eq!(descriptor.display_name, "myhistogram");
    assert_eq!(descriptor.description, "foo");
    assert_eq!(descriptor.unit, "myunit");
    assert_eq!(descriptor.metric_kind, MetricKind::Cumulative);
    assert_eq!(descriptor.value_type, ValueType::Distribution);
    let mut keys = descriptor.label_keys.clone();
    keys.sort();
    assert_eq!(keys, vec!["float".to_string(), "int".to_string(), "string".to_string()]);

    let ts = convert(
        &point,
        1_723_249_032_929_246_000,
        1_723_249_032_972_447_000,
        &descriptor,
        &None,
        false,
        "",
    );
    assert_eq!(ts.metric_kind, MetricKind::Cumulative);
    assert_eq!(ts.value_type, ValueType::Distribution);
    assert_eq!(ts.unit, "myunit");
    assert_eq!(ts.metric.metric_type, "workload.googleapis.com/myhistogram");
    assert_eq!(
        ts.metric.labels.get_label(&"string".to_string()),
        Some(&"string".to_string())
    );
    assert_eq!(ts.metric.labels.get_label(&"int".to_string()), Some(&"123".to_string()));
    assert_eq!(ts.metric.labels.get_label(&"float".to_string()), Some(&"123.4".to_string()));
    assert_eq!(ts.metric.labels.label_count(), 3);

    assert_eq!(ts.points.len(), 1);
    let p = &ts.points[0];
    let start = p.interval.start_time.expect("cumulative point has a start");
    let end = p.interval.end_time.expect("point has an end");
    assert_eq!(start.seconds, 1_723_249_032);
    assert_eq!(start.nanos, 929_246_000);
    assert_eq!(end.seconds, 1_723_249_032);
    assert_eq!(end.nanos, 972_447_000);
    match &p.value {
        TypedValue::DistributionValue(dist) => {
            assert_eq!(dist.count, 10_000);
            assert_eq!(f64::from_bits(dist.mean.bits), 4999.5);
            assert_eq!(f64::from_bits(dist.sum_of_squared_deviation.bits), 0.0);
            assert_eq!(dist.bounds.len(), 15);
            assert_eq!(f64::from_bits(dist.bounds[0].bits), 0.0);
            assert_eq!(f64::from_bits(dist.bounds[14].bits), 10000.0);
            assert_eq!(dist.bucket_counts.len(), 16);
            let total: i64 = dist.bucket_counts.iter().sum();
            assert_eq!(total, 10_000);
        }
        other => panic!("expected a distribution, got {:?}", other),
    }
}

#[test]
fn test_histogram_zero_count_has_zero_mean() {
    let point = HistogramDataPoint {
        attributes: vec![],
        count: 0,
        // a garbage quotient must be ignored when the count is zero
        mean: bits(f64::NAN),
        bounds: vec![bits(1.0)],
        bucket_counts: vec![0, 0],
    };
    let metric = histogram_metric(HistogramDataPoint {
        attributes: vec![],
        count: 0,
        mean: bits(f64::NAN),
        bounds: vec![bits(1.0)],
        bucket_counts: vec![0, 0],
    });
    let descriptor = build_descriptor(&metric, "workload.googleapis.com", false);
    let ts = convert(&point, 10, 20, &descriptor, &None, false, "");
    match &ts.points[0].value {
        TypedValue::DistributionValue(dist) => {
            assert_eq!(dist.mean.bits, 0u64);
            assert_eq!(f64::from_bits(dist.mean.bits), 0.0);
            assert!(!f64::from_bits(dist.mean.bits).is_nan());
            assert_eq!(dist.bucket_counts.len(), 2);
        }
        other => panic!("expected a distribution, got {:?}", other),
    }
}

fn gauge_descriptor() -> gcm_exporter::MetricDescriptor {
    let metric = AggregatedMetric {
        name: "mygauge".to_string(),
        description: String::new(),
        unit: String::new(),
        numeric_kind: NumericKind::Int64,
        payload: MetricPayload::Gauge { start_nanos: Some(5), end_nanos: 9, points: vec![] },
    };
    build_descriptor(&metric, "workload.googleapis.com", false)
}

fn cumulative_sum_descriptor(kind: NumericKind) -> gcm_exporter::MetricDescriptor {
    let metric = AggregatedMetric {
        name: "mycounter".to_string(),
        description: String::new(),
        unit: String::new(),
        numeric_kind: kind,
        payload: MetricPayload::Sum {
            is_monotonic: true,
            start_nanos: 5,
            end_nanos: 9,
            points: vec![],
        },
    };
    build_descriptor(&metric, "workload.googleapis.com", false)
}

#[test]
fn test_gauge_point_has_no_start_time() {
    let descriptor = gauge_descriptor();
    assert_eq!(descriptor.metric_kind, MetricKind::Gauge);
    let point = NumberDataPoint { attributes: vec![], value: SampleValue::Int64(7) };
    let ts = gauge_convert_i64(&point, Some(5), 9, &descriptor, &None, false, "");
    assert!(ts.points[0].interval.start_time.is_none());
    assert!(ts.points[0].interval.end_time.is_some());
    match ts.points[0].value {
        TypedValue::Int64Value(v) => assert_eq!(v, 7),
        ref other => panic!("expected an int64 value, got {:?}", other),
    }
}

#[test]
fn test_cumulative_point_has_both_interval_ends() {
    let descriptor = cumulative_sum_descriptor(NumericKind::Int64);
    assert_eq!(descriptor.metric_kind, MetricKind::Cumulative);
    assert_eq!(descriptor.value_type, ValueType::Int64);
    let point = NumberDataPoint { attributes: vec![], value: SampleValue::Int64(45) };
    let ts = sum_convert_i64(&point, 5, 9, &descriptor, &None, false, "");
    assert!(ts.points[0].interval.start_time.is_some());
    assert!(ts.points[0].interval.end_time.is_some());
}

#[test]
fn test_sum_u64_max_saturates_through_translation() {
    let descriptor = cumulative_sum_descriptor(NumericKind::UInt64);
    let point = NumberDataPoint { attributes: vec![], value: SampleValue::UInt64(u64::MAX) };
    let ts = sum_convert_i64(&point, 5, 9, &descriptor, &None, false, "");
    match ts.points[0].value {
        TypedValue::Int64Value(v) => assert_eq!(v, i64::MAX),
        ref other => panic!("expected an int64 value, got {:?}", other),
    }
}

#[test]
fn test_sum_f64_value_passes_through_as_bits() {
    let metric = AggregatedMetric {
        name: "myupdowncounter".to_string(),
        description: String::new(),
        unit: String::new(),
        numeric_kind: NumericKind::Float64,
        payload: MetricPayload::Sum {
            is_monotonic: false,
            start_nanos: 5,
            end_nanos: 9,
            points: vec![],
        },
    };
    let descriptor = build_descriptor(&metric, "workload.googleapis.com", false);
    // a non-monotonic sum registers as gauge kind with a double value type
    assert_eq!(descriptor.metric_kind, MetricKind::Gauge);
    assert_eq!(descriptor.value_type, ValueType::Double);
    let point = NumberDataPoint { attributes: vec![], value: SampleValue::Double(bits(45.0)) };
    let ts = sum_convert_f64(&point, 5, 9, &descriptor, &None, false, "");
    // gauge kind: instant, no start
    assert!(ts.points[0].interval.start_time.is_none());
    match ts.points[0].value {
        TypedValue::DoubleValue(b) => assert_eq!(f64::from_bits(b.bits), 45.0),
        ref other => panic!("expected a double value, got {:?}", other),
    }
}

#[test]
fn test_gauge_f64_value() {
    let metric = AggregatedMetric {
        name: "myobservablegauge".to_string(),
        description: String::new(),
        unit: String::new(),
        numeric_kind: NumericKind::Float64,
        payload: MetricPayload::Gauge { start_nanos: None, end_nanos: 9, points: vec![] },
    };
    let descriptor = build_descriptor(&metric, "workload.googleapis.com", false);
    let point = NumberDataPoint { attributes: vec![], value: SampleValue::Double(bits(123.4)) };
    let ts = gauge_convert_f64(&point, None, 9, &descriptor, &None, false, "");
    match ts.points[0].value {
        TypedValue::DoubleValue(b) => assert_eq!(f64::from_bits(b.bits), 123.4),
        ref other => panic!("expected a double value, got {:?}", other),
    }
}

#[test]
fn test_unique_identifier_label_injected() {
    let descriptor = cumulative_sum_descriptor(NumericKind::Int64);
    let point = NumberDataPoint {
        attributes: vec![Attribute { key: "k".to_string(), value: "v".to_string() }],
        value: SampleValue::Int64(1),
    };
    let ts = sum_convert_i64(&point, 5, 9, &descriptor, &None, true, "0badf00d");
    assert_eq!(
        ts.metric.labels.get_label(&"opentelemetry_id".to_string()),
        Some(&"0badf00d".to_string())
    );
    assert_eq!(ts.metric.labels.get_label(&"k".to_string()), Some(&"v".to_string()));
    assert_eq!(ts.metric.labels.label_count(), 2);
}

#[test]
fn test_invalid_label_key_normalized_in_series_and_descriptor() {
    let point = NumberDataPoint {
        attributes: vec![Attribute {
            key: "1some.invalid$\\key".to_string(),
            value: "value".to_string(),
        }],
        value: SampleValue::Int64(12),
    };
    let metric = AggregatedMetric {
        name: "mycounter".to_string(),
        description: "foo".to_string(),
        unit: "myunit".to_string(),
        numeric_kind: NumericKind::Int64,
        payload: MetricPayload::Sum {
            is_monotonic: true,
            start_nanos: 5,
            end_nanos: 9,
            points: vec![point],
        },
    };
    let descriptor = build_descriptor(&metric, "workload.googleapis.com", false);
    assert_eq!(descriptor.label_keys, vec!["key_1some_invalid__key".to_string()]);
    let point = NumberDataPoint {
        attributes: vec![Attribute {
            key: "1some.invalid$\\key".to_string(),
            value: "value".to_string(),
        }],
        value: SampleValue::Int64(12),
    };
    let ts = sum_convert_i64(&point, 5, 9, &descriptor, &None, false, "");
    assert_eq!(
        ts.metric.labels.get_label(&"key_1some_invalid__key".to_string()),
        Some(&"value".to_string())
    );
    assert_eq!(ts.metric.labels.get_label(&"1some.invalid$\\key".to_string()), None);
}

#[test]
fn test_duplicate_attribute_keys_collapse_to_last_value() {
    let descriptor = cumulative_sum_descriptor(NumericKind::Int64);
    let point = NumberDataPoint {
        attributes: vec![
            Attribute { key: "k!".to_string(), value: "first".to_string() },
            Attribute { key: "k?".to_string(), value: "second".to_string() },
        ],
        value: SampleValue::Int64(1),
    };
    // both keys normalize to "k_": the later value wins, as a map insert does
    let ts = sum_convert_i64(&point, 5, 9, &descriptor, &None, false, "");
    assert_eq!(ts.metric.labels.label_count(), 1);
    assert_eq!(ts.metric.labels.get_label(&"k_".to_string()), Some(&"second".to_string()));
}
