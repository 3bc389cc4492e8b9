use gcm_exporter::{
    chunk_time_series, resolve_monitored_resource, AggregatedMetric, Attribute, DescriptorResolution,
    GCPMetricsExporter, GCPMetricsExporterConfig, LabelMap, Metric, MetricKind, MetricPayload,
    MonitoredResource, MonitoredResourceDataConfig, NumberDataPoint, NumericKind, Point,
    SampleValue, TimeInterval, TimeSeries, TypedValue, ValueType,
};

fn counter_metric(name: &str, points: Vec<NumberDataPoint>) -> AggregatedMetric {
    AggregatedMetric {
        name: name.to_string(),
        description: "foo".to_string(),
        unit: "myunit".to_string(),
        numeric_kind: NumericKind::Int64,
        payload: MetricPayload::Sum {
            is_monotonic: true,
            start_nanos: 5,
            end_nanos: 9,
            points,
        },
    }
}

fn int_point(v: i64) -> NumberDataPoint {
    NumberDataPoint {
        attributes: vec![Attribute { key: "int".to_string(), value: "123".to_string() }],
        value: SampleValue::Int64(v),
    }
}

#[test]
fn test_default_config() {
    let config = GCPMetricsExporterConfig::default();
    assert_eq!(config.prefix, "workload.googleapis.com");
    assert!(config.project_id.is_none());
    assert!(!config.add_unique_identifier);
    assert!(config.custom_monitored_resource_data.is_none());
}

#[test]
fn test_descriptor_cache_round_trip() {
    let mut exporter = GCPMetricsExporter::fake_new();
    let metric = counter_metric("mycounter", vec![int_point(45)]);
    let candidate = match exporter.prepare_descriptor(&metric) {
        DescriptorResolution::NeedsRegistration(d) => d,
        DescriptorResolution::Cached(_) => panic!("an empty cache cannot hit"),
    };
    assert_eq!(candidate.metric_type, "workload.googleapis.com/mycounter");
    assert_eq!(candidate.metric_kind, MetricKind::Cumulative);
    assert_eq!(candidate.value_type, ValueType::Int64);
    assert_eq!(candidate.label_keys, vec!["int".to_string()]);

    exporter.commit_descriptor(candidate);
    match exporter.prepare_descriptor(&metric) {
        DescriptorResolution::Cached(d) => {
            assert_eq!(d.metric_type, "workload.googleapis.com/mycounter");
            assert_eq!(d.display_name, "mycounter");
            assert_eq!(d.description, "foo");
            assert_eq!(d.unit, "myunit");
        }
        DescriptorResolution::NeedsRegistration(_) => {
            panic!("a committed descriptor must be served from the cache")
        }
    }
}

#[test]
fn test_duplicate_commit_is_idempotent() {
    let mut exporter = GCPMetricsExporter::fake_new();
    let metric = counter_metric("mycounter", vec![int_point(45)]);
    let first = match exporter.prepare_descriptor(&metric) {
        DescriptorResolution::NeedsRegistration(d) => d,
        DescriptorResolution::Cached(_) => panic!("an empty cache cannot hit"),
    };
    let second = gcm_exporter::clone_descriptor(&first);
    exporter.commit_descriptor(first);
    // a concurrent cycle lost the registration race and commits the same
    // descriptor again after the backend said it already exists
    exporter.commit_descriptor(second);
    match exporter.prepare_descriptor(&metric) {
        DescriptorResolution::Cached(d) => {
            assert_eq!(d.metric_type, "workload.googleapis.com/mycounter")
        }
        DescriptorResolution::NeedsRegistration(_) => panic!("the cache lost the descriptor"),
    }
}

#[test]
fn test_translate_metric_keeps_point_order() {
    let exporter = GCPMetricsExporter::fake_new();
    let metric = counter_metric("mycounter", vec![int_point(1), int_point(2), int_point(3)]);
    let descriptor = match exporter.prepare_descriptor(&metric) {
        DescriptorResolution::NeedsRegistration(d) => d,
        DescriptorResolution::Cached(_) => panic!("an empty cache cannot hit"),
    };
    let series = exporter.translate_metric(&metric, &descriptor, &None);
    assert_eq!(series.len(), 3);
    for (i, expected) in [1i64, 2, 3].iter().enumerate() {
        match series[i].points[0].value {
            TypedValue::Int64Value(v) => assert_eq!(v, *expected),
            ref other => panic!("expected an int64 value, got {:?}", other),
        }
    }
}

#[test]
fn test_translate_metric_drops_exponential_histograms() {
    let exporter = GCPMetricsExporter::fake_new();
    let metric = AggregatedMetric {
        name: "myexp".to_string(),
        description: String::new(),
        unit: String::new(),
        numeric_kind: NumericKind::Float64,
        payload: MetricPayload::ExponentialHistogram,
    };
    let descriptor = match exporter.prepare_descriptor(&metric) {
        DescriptorResolution::NeedsRegistration(d) => d,
        DescriptorResolution::Cached(_) => panic!("an empty cache cannot hit"),
    };
    // the shape still classifies for registration purposes
    assert_eq!(descriptor.metric_kind, MetricKind::Cumulative);
    assert_eq!(descriptor.value_type, ValueType::Distribution);
    // but no points are emitted
    let series = exporter.translate_metric(&metric, &descriptor, &None);
    assert!(series.is_empty());
}

#[test]
fn test_unique_identifier_registered_and_injected() {
    let mut config = GCPMetricsExporterConfig::default();
    config.add_unique_identifier = true;
    let exporter = GCPMetricsExporter::new(config);
    let metric = counter_metric("mycounter", vec![int_point(45)]);
    let descriptor = match exporter.prepare_descriptor(&metric) {
        DescriptorResolution::NeedsRegistration(d) => d,
        DescriptorResolution::Cached(_) => panic!("an empty cache cannot hit"),
    };
    assert_eq!(
        descriptor.label_keys,
        vec!["int".to_string(), "opentelemetry_id".to_string()]
    );
    let series = exporter.translate_metric(&metric, &descriptor, &None);
    let uid = series[0]
        .metric
        .labels
        .get_label(&"opentelemetry_id".to_string())
        .expect("the uniqueness tag must be present")
        .clone();
    assert_eq!(uid.len(), 8);
    assert!(uid.chars().all(|c| c.is_ascii_hexdigit()));
}

#[test]
fn test_effective_project_id() {
    let exporter = GCPMetricsExporter::fake_new();
    assert_eq!(exporter.effective_project_id("fake_project_id".to_string()), "fake_project_id");
    let mut config = GCPMetricsExporterConfig::default();
    config.project_id = Some("override".to_string());
    let exporter = GCPMetricsExporter::new(config);
    assert_eq!(exporter.effective_project_id("fake_project_id".to_string()), "override");
}

fn dummy_series(n: usize) -> Vec<TimeSeries> {
    (0..n)
        .map(|i| TimeSeries {
            resource: None,
            metric: Metric {
                metric_type: format!("workload.googleapis.com/m{}", i),
                labels: LabelMap::new(),
            },
            metric_kind: MetricKind::Gauge,
            value_type: ValueType::Int64,
            points: vec![Point {
                interval: TimeInterval { start_time: None, end_time: None },
                value: TypedValue::Int64Value(i as i64),
            }],
            unit: String::new(),
        })
        .collect()
}

#[test]
fn test_chunking_splits_at_200() {
    let chunks = chunk_time_series(dummy_series(450));
    assert_eq!(chunks.len(), 3);
    assert_eq!(chunks[0].len(), 200);
    assert_eq!(chunks[1].len(), 200);
    assert_eq!(chunks[2].len(), 50);
    // order preserved across the batch boundary
    match chunks[1][0].points[0].value {
        TypedValue::Int64Value(v) => assert_eq!(v, 200),
        ref other => panic!("expected an int64 value, got {:?}", other),
    }
}

#[test]
fn test_chunking_edge_sizes() {
    assert!(chunk_time_series(dummy_series(0)).is_empty());
    let exact = chunk_time_series(dummy_series(200));
    assert_eq!(exact.len(), 1);
    assert_eq!(exact[0].len(), 200);
    let one = chunk_time_series(dummy_series(1));
    assert_eq!(one.len(), 1);
    assert_eq!(one[0].len(), 1);
}

#[test]
fn test_custom_monitored_resource_overrides_detection() {
    let custom = Some(MonitoredResourceDataConfig {
        resource_type: "generic_node".to_string(),
        labels: vec![
            ("location".to_string(), "global".to_string()),
            ("namespace".to_string(), String::new()),
            ("node_id".to_string(), String::new()),
        ],
    });
    let detected = Some(MonitoredResource {
        resource_type: "k8s_container".to_string(),
        labels: LabelMap::new(),
    });
    let r = resolve_monitored_resource(&custom, detected).expect("override must be used");
    assert_eq!(r.resource_type, "generic_node");
    assert_eq!(r.labels.get_label(&"location".to_string()), Some(&"global".to_string()));
    assert_eq!(r.labels.get_label(&"namespace".to_string()), Some(&String::new()));
    assert_eq!(r.labels.label_count(), 3);
}

#[test]
fn test_detected_resource_used_without_override() {
    let detected = Some(MonitoredResource {
        resource_type: "k8s_container".to_string(),
        labels: LabelMap::new(),
    });
    let r = resolve_monitored_resource(&None, detected).expect("detected resource passes through");
    assert_eq!(r.resource_type, "k8s_container");
    assert!(resolve_monitored_resource(&None, None).is_none());
}
