//! The export orchestrator's state and its pure steps: descriptor
//! resolution against the process-lifetime cache, per-metric translation,
//! and batching.  The network calls themselves, and the async loop that
//! drives them, live outside the library; they consume these steps and the
//! retry policy of [`crate::retry`].

use vstd::prelude::*;
use crate::kvlist::{
    entries_map, lemma_entries_map_contains, lemma_entries_map_index, lemma_entries_map_remove,
    unique_entry_keys,
};
use crate::labels::{normalize_label_key, spec_normalize};
use crate::model::{
    AggregatedMetric, MetricPayload, NumericKind, get_data_points_attributes_keys,
    spec_payload_keys,
};
use crate::translate::{
    convert, gauge_convert_f64, gauge_convert_i64, histogram_series_ok, number_series_i64_ok,
    number_series_f64_ok, sum_convert_f64, sum_convert_i64, unique_identifier_key,
};
use crate::wire::{LabelMap, MetricDescriptor, MetricKind, MonitoredResource, TimeSeries, ValueType};

verus! {

/// A static monitored-resource override: when configured, it replaces
/// resource auto-detection for every time series of an export cycle.
#[derive(Debug)]
pub struct MonitoredResourceDataConfig {
    pub resource_type: String,
    /// Label key/value pairs; a repeated key keeps its last value.
    pub labels: Vec<(String, String)>,
}

/// Construction-time configuration of the exporter.
#[derive(Debug)]
pub struct GCPMetricsExporterConfig {
    /// The metric-type prefix; `workload.googleapis.com` by default.
    pub prefix: String,
    /// Overrides the authorizer-provided project id when set.
    pub project_id: Option<String>,
    /// Injects a process-random disambiguating label into every series.
    /// Needed when several exporters may write the same metric name within
    /// the backend's write interval.
    pub add_unique_identifier: bool,
    /// When set, replaces resource auto-detection entirely.
    pub custom_monitored_resource_data: Option<MonitoredResourceDataConfig>,
}

impl Default for GCPMetricsExporterConfig {
    fn default() -> (r: Self)
        ensures
            r.prefix@ == "workload.googleapis.com"@,
            r.project_id is None,
            !r.add_unique_identifier,
            r.custom_monitored_resource_data is None,
    {
        GCPMetricsExporterConfig {
            prefix: String::from_str("workload.googleapis.com"),
            project_id: None,
            add_unique_identifier: false,
            custom_monitored_resource_data: None,
        }
    }
}

/// The descriptor cache: metric-type string to registered descriptor.
/// Unbounded and never invalidated; it lives as long as the exporter.
/// Known limitation: a metric whose emitted attribute-key set grows after
/// its first registration keeps its original descriptor, and the backend
/// will reject later points that carry undeclared label keys.
#[derive(Debug)]
pub struct DescriptorCache {
    entries: Vec<(String, MetricDescriptor)>,
}

impl View for DescriptorCache {
    type V = Map<Seq<char>, MetricDescriptor>;

    closed spec fn view(&self) -> Map<Seq<char>, MetricDescriptor> {
        entries_map(self.entries@)
    }
}

/// Two descriptors carry the same registration data.
pub open spec fn descriptor_matches(a: &MetricDescriptor, b: &MetricDescriptor) -> bool {
    &&& a.metric_type@ == b.metric_type@
    &&& a.display_name@ == b.display_name@
    &&& a.description@ == b.description@
    &&& a.unit@ == b.unit@
    &&& a.label_keys.deep_view() == b.label_keys.deep_view()
    &&& a.metric_kind == b.metric_kind
    &&& a.value_type == b.value_type
}

/// A field-preserving copy of a descriptor.
pub fn clone_descriptor(d: &MetricDescriptor) -> (c: MetricDescriptor)
    ensures
        descriptor_matches(d, &c),
{
    let mut label_keys: Vec<String> = Vec::new();
    let n = d.label_keys.len();
    let mut i: usize = 0;
    while i < n
        invariant
            n == d.label_keys@.len(),
            i <= n,
            label_keys.deep_view() == d.label_keys.deep_view().take(i as int),
        decreases n - i,
    {
        let ghost prev = label_keys.deep_view();
        let item = d.label_keys[i].clone();
        label_keys.push(item);
        proof {
            assert(label_keys.deep_view() =~= prev.push(d.label_keys@[i as int]@));
            assert(d.label_keys.deep_view()[i as int] == d.label_keys@[i as int]@);
            assert(d.label_keys.deep_view().take(i as int + 1) =~= d.label_keys.deep_view().take(
                i as int,
            ).push(d.label_keys.deep_view()[i as int]));
        }
        i = i + 1;
    }
    proof {
        assert(d.label_keys.deep_view().take(n as int) =~= d.label_keys.deep_view());
    }
    MetricDescriptor {
        metric_type: d.metric_type.clone(),
        display_name: d.display_name.clone(),
        description: d.description.clone(),
        unit: d.unit.clone(),
        label_keys,
        metric_kind: d.metric_kind,
        value_type: d.value_type,
    }
}

impl DescriptorCache {
    pub closed spec fn wf(&self) -> bool {
        unique_entry_keys(self.entries@)
    }

    pub fn new() -> (r: DescriptorCache)
        ensures
            r.wf(),
            r@ == Map::<Seq<char>, MetricDescriptor>::empty(),
    {
        DescriptorCache { entries: Vec::new() }
    }

    /// A copy of the cached descriptor for `metric_type`, if any.
    pub fn lookup(&self, metric_type: &String) -> (r: Option<MetricDescriptor>)
        requires
            self.wf(),
        ensures
            match r {
                Some(d) => self@.contains_key(metric_type@) && descriptor_matches(
                    &self@[metric_type@],
                    &d,
                ),
                None => !self@.contains_key(metric_type@),
            },
    {
        let n = self.entries.len();
        let mut i: usize = 0;
        while i < n
            invariant
                n == self.entries@.len(),
                i <= n,
                self.wf(),
                forall|j: int| 0 <= j < i ==> self.entries@[j].0@ != metric_type@,
            decreases n - i,
        {
            if self.entries[i].0 == *metric_type {
                proof {
                    lemma_entries_map_index(self.entries@, i as int);
                }
                return Some(clone_descriptor(&self.entries[i].1));
            }
            i = i + 1;
        }
        proof {
            lemma_entries_map_contains(self.entries@, metric_type@);
        }
        None
    }

    /// Binds `metric_type` to `d`.  Re-inserting an existing key replaces
    /// its descriptor, so a duplicate registration is harmless.
    pub fn insert(&mut self, metric_type: String, d: MetricDescriptor)
        requires
            old(self).wf(),
        ensures
            final(self).wf(),
            final(self)@ == old(self)@.insert(metric_type@, d),
    {
        let ghost orig = self.entries@;
        let n = self.entries.len();
        let mut i: usize = 0;
        let mut found = false;
        while i < n && !found
            invariant
                self.entries@ == orig,
                n == orig.len(),
                i <= n,
                !found ==> forall|j: int| 0 <= j < i ==> orig[j].0@ != metric_type@,
                found ==> i < n && orig[i as int].0@ == metric_type@,
            decreases n - i + (if found { 0int } else { 1int }),
        {
            if self.entries[i].0 == metric_type {
                found = true;
            } else {
                i = i + 1;
            }
        }
        if found {
            self.entries.remove(i);
            proof {
                lemma_entries_map_remove(orig, i as int);
            }
        } else {
            proof {
                lemma_entries_map_contains(orig, metric_type@);
                assert(!entries_map(orig).contains_key(metric_type@));
                assert(entries_map(orig).remove(metric_type@) =~= entries_map(orig));
            }
        }
        let ghost trimmed = self.entries@;
        self.entries.push((metric_type, d));
        proof {
            assert(self.entries@.drop_last() =~= trimmed);
            assert(entries_map(trimmed) =~= entries_map(orig).remove(
                self.entries@.last().0@,
            ));
            assert(entries_map(orig).remove(self.entries@.last().0@).insert(
                self.entries@.last().0@,
                self.entries@.last().1,
            ) =~= entries_map(orig).insert(self.entries@.last().0@, self.entries@.last().1));
            assert forall|x: int, y: int|
                #![trigger self.entries@[x].0@, self.entries@[y].0@]
                0 <= x < y < self.entries@.len() implies self.entries@[x].0@
                != self.entries@[y].0@ by {
                if found {
                    if y < self.entries@.len() - 1 {
                        assert(self.entries@[x] == orig.remove(i as int)[x]);
                        assert(self.entries@[y] == orig.remove(i as int)[y]);
                    } else {
                        assert(self.entries@[x] == orig.remove(i as int)[x]);
                        if x < i {
                            assert(orig.remove(i as int)[x] == orig[x]);
                            assert(orig[x].0@ != orig[i as int].0@);
                        } else {
                            assert(orig.remove(i as int)[x] == orig[x + 1]);
                            assert(orig[x + 1].0@ != orig[i as int].0@);
                        }
                    }
                } else {
                    if y < self.entries@.len() - 1 {
                    } else {
                        assert(self.entries@[x] == orig[x]);
                        assert(orig[x].0@ != metric_type@);
                    }
                }
            }
        }
    }
}

/// Registering the same descriptor twice leaves the cache exactly as one
/// registration does: duplicate first-registrations are idempotent.
pub proof fn lemma_descriptor_registration_idempotent(
    cache: Map<Seq<char>, MetricDescriptor>,
    metric_type: Seq<char>,
    d: MetricDescriptor,
)
    ensures
        cache.insert(metric_type, d).insert(metric_type, d) =~= cache.insert(metric_type, d),
{
}

/// The backend-registered metric kind for a payload shape: histograms are
/// cumulative; sums are cumulative when monotonic and gauge otherwise;
/// gauges are gauge.
pub open spec fn spec_metric_kind(p: &MetricPayload) -> MetricKind {
    match *p {
        MetricPayload::Histogram { .. } => MetricKind::Cumulative,
        MetricPayload::ExponentialHistogram => MetricKind::Cumulative,
        MetricPayload::Sum { is_monotonic, .. } => if is_monotonic {
            MetricKind::Cumulative
        } else {
            MetricKind::Gauge
        },
        MetricPayload::Gauge { .. } => MetricKind::Gauge,
    }
}

/// The backend value type: distribution for histogram shapes, double for
/// float64 payloads, int64 otherwise.
pub open spec fn spec_value_type(kind: NumericKind, p: &MetricPayload) -> ValueType {
    match *p {
        MetricPayload::Histogram { .. } => ValueType::Distribution,
        MetricPayload::ExponentialHistogram => ValueType::Distribution,
        _ => if kind is Float64 {
            ValueType::Double
        } else {
            ValueType::Int64
        },
    }
}

/// The label keys registered for a metric: the normalized forms of every
/// raw attribute key seen across its current data points, plus the
/// uniqueness-tag key when enabled.
pub open spec fn spec_descriptor_label_keys(p: &MetricPayload, add_uid: bool) -> Seq<Seq<char>> {
    let base = spec_payload_keys(p).map_values(|k: Seq<char>| spec_normalize(k));
    if add_uid {
        base.push("opentelemetry_id"@)
    } else {
        base
    }
}

/// The cache key and wire type string of a metric: `{prefix}/{name}`.
pub open spec fn spec_descriptor_type(prefix: Seq<char>, name: Seq<char>) -> Seq<char> {
    prefix + "/"@ + name
}

/// Builds `{prefix}/{name}`.
pub fn descriptor_type_of(prefix: &str, name: &str) -> (r: String)
    ensures
        r@ == spec_descriptor_type(prefix@, name@),
{
    let mut r = String::from_str(prefix);
    r.append("/");
    r.append(name);
    r
}

/// What a freshly built candidate descriptor holds of its metric.
pub open spec fn descriptor_of_metric(
    d: &MetricDescriptor,
    metric: &AggregatedMetric,
    prefix: Seq<char>,
    add_uid: bool,
) -> bool {
    &&& d.metric_type@ == spec_descriptor_type(prefix, metric.name@)
    &&& d.display_name@ == metric.name@
    &&& d.description@ == metric.description@
    &&& d.unit@ == metric.unit@
    &&& d.label_keys.deep_view() == spec_descriptor_label_keys(&metric.payload, add_uid)
    &&& d.metric_kind == spec_metric_kind(&metric.payload)
    &&& d.value_type == spec_value_type(metric.numeric_kind, &metric.payload)
}

/// Builds the candidate descriptor for one metric: type string, display
/// data, the union of attribute keys across its data points (normalized),
/// the optional uniqueness-tag key, and the kind/value-type classification.
pub fn build_descriptor(metric: &AggregatedMetric, prefix: &str, add_unique_identifier: bool) -> (d:
    MetricDescriptor)
    ensures
        descriptor_of_metric(&d, metric, prefix@, add_unique_identifier),
{
    let metric_type = descriptor_type_of(prefix, metric.name.as_str());
    let raw_keys = get_data_points_attributes_keys(&metric.payload);
    let mut label_keys: Vec<String> = Vec::new();
    let n = raw_keys.len();
    let mut i: usize = 0;
    while i < n
        invariant
            n == raw_keys@.len(),
            raw_keys.deep_view() == spec_payload_keys(&metric.payload),
            i <= n,
            label_keys.deep_view() == raw_keys.deep_view().take(i as int).map_values(
                |k: Seq<char>| spec_normalize(k),
            ),
        decreases n - i,
    {
        label_keys.push(normalize_label_key(raw_keys[i].as_str()));
        proof {
            assert(raw_keys.deep_view().take(i as int + 1) =~= raw_keys.deep_view().take(
                i as int,
            ).push(raw_keys.deep_view()[i as int]));
            assert(raw_keys.deep_view().take(i as int + 1).map_values(
                |k: Seq<char>| spec_normalize(k),
            ) =~= raw_keys.deep_view().take(i as int).map_values(
                |k: Seq<char>| spec_normalize(k),
            ).push(spec_normalize(raw_keys.deep_view()[i as int])));
            assert(label_keys.deep_view() =~= raw_keys.deep_view().take(i as int + 1).map_values(
                |k: Seq<char>| spec_normalize(k),
            ));
        }
        i = i + 1;
    }
    proof {
        assert(raw_keys.deep_view().take(n as int) =~= raw_keys.deep_view());
    }
    if add_unique_identifier {
        label_keys.push(String::from_str(unique_identifier_key()));
        proof {
            assert(label_keys.deep_view() =~= spec_descriptor_label_keys(
                &metric.payload,
                add_unique_identifier,
            ));
        }
    }
    let (metric_kind, value_type) = classify_metric(metric);
    MetricDescriptor {
        metric_type,
        display_name: metric.name.clone(),
        description: metric.description.clone(),
        unit: metric.unit.clone(),
        label_keys,
        metric_kind,
        value_type,
    }
}

/// The kind/value-type classification of one metric.
pub fn classify_metric(metric: &AggregatedMetric) -> (r: (MetricKind, ValueType))
    ensures
        r.0 == spec_metric_kind(&metric.payload),
        r.1 == spec_value_type(metric.numeric_kind, &metric.payload),
{
    let scalar_value_type = if matches!(metric.numeric_kind, NumericKind::Float64) {
        ValueType::Double
    } else {
        ValueType::Int64
    };
    match &metric.payload {
        MetricPayload::Histogram { .. } => (MetricKind::Cumulative, ValueType::Distribution),
        MetricPayload::ExponentialHistogram => (MetricKind::Cumulative, ValueType::Distribution),
        MetricPayload::Sum { is_monotonic, .. } => (
            if *is_monotonic {
                MetricKind::Cumulative
            } else {
                MetricKind::Gauge
            },
            scalar_value_type,
        ),
        MetricPayload::Gauge { .. } => (MetricKind::Gauge, scalar_value_type),
    }
}

/// Builds the monitored resource of one export cycle: the static override
/// when configured, else whatever resource detection produced.
pub fn resolve_monitored_resource(
    custom: &Option<MonitoredResourceDataConfig>,
    detected: Option<MonitoredResource>,
) -> (r: Option<MonitoredResource>)
    ensures
        match custom {
            Some(c) => match r {
                Some(m) => {
                    &&& m.resource_type@ == c.resource_type@
                    &&& m.labels.wf()
                    &&& m.labels@ == entries_map(c.labels@).map_values(|v: String| v@)
                },
                None => false,
            },
            None => r == detected,
        },
{
    match custom {
        Option::Some(c) => {
            let mut labels = LabelMap::new();
            let n = c.labels.len();
            let mut i: usize = 0;
            while i < n
                invariant
                    n == c.labels@.len(),
                    i <= n,
                    labels.wf(),
                    labels@ == entries_map(c.labels@.take(i as int)).map_values(|v: String| v@),
                decreases n - i,
            {
                labels.insert(c.labels[i].0.clone(), c.labels[i].1.clone());
                proof {
                    assert(c.labels@.take(i as int + 1).drop_last() =~= c.labels@.take(i as int));
                    assert(c.labels@.take(i as int + 1).last() == c.labels@[i as int]);
                    assert(entries_map(c.labels@.take(i as int + 1)).map_values(|v: String| v@)
                        =~= entries_map(c.labels@.take(i as int)).map_values(|v: String| v@).insert(
                        c.labels@[i as int].0@,
                        c.labels@[i as int].1@,
                    ));
                }
                i = i + 1;
            }
            proof {
                assert(c.labels@.take(n as int) =~= c.labels@);
            }
            Some(MonitoredResource { resource_type: c.resource_type.clone(), labels })
        },
        Option::None => detected,
    }
}

/// The flattened contents of a chunk list, in order.
pub open spec fn flat_chunks(chunks: Seq<Vec<TimeSeries>>) -> Seq<TimeSeries>
    decreases chunks.len(),
{
    if chunks.len() == 0 {
        Seq::empty()
    } else {
        flat_chunks(chunks.drop_last()) + chunks.last()@
    }
}

/// Splits the accumulated series into batches of at most 200 — the
/// backend's hard per-request limit.  Order is preserved; every batch but
/// the last is full; no batch is empty.
pub fn chunk_time_series(all_series: Vec<TimeSeries>) -> (chunks: Vec<Vec<TimeSeries>>)
    ensures
        flat_chunks(chunks@) == all_series@,
        forall|i: int| 0 <= i < chunks@.len() ==> #[trigger] chunks@[i]@.len() <= 200,
        forall|i: int| 0 <= i < chunks@.len() - 1 ==> #[trigger] chunks@[i]@.len() == 200,
        forall|i: int| 0 <= i < chunks@.len() ==> #[trigger] chunks@[i]@.len() > 0,
{
    let ghost orig = all_series@;
    let mut rest = all_series;
    let mut chunks: Vec<Vec<TimeSeries>> = Vec::new();
    let mut cur: Vec<TimeSeries> = Vec::new();
    while rest.len() > 0
        invariant
            flat_chunks(chunks@) + cur@ + rest@ == orig,
            cur@.len() < 200,
            forall|i: int| 0 <= i < chunks@.len() ==> #[trigger] chunks@[i]@.len() == 200,
        decreases rest@.len(),
    {
        let ghost prev_rest = rest@;
        let ghost prev_cur = cur@;
        let ts = rest.remove(0);
        cur.push(ts);
        proof {
            assert(prev_rest =~= seq![ts] + rest@);
            assert(cur@ =~= prev_cur.push(ts));
            assert(flat_chunks(chunks@) + cur@ + rest@ =~= flat_chunks(chunks@) + prev_cur
                + prev_rest);
        }
        if cur.len() == 200 {
            let ghost prev_chunks = chunks@;
            let full = cur;
            cur = Vec::new();
            chunks.push(full);
            proof {
                assert(chunks@.drop_last() =~= prev_chunks);
                assert(flat_chunks(chunks@) == flat_chunks(prev_chunks) + chunks@.last()@);
                assert(flat_chunks(chunks@) + cur@ + rest@ =~= flat_chunks(chunks@) + rest@);
                assert(flat_chunks(chunks@) + rest@ =~= orig);
            }
        }
    }
    proof {
        assert(rest@ =~= Seq::<TimeSeries>::empty());
        assert(flat_chunks(chunks@) + cur@ =~= flat_chunks(chunks@) + cur@ + rest@);
    }
    if cur.len() > 0 {
        let ghost prev_chunks = chunks@;
        let ghost last_cur = cur@;
        let partial = cur;
        chunks.push(partial);
        proof {
            assert(chunks@.drop_last() =~= prev_chunks);
            assert(flat_chunks(chunks@) == flat_chunks(prev_chunks) + chunks@.last()@);
            assert(flat_chunks(chunks@) =~= orig);
        }
    } else {
        proof {
            assert(cur@ =~= Seq::<TimeSeries>::empty());
            assert(flat_chunks(chunks@) =~= flat_chunks(chunks@) + cur@);
            assert(flat_chunks(chunks@) =~= orig);
        }
    }
    chunks
}

/// Relies on `rand::rng` and `Rng::random_range` with zero-padded
/// eight-wide hex formatting: the tag is always eight characters,
/// whatever number was drawn.
#[verifier::external_body]
fn fresh_unique_identifier() -> (r: String)
    ensures
        r@.len() == 8,
{
    let drawn: u32 = rand::Rng::random_range(&mut rand::rng(), 0..u32::MAX);
    format!("{:08x}", drawn)
}

/// Warning-log side channel for skip/retry events.  Deliberately inert
/// here: delivery outcomes are decided by contracts, not by log text.
pub fn log_warning(err: String) {
    let _ = err;
}

/// Dispatch on the payload's numeric kind: float64 payloads carry double
/// values, integer payloads carry saturated int64 values.
pub open spec fn number_series_ok_at(
    float64: bool,
    point: &crate::model::NumberDataPoint,
    start_nanos: Option<u128>,
    end_nanos: u128,
    descriptor: &MetricDescriptor,
    resource: &Option<MonitoredResource>,
    add_uid: bool,
    uid: Seq<char>,
    ts: TimeSeries,
) -> bool {
    if float64 {
        number_series_f64_ok(
            point,
            start_nanos,
            end_nanos,
            descriptor,
            resource,
            add_uid,
            uid,
            ts,
        )
    } else {
        number_series_i64_ok(
            point,
            start_nanos,
            end_nanos,
            descriptor,
            resource,
            add_uid,
            uid,
            ts,
        )
    }
}

/// The metrics exporter: construction-time configuration plus the
/// process-lifetime descriptor cache.
#[derive(Debug)]
pub struct GCPMetricsExporter {
    prefix: String,
    project_id: Option<String>,
    add_unique_identifier: bool,
    unique_identifier: String,
    metric_descriptors: DescriptorCache,
    custom_monitored_resource_data: Option<MonitoredResourceDataConfig>,
}

/// How one metric's descriptor was resolved: from the cache, or freshly
/// built and still to be registered with the backend.
#[derive(Debug)]
pub enum DescriptorResolution {
    Cached(MetricDescriptor),
    NeedsRegistration(MetricDescriptor),
}

impl GCPMetricsExporter {
    pub closed spec fn wf(&self) -> bool {
        self.metric_descriptors.wf()
    }

    pub closed spec fn spec_prefix(&self) -> Seq<char> {
        self.prefix@
    }

    pub closed spec fn spec_project_id(&self) -> Option<Seq<char>> {
        match self.project_id {
            Some(p) => Some(p@),
            None => None,
        }
    }

    pub closed spec fn spec_add_unique_identifier(&self) -> bool {
        self.add_unique_identifier
    }

    pub closed spec fn spec_unique_identifier(&self) -> Seq<char> {
        self.unique_identifier@
    }

    pub closed spec fn spec_cache(&self) -> Map<Seq<char>, MetricDescriptor> {
        self.metric_descriptors@
    }

    pub closed spec fn spec_custom_resource(&self) -> Option<MonitoredResourceDataConfig> {
        self.custom_monitored_resource_data
    }

    /// A new exporter: configuration copied in, a fresh random uniqueness
    /// tag, an empty descriptor cache.
    pub fn new(config: GCPMetricsExporterConfig) -> (e: Self)
        ensures
            e.wf(),
            e.spec_prefix() == config.prefix@,
            e.spec_project_id() == (match config.project_id {
                Some(p) => Some(p@),
                None => None::<Seq<char>>,
            }),
            e.spec_add_unique_identifier() == config.add_unique_identifier,
            e.spec_unique_identifier().len() == 8,
            e.spec_cache() == Map::<Seq<char>, MetricDescriptor>::empty(),
    {
        GCPMetricsExporter {
            prefix: config.prefix,
            project_id: config.project_id,
            add_unique_identifier: config.add_unique_identifier,
            unique_identifier: fresh_unique_identifier(),
            metric_descriptors: DescriptorCache::new(),
            custom_monitored_resource_data: config.custom_monitored_resource_data,
        }
    }

    /// An exporter with the default configuration, for tests and fakes.
    pub fn fake_new() -> (e: Self)
        ensures
            e.wf(),
            e.spec_prefix() == "workload.googleapis.com"@,
            e.spec_project_id() is None,
            !e.spec_add_unique_identifier(),
            e.spec_unique_identifier().len() == 8,
            e.spec_cache() == Map::<Seq<char>, MetricDescriptor>::empty(),
    {
        GCPMetricsExporter::new(GCPMetricsExporterConfig::default())
    }

    /// The project id used in request names: the configured override if
    /// set, else the authorizer's.
    pub fn effective_project_id(&self, authorizer_project_id: String) -> (r: String)
        ensures
            r@ == (match self.spec_project_id() {
                Some(p) => p,
                None => authorizer_project_id@,
            }),
    {
        match &self.project_id {
            Option::Some(p) => p.clone(),
            Option::None => authorizer_project_id,
        }
    }

    /// The monitored resource of one export cycle (see
    /// [`resolve_monitored_resource`]).
    pub fn monitored_resource(&self, detected: Option<MonitoredResource>) -> (r: Option<
        MonitoredResource,
    >)
        ensures
            match self.spec_custom_resource() {
                Some(c) => match r {
                    Some(m) => {
                        &&& m.resource_type@ == c.resource_type@
                        &&& m.labels.wf()
                        &&& m.labels@ == entries_map(c.labels@).map_values(|v: String| v@)
                    },
                    None => false,
                },
                None => r == detected,
            },
    {
        resolve_monitored_resource(&self.custom_monitored_resource_data, detected)
    }

    /// Step one of descriptor resolution: the cache answers, or a candidate
    /// descriptor is built for registration.  The caller registers the
    /// candidate with the backend under the retry policy and then commits
    /// it with [`Self::commit_descriptor`]; on registration failure the
    /// metric is skipped and the cache is left unchanged.
    pub fn prepare_descriptor(&self, metric: &AggregatedMetric) -> (r: DescriptorResolution)
        requires
            self.wf(),
        ensures
            match r {
                DescriptorResolution::Cached(d) => {
                    &&& self.spec_cache().contains_key(
                        spec_descriptor_type(self.spec_prefix(), metric.name@),
                    )
                    &&& descriptor_matches(
                        &self.spec_cache()[spec_descriptor_type(self.spec_prefix(), metric.name@)],
                        &d,
                    )
                },
                DescriptorResolution::NeedsRegistration(d) => {
                    &&& !self.spec_cache().contains_key(
                        spec_descriptor_type(self.spec_prefix(), metric.name@),
                    )
                    &&& descriptor_of_metric(
                        &d,
                        metric,
                        self.spec_prefix(),
                        self.spec_add_unique_identifier(),
                    )
                },
            },
    {
        let descriptor_type = descriptor_type_of(self.prefix.as_str(), metric.name.as_str());
        match self.metric_descriptors.lookup(&descriptor_type) {
            Option::Some(d) => DescriptorResolution::Cached(d),
            Option::None => DescriptorResolution::NeedsRegistration(
                build_descriptor(metric, self.prefix.as_str(), self.add_unique_identifier),
            ),
        }
    }

    /// Step two of descriptor resolution, after the backend accepted the
    /// registration (or reported it already exists): caches the descriptor
    /// under its type string.
    pub fn commit_descriptor(&mut self, d: MetricDescriptor)
        requires
            old(self).wf(),
        ensures
            final(self).wf(),
            final(self).spec_cache() == old(self).spec_cache().insert(d.metric_type@, d),
            final(self).spec_prefix() == old(self).spec_prefix(),
            final(self).spec_project_id() == old(self).spec_project_id(),
            final(self).spec_add_unique_identifier() == old(self).spec_add_unique_identifier(),
            final(self).spec_unique_identifier() == old(self).spec_unique_identifier(),
    {
        let key = d.metric_type.clone();
        self.metric_descriptors.insert(key, d);
    }

    /// Translates every data point of one metric, in the snapshot's order.
    /// Exponential histograms are unsupported and yield nothing.
    pub fn translate_metric(
        &self,
        metric: &AggregatedMetric,
        descriptor: &MetricDescriptor,
        resource: &Option<MonitoredResource>,
    ) -> (out: Vec<TimeSeries>)
        requires
            metric.wf(),
        ensures
            match metric.payload {
                MetricPayload::Sum { start_nanos, end_nanos, points, .. } => {
                    &&& out@.len() == points@.len()
                    &&& forall|i: int|
                        0 <= i < out@.len() ==> number_series_ok_at(
                            (metric.numeric_kind is Float64),
                            &points@[i],
                            Some(start_nanos),
                            end_nanos,
                            descriptor,
                            resource,
                            self.spec_add_unique_identifier(),
                            self.spec_unique_identifier(),
                            out@[i],
                        )
                },
                MetricPayload::Gauge { start_nanos, end_nanos, points } => {
                    &&& out@.len() == points@.len()
                    &&& forall|i: int|
                        0 <= i < out@.len() ==> number_series_ok_at(
                            (metric.numeric_kind is Float64),
                            &points@[i],
                            start_nanos,
                            end_nanos,
                            descriptor,
                            resource,
                            self.spec_add_unique_identifier(),
                            self.spec_unique_identifier(),
                            out@[i],
                        )
                },
                MetricPayload::Histogram { start_nanos, end_nanos, points } => {
                    &&& out@.len() == points@.len()
                    &&& forall|i: int|
                        0 <= i < out@.len() ==> histogram_series_ok(
                            &points@[i],
                            start_nanos,
                            end_nanos,
                            descriptor,
                            resource,
                            self.spec_add_unique_identifier(),
                            self.spec_unique_identifier(),
                            #[trigger] out@[i],
                        )
                },
                MetricPayload::ExponentialHistogram => out@.len() == 0,
            },
    {
        let mut out: Vec<TimeSeries> = Vec::new();
        let float_kind = matches!(metric.numeric_kind, NumericKind::Float64);
        match &metric.payload {
            MetricPayload::Sum { start_nanos, end_nanos, points, .. } => {
                let n = points.len();
                let mut i: usize = 0;
                while i < n
                    invariant
                        n == points@.len(),
                        i <= n,
                        out@.len() == i,
                        float_kind == metric.numeric_kind is Float64,
                        fits_sum_times(&metric.payload),
                        metric.payload matches MetricPayload::Sum {
                            start_nanos: sn,
                            end_nanos: en,
                            points: ps,
                            ..
                        } && sn == *start_nanos && en == *end_nanos && ps@ == points@,
                        forall|j: int|
                            0 <= j < i ==> number_series_ok_at(
                                (metric.numeric_kind is Float64),
                                &points@[j],
                                Some(*start_nanos),
                                *end_nanos,
                                descriptor,
                                resource,
                                self.spec_add_unique_identifier(),
                                self.spec_unique_identifier(),
                                out@[j],
                            ),
                    decreases n - i,
                {
                    let ts = if float_kind {
                        sum_convert_f64(
                            &points[i],
                            *start_nanos,
                            *end_nanos,
                            descriptor,
                            resource,
                            self.add_unique_identifier,
                            self.unique_identifier.as_str(),
                        )
                    } else {
                        sum_convert_i64(
                            &points[i],
                            *start_nanos,
                            *end_nanos,
                            descriptor,
                            resource,
                            self.add_unique_identifier,
                            self.unique_identifier.as_str(),
                        )
                    };
                    out.push(ts);
                    i = i + 1;
                }
            },
            MetricPayload::Gauge { start_nanos, end_nanos, points } => {
                let n = points.len();
                let mut i: usize = 0;
                while i < n
                    invariant
                        n == points@.len(),
                        i <= n,
                        out@.len() == i,
                        float_kind == metric.numeric_kind is Float64,
                        fits_gauge_times(&metric.payload),
                        metric.payload matches MetricPayload::Gauge {
                            start_nanos: sn,
                            end_nanos: en,
                            points: ps,
                        } && sn == *start_nanos && en == *end_nanos && ps@ == points@,
                        forall|j: int|
                            0 <= j < i ==> number_series_ok_at(
                                (metric.numeric_kind is Float64),
                                &points@[j],
                                *start_nanos,
                                *end_nanos,
                                descriptor,
                                resource,
                                self.spec_add_unique_identifier(),
                                self.spec_unique_identifier(),
                                out@[j],
                            ),
                    decreases n - i,
                {
                    let ts = if float_kind {
                        gauge_convert_f64(
                            &points[i],
                            *start_nanos,
                            *end_nanos,
                            descriptor,
                            resource,
                            self.add_unique_identifier,
                            self.unique_identifier.as_str(),
                        )
                    } else {
                        gauge_convert_i64(
                            &points[i],
                            *start_nanos,
                            *end_nanos,
                            descriptor,
                            resource,
                            self.add_unique_identifier,
                            self.unique_identifier.as_str(),
                        )
                    };
                    out.push(ts);
                    i = i + 1;
                }
            },
            MetricPayload::Histogram { start_nanos, end_nanos, points } => {
                let n = points.len();
                let mut i: usize = 0;
                while i < n
                    invariant
                        n == points@.len(),
                        i <= n,
                        out@.len() == i,
                        fits_histogram_times(&metric.payload),
                        metric.payload matches MetricPayload::Histogram {
                            start_nanos: sn,
                            end_nanos: en,
                            points: ps,
                        } && sn == *start_nanos && en == *end_nanos && ps@ == points@,
                        forall|j: int| 0 <= j < points@.len() ==> (#[trigger] points@[j]).wf(),
                        forall|j: int|
                            0 <= j < i ==> histogram_series_ok(
                                &points@[j],
                                *start_nanos,
                                *end_nanos,
                                descriptor,
                                resource,
                                self.spec_add_unique_identifier(),
                                self.spec_unique_identifier(),
                                #[trigger] out@[j],
                            ),
                    decreases n - i,
                {
                    let ts = convert(
                        &points[i],
                        *start_nanos,
                        *end_nanos,
                        descriptor,
                        resource,
                        self.add_unique_identifier,
                        self.unique_identifier.as_str(),
                    );
                    out.push(ts);
                    i = i + 1;
                }
            },
            MetricPayload::ExponentialHistogram => {},
        }
        out
    }
}

/// The time bounds a sum payload guarantees (part of well-formedness).
pub open spec fn fits_sum_times(p: &MetricPayload) -> bool {
    match *p {
        MetricPayload::Sum { start_nanos, end_nanos, .. } => {
            crate::convert::fits_wire_time(start_nanos) && crate::convert::fits_wire_time(
                end_nanos,
            )
        },
        _ => true,
    }
}

pub open spec fn fits_gauge_times(p: &MetricPayload) -> bool {
    match *p {
        MetricPayload::Gauge { start_nanos, end_nanos, .. } => {
            &&& match start_nanos {
                Some(n) => crate::convert::fits_wire_time(n),
                None => true,
            }
            &&& crate::convert::fits_wire_time(end_nanos)
        },
        _ => true,
    }
}

pub open spec fn fits_histogram_times(p: &MetricPayload) -> bool {
    match *p {
        MetricPayload::Histogram { start_nanos, end_nanos, .. } => {
            crate::convert::fits_wire_time(start_nanos) && crate::convert::fits_wire_time(
                end_nanos,
            )
        },
        _ => true,
    }
}

} // verus!
