//! Data-point translators: one aggregated data point plus its descriptor,
//! monitored resource and optional uniqueness tag become one wire time
//! series.

use vstd::prelude::*;
use crate::convert::{fits_wire_time, spec_timestamp, timestamp_from_epoch_nanos, ToI64};
use crate::labels::spec_normalize;
use crate::model::{Attribute, HistogramDataPoint, NumberDataPoint, SampleValue, sum_u64};
use crate::model::kv_map_normalize_k_v;
use crate::wire::{
    DoubleBits, Distribution, LabelMap, Metric, MetricDescriptor, MetricKind, MonitoredResource,
    Point, TimeInterval, TimeSeries, TypedValue,
};

verus! {

/// The fixed label key of the injected uniqueness tag.
pub fn unique_identifier_key() -> (r: &'static str)
    ensures
        r@ == "opentelemetry_id"@,
{
    "opentelemetry_id"
}

/// The interval of a translated point: the start is carried only for
/// cumulative and delta kinds; the end is always present.
pub open spec fn spec_interval(
    kind: MetricKind,
    start_nanos: Option<u128>,
    end_nanos: u128,
) -> TimeInterval {
    TimeInterval {
        start_time: if kind is Cumulative || kind is Delta {
            match start_nanos {
                Some(n) => Some(spec_timestamp(n)),
                None => None,
            }
        } else {
            None
        },
        end_time: Some(spec_timestamp(end_nanos)),
    }
}

/// Gauge interval rule: a gauge point is an instant; its translated
/// interval has no start and always an end.
pub proof fn lemma_gauge_interval_rule(kind: MetricKind, start_nanos: Option<u128>, end_nanos: u128)
    requires
        kind is Gauge || kind is Unspecified,
    ensures
        spec_interval(kind, start_nanos, end_nanos).start_time is None,
        spec_interval(kind, start_nanos, end_nanos).end_time is Some,
{
}

/// Cumulative/delta interval rule: a cumulative or delta point with a known
/// start translates with both interval ends present.
pub proof fn lemma_cumulative_delta_interval_rule(
    kind: MetricKind,
    start_nanos: Option<u128>,
    end_nanos: u128,
)
    requires
        kind is Cumulative || kind is Delta,
        start_nanos is Some,
    ensures
        spec_interval(kind, start_nanos, end_nanos).start_time is Some,
        spec_interval(kind, start_nanos, end_nanos).end_time is Some,
{
}

fn wire_interval(kind: MetricKind, start_nanos: Option<u128>, end_nanos: u128) -> (iv: TimeInterval)
    requires
        match start_nanos {
            Some(n) => fits_wire_time(n),
            None => true,
        },
        fits_wire_time(end_nanos),
    ensures
        iv == spec_interval(kind, start_nanos, end_nanos),
{
    let start_time = if matches!(kind, MetricKind::Cumulative | MetricKind::Delta) {
        match start_nanos {
            Some(n) => Some(timestamp_from_epoch_nanos(n)),
            None => None,
        }
    } else {
        None
    };
    TimeInterval { start_time, end_time: Some(timestamp_from_epoch_nanos(end_nanos)) }
}

/// The label map of a translated point: attributes with normalized keys, in
/// order, later duplicates winning, plus the uniqueness tag when enabled.
pub open spec fn spec_attr_labels(attrs: Seq<Attribute>) -> Map<Seq<char>, Seq<char>>
    decreases attrs.len(),
{
    if attrs.len() == 0 {
        Map::empty()
    } else {
        spec_attr_labels(attrs.drop_last()).insert(
            spec_normalize(attrs.last().key@),
            attrs.last().value@,
        )
    }
}

pub open spec fn spec_labels(attrs: Seq<Attribute>, add_uid: bool, uid: Seq<char>) -> Map<
    Seq<char>,
    Seq<char>,
> {
    if add_uid {
        spec_attr_labels(attrs).insert("opentelemetry_id"@, uid)
    } else {
        spec_attr_labels(attrs)
    }
}

/// Builds the label map of one data point.
pub fn build_label_map(attrs: &Vec<Attribute>, add_unique_identifier: bool, unique_identifier: &str) -> (m:
    LabelMap)
    ensures
        m.wf(),
        m@ == spec_labels(attrs@, add_unique_identifier, unique_identifier@),
{
    let mut m = LabelMap::new();
    let n = attrs.len();
    let mut i: usize = 0;
    while i < n
        invariant
            n == attrs@.len(),
            i <= n,
            m.wf(),
            m@ == spec_attr_labels(attrs@.take(i as int)),
        decreases n - i,
    {
        let (k, v) = kv_map_normalize_k_v(&attrs[i]);
        m.insert(k, v);
        proof {
            assert(attrs@.take(i as int + 1).drop_last() =~= attrs@.take(i as int));
            assert(attrs@.take(i as int + 1).last() == attrs@[i as int]);
        }
        i = i + 1;
    }
    proof {
        assert(attrs@.take(n as int) =~= attrs@);
    }
    if add_unique_identifier {
        m.insert(String::from_str(unique_identifier_key()), String::from_str(unique_identifier));
    }
    m
}

/// Two resources denote the same monitored entity.
pub open spec fn resource_matches(a: &MonitoredResource, b: &MonitoredResource) -> bool {
    &&& a.resource_type@ == b.resource_type@
    &&& a.labels@ == b.labels@
}

pub open spec fn opt_resource_matches(
    a: &Option<MonitoredResource>,
    b: &Option<MonitoredResource>,
) -> bool {
    match (a, b) {
        (Option::None, Option::None) => true,
        (Option::Some(x), Option::Some(y)) => resource_matches(x, y),
        _ => false,
    }
}

fn clone_opt_resource(r: &Option<MonitoredResource>) -> (c: Option<MonitoredResource>)
    ensures
        opt_resource_matches(r, &c),
        match c {
            Some(x) => x.labels.wf(),
            None => true,
        },
{
    match r {
        Option::None => None,
        Option::Some(x) => Some(
            MonitoredResource { resource_type: x.resource_type.clone(), labels: x.labels.clone_map() },
        ),
    }
}

/// The shared shape of every translated series: kind, value type, metric
/// type and unit copied from the descriptor; the data point's normalized
/// labels; the given resource; exactly one point.
pub open spec fn series_common(
    descriptor: &MetricDescriptor,
    resource: &Option<MonitoredResource>,
    attrs: Seq<Attribute>,
    add_uid: bool,
    uid: Seq<char>,
    ts: &TimeSeries,
) -> bool {
    &&& ts.metric_kind == descriptor.metric_kind
    &&& ts.value_type == descriptor.value_type
    &&& ts.metric.metric_type@ == descriptor.metric_type@
    &&& ts.metric.labels.wf()
    &&& ts.metric.labels@ == spec_labels(attrs, add_uid, uid)
    &&& ts.unit@ == descriptor.unit@
    &&& opt_resource_matches(resource, &ts.resource)
    &&& ts.points@.len() == 1
}

/// The signed wire value of a sample: unsigned values saturate at
/// `i64::MAX`; a double sample never reaches this path and maps to zero.
pub open spec fn spec_value_to_i64(v: SampleValue) -> i64 {
    match v {
        SampleValue::Int64(x) => x,
        SampleValue::UInt64(x) => if x <= i64::MAX as u64 {
            x as i64
        } else {
            i64::MAX
        },
        SampleValue::Double(_) => 0,
    }
}

/// The double wire value of a sample: an integer sample never reaches this
/// path and maps to +0.0.
pub open spec fn spec_value_to_double(v: SampleValue) -> DoubleBits {
    match v {
        SampleValue::Double(b) => b,
        _ => DoubleBits { bits: 0 },
    }
}

/// Everything that holds of an integer-valued sum or gauge series: the
/// common shape, the interval for the descriptor's kind, and the saturated
/// integer value.
pub open spec fn number_series_i64_ok(
    point: &NumberDataPoint,
    start_nanos: Option<u128>,
    end_nanos: u128,
    descriptor: &MetricDescriptor,
    resource: &Option<MonitoredResource>,
    add_uid: bool,
    uid: Seq<char>,
    ts: TimeSeries,
) -> bool {
    &&& series_common(descriptor, resource, point.attributes@, add_uid, uid, &ts)
    &&& ts.points@[0].interval == spec_interval(descriptor.metric_kind, start_nanos, end_nanos)
    &&& ts.points@[0].value == TypedValue::Int64Value(spec_value_to_i64(point.value))
}

/// Everything that holds of a double-valued sum or gauge series.
pub open spec fn number_series_f64_ok(
    point: &NumberDataPoint,
    start_nanos: Option<u128>,
    end_nanos: u128,
    descriptor: &MetricDescriptor,
    resource: &Option<MonitoredResource>,
    add_uid: bool,
    uid: Seq<char>,
    ts: TimeSeries,
) -> bool {
    &&& series_common(descriptor, resource, point.attributes@, add_uid, uid, &ts)
    &&& ts.points@[0].interval == spec_interval(descriptor.metric_kind, start_nanos, end_nanos)
    &&& ts.points@[0].value == TypedValue::DoubleValue(spec_value_to_double(point.value))
}

/// Everything that holds of a translated histogram series: the common
/// shape; both interval ends present; the count copied; the mean equal to
/// the caller's quotient except exactly +0.0 for an empty point; zero
/// squared deviation; boundaries passed through; one more bucket count
/// than boundaries, summing to the count.
pub open spec fn histogram_series_ok(
    point: &HistogramDataPoint,
    start_nanos: u128,
    end_nanos: u128,
    descriptor: &MetricDescriptor,
    resource: &Option<MonitoredResource>,
    add_uid: bool,
    uid: Seq<char>,
    ts: TimeSeries,
) -> bool {
    &&& series_common(descriptor, resource, point.attributes@, add_uid, uid, &ts)
    &&& ts.points@[0].interval == (TimeInterval {
        start_time: Some(spec_timestamp(start_nanos)),
        end_time: Some(spec_timestamp(end_nanos)),
    })
    &&& ts.points@[0].value matches TypedValue::DistributionValue(dist) && {
        &&& dist.count == point.count
        &&& dist.mean == if point.count == 0 {
            DoubleBits::spec_zero()
        } else {
            point.mean
        }
        &&& dist.sum_of_squared_deviation == DoubleBits::spec_zero()
        &&& dist.bounds@ == point.bounds@
        &&& dist.bucket_counts@ == point.bucket_counts@.map_values(|c: u64| c as i64)
        &&& dist.bucket_counts@.len() == point.bounds@.len() + 1
        &&& sum_i64(dist.bucket_counts@) == point.count
    }
}

fn sample_to_i64(v: SampleValue) -> (r: i64)
    ensures
        r == spec_value_to_i64(v),
{
    match v {
        SampleValue::Int64(x) => x,
        SampleValue::UInt64(x) => x.to_i64(),
        SampleValue::Double(_) => 0,
    }
}

fn sample_to_double(v: SampleValue) -> (r: DoubleBits)
    ensures
        r == spec_value_to_double(v),
{
    match v {
        SampleValue::Double(b) => b,
        _ => DoubleBits::zero(),
    }
}

fn series_of_point(
    descriptor: &MetricDescriptor,
    monitored_resource_data: &Option<MonitoredResource>,
    attrs: &Vec<Attribute>,
    add_unique_identifier: bool,
    unique_identifier: &str,
    interval: TimeInterval,
    value: TypedValue,
) -> (ts: TimeSeries)
    ensures
        series_common(
            descriptor,
            monitored_resource_data,
            attrs@,
            add_unique_identifier,
            unique_identifier@,
            &ts,
        ),
        ts.points@[0].interval == interval,
        ts.points@[0].value == value,
{
    let labels = build_label_map(attrs, add_unique_identifier, unique_identifier);
    let resource = clone_opt_resource(monitored_resource_data);
    let mut points: Vec<Point> = Vec::new();
    points.push(Point { interval, value });
    TimeSeries {
        resource,
        metric: Metric { metric_type: descriptor.metric_type.clone(), labels },
        metric_kind: descriptor.metric_kind,
        value_type: descriptor.value_type,
        points,
        unit: descriptor.unit.clone(),
    }
}

/// Translates one sum data point whose payload kind is an integer kind.
pub fn sum_convert_i64(
    data_point: &NumberDataPoint,
    start_time: u128,
    time: u128,
    descriptor: &MetricDescriptor,
    monitored_resource_data: &Option<MonitoredResource>,
    add_unique_identifier: bool,
    unique_identifier: &str,
) -> (ts: TimeSeries)
    requires
        fits_wire_time(start_time),
        fits_wire_time(time),
    ensures
        number_series_i64_ok(
            data_point,
            Some(start_time),
            time,
            descriptor,
            monitored_resource_data,
            add_unique_identifier,
            unique_identifier@,
            ts,
        ),
{
    let interval = wire_interval(descriptor.metric_kind, Some(start_time), time);
    let value = TypedValue::Int64Value(sample_to_i64(data_point.value));
    series_of_point(
        descriptor,
        monitored_resource_data,
        &data_point.attributes,
        add_unique_identifier,
        unique_identifier,
        interval,
        value,
    )
}

/// Translates one sum data point whose payload kind is float64.
pub fn sum_convert_f64(
    data_point: &NumberDataPoint,
    start_time: u128,
    time: u128,
    descriptor: &MetricDescriptor,
    monitored_resource_data: &Option<MonitoredResource>,
    add_unique_identifier: bool,
    unique_identifier: &str,
) -> (ts: TimeSeries)
    requires
        fits_wire_time(start_time),
        fits_wire_time(time),
    ensures
        number_series_f64_ok(
            data_point,
            Some(start_time),
            time,
            descriptor,
            monitored_resource_data,
            add_unique_identifier,
            unique_identifier@,
            ts,
        ),
{
    let interval = wire_interval(descriptor.metric_kind, Some(start_time), time);
    let value = TypedValue::DoubleValue(sample_to_double(data_point.value));
    series_of_point(
        descriptor,
        monitored_resource_data,
        &data_point.attributes,
        add_unique_identifier,
        unique_identifier,
        interval,
        value,
    )
}

/// Translates one gauge data point whose payload kind is an integer kind.
/// The metric-level start time may be absent; it is carried only for
/// cumulative and delta descriptors anyway.
pub fn gauge_convert_i64(
    data_point: &NumberDataPoint,
    start_time: Option<u128>,
    time: u128,
    descriptor: &MetricDescriptor,
    monitored_resource_data: &Option<MonitoredResource>,
    add_unique_identifier: bool,
    unique_identifier: &str,
) -> (ts: TimeSeries)
    requires
        match start_time {
            Some(n) => fits_wire_time(n),
            None => true,
        },
        fits_wire_time(time),
    ensures
        number_series_i64_ok(
            data_point,
            start_time,
            time,
            descriptor,
            monitored_resource_data,
            add_unique_identifier,
            unique_identifier@,
            ts,
        ),
{
    let interval = wire_interval(descriptor.metric_kind, start_time, time);
    let value = TypedValue::Int64Value(sample_to_i64(data_point.value));
    series_of_point(
        descriptor,
        monitored_resource_data,
        &data_point.attributes,
        add_unique_identifier,
        unique_identifier,
        interval,
        value,
    )
}

/// Translates one gauge data point whose payload kind is float64.
pub fn gauge_convert_f64(
    data_point: &NumberDataPoint,
    start_time: Option<u128>,
    time: u128,
    descriptor: &MetricDescriptor,
    monitored_resource_data: &Option<MonitoredResource>,
    add_unique_identifier: bool,
    unique_identifier: &str,
) -> (ts: TimeSeries)
    requires
        match start_time {
            Some(n) => fits_wire_time(n),
            None => true,
        },
        fits_wire_time(time),
    ensures
        number_series_f64_ok(
            data_point,
            start_time,
            time,
            descriptor,
            monitored_resource_data,
            add_unique_identifier,
            unique_identifier@,
            ts,
        ),
{
    let interval = wire_interval(descriptor.metric_kind, start_time, time);
    let value = TypedValue::DoubleValue(sample_to_double(data_point.value));
    series_of_point(
        descriptor,
        monitored_resource_data,
        &data_point.attributes,
        add_unique_identifier,
        unique_identifier,
        interval,
        value,
    )
}

pub open spec fn sum_i64(s: Seq<i64>) -> int
    decreases s.len(),
{
    if s.len() == 0 {
        0
    } else {
        sum_i64(s.drop_last()) + s.last()
    }
}

proof fn lemma_sum_u64_nonneg(s: Seq<u64>)
    ensures
        0 <= sum_u64(s),
    decreases s.len(),
{
    if s.len() > 0 {
        lemma_sum_u64_nonneg(s.drop_last());
    }
}

proof fn lemma_sum_u64_element_bound(s: Seq<u64>, i: int)
    requires
        0 <= i < s.len(),
    ensures
        s[i] <= sum_u64(s),
    decreases s.len(),
{
    lemma_sum_u64_nonneg(s.drop_last());
    if i < s.len() - 1 {
        lemma_sum_u64_element_bound(s.drop_last(), i);
    }
}

proof fn lemma_sum_map_i64(s: Seq<u64>)
    requires
        forall|i: int| 0 <= i < s.len() ==> s[i] <= i64::MAX as u64,
    ensures
        sum_i64(s.map_values(|c: u64| c as i64)) == sum_u64(s),
    decreases s.len(),
{
    let m = s.map_values(|c: u64| c as i64);
    if s.len() == 0 {
    } else {
        assert(m.drop_last() =~= s.drop_last().map_values(|c: u64| c as i64));
        lemma_sum_map_i64(s.drop_last());
        assert(m.last() == s.last() as i64);
    }
}

/// Translates one histogram data point into a distribution-valued series.
///
/// The interval always carries both ends, as the original does for
/// histograms (their descriptors are always cumulative).  The mean is the
/// caller-computed `sum / count` quotient, except that a point with
/// count zero reports a mean of exactly +0.0.  Bucket boundaries pass
/// through unchanged; the translated distribution has one more bucket
/// count than boundaries, and its bucket counts sum to the point's count.
/// The squared-deviation statistic is deliberately always zero.
pub fn convert(
    data_point: &HistogramDataPoint,
    start_time: u128,
    time: u128,
    descriptor: &MetricDescriptor,
    monitored_resource_data: &Option<MonitoredResource>,
    add_unique_identifier: bool,
    unique_identifier: &str,
) -> (ts: TimeSeries)
    requires
        data_point.wf(),
        fits_wire_time(start_time),
        fits_wire_time(time),
    ensures
        histogram_series_ok(
            data_point,
            start_time,
            time,
            descriptor,
            monitored_resource_data,
            add_unique_identifier,
            unique_identifier@,
            ts,
        ),
{
    let interval = TimeInterval {
        start_time: Some(timestamp_from_epoch_nanos(start_time)),
        end_time: Some(timestamp_from_epoch_nanos(time)),
    };
    let count_i64: i64 = data_point.count as i64;
    let mean = if data_point.count == 0 {
        DoubleBits::zero()
    } else {
        data_point.mean
    };
    let mut bounds: Vec<DoubleBits> = Vec::new();
    let nb = data_point.bounds.len();
    let mut i: usize = 0;
    while i < nb
        invariant
            nb == data_point.bounds@.len(),
            i <= nb,
            bounds@ == data_point.bounds@.take(i as int),
        decreases nb - i,
    {
        bounds.push(data_point.bounds[i]);
        proof {
            assert(data_point.bounds@.take(i as int + 1) =~= data_point.bounds@.take(
                i as int,
            ).push(data_point.bounds@[i as int]));
        }
        i = i + 1;
    }
    proof {
        assert(data_point.bounds@.take(nb as int) =~= data_point.bounds@);
    }
    let mut bucket_counts: Vec<i64> = Vec::new();
    let nc = data_point.bucket_counts.len();
    let mut j: usize = 0;
    while j < nc
        invariant
            nc == data_point.bucket_counts@.len(),
            j <= nc,
            bucket_counts@ == data_point.bucket_counts@.take(j as int).map_values(
                |c: u64| c as i64,
            ),
        decreases nc - j,
    {
        bucket_counts.push(data_point.bucket_counts[j] as i64);
        proof {
            assert(data_point.bucket_counts@.take(j as int + 1) =~= data_point.bucket_counts@.take(
                j as int,
            ).push(data_point.bucket_counts@[j as int]));
            assert(data_point.bucket_counts@.take(j as int + 1).map_values(|c: u64| c as i64)
                =~= data_point.bucket_counts@.take(j as int).map_values(|c: u64| c as i64).push(
                data_point.bucket_counts@[j as int] as i64,
            ));
        }
        j = j + 1;
    }
    proof {
        assert(data_point.bucket_counts@.take(nc as int) =~= data_point.bucket_counts@);
        assert forall|k: int| 0 <= k < data_point.bucket_counts@.len() implies data_point
            .bucket_counts@[k] <= i64::MAX as u64 by {
            lemma_sum_u64_element_bound(data_point.bucket_counts@, k);
        }
        lemma_sum_map_i64(data_point.bucket_counts@);
    }
    let dist = Distribution {
        count: count_i64,
        mean,
        sum_of_squared_deviation: DoubleBits::zero(),
        bounds,
        bucket_counts,
    };
    series_of_point(
        descriptor,
        monitored_resource_data,
        &data_point.attributes,
        add_unique_identifier,
        unique_identifier,
        interval,
        TypedValue::DistributionValue(dist),
    )
}

} // verus!
