//! The aggregated-metric snapshot model: what one export cycle receives.
//!
//! The shapes form a closed union, so the translation dispatch is matched
//! exhaustively instead of falling through on an unknown runtime type.
//! Instants are nanoseconds since the epoch; double values are bit patterns
//! (see [`crate::wire::DoubleBits`]).

use vstd::prelude::*;
use crate::convert::fits_wire_time;
use crate::labels::{normalize_label_key, spec_normalize};
use crate::wire::DoubleBits;

verus! {

/// One attribute of a data point, already stringified.
#[derive(Debug)]
pub struct Attribute {
    pub key: String,
    pub value: String,
}

/// One sample value with its numeric kind.
#[derive(Clone, Copy, Debug, PartialEq, Eq, Structural)]
pub enum SampleValue {
    Int64(i64),
    UInt64(u64),
    Double(DoubleBits),
}

/// The numeric kind of a metric's payload.
#[derive(Clone, Copy, Debug, PartialEq, Eq, Structural)]
pub enum NumericKind {
    Int64,
    UInt64,
    Float64,
}

impl SampleValue {
    pub open spec fn matches_kind(self, k: NumericKind) -> bool {
        match self {
            SampleValue::Int64(_) => k is Int64,
            SampleValue::UInt64(_) => k is UInt64,
            SampleValue::Double(_) => k is Float64,
        }
    }
}

/// One sum or gauge sample.
#[derive(Debug)]
pub struct NumberDataPoint {
    pub attributes: Vec<Attribute>,
    pub value: SampleValue,
}

/// One histogram sample.  `mean` carries `sum / count`, computed by the
/// caller in floating point; it is ignored when `count` is zero, where the
/// translated mean is exactly +0.0.
#[derive(Debug)]
pub struct HistogramDataPoint {
    pub attributes: Vec<Attribute>,
    pub count: u64,
    pub mean: DoubleBits,
    pub bounds: Vec<DoubleBits>,
    pub bucket_counts: Vec<u64>,
}

pub open spec fn sum_u64(s: Seq<u64>) -> int
    decreases s.len(),
{
    if s.len() == 0 {
        0
    } else {
        sum_u64(s.drop_last()) + s.last()
    }
}

impl HistogramDataPoint {
    /// What the SDK guarantees of an aggregated histogram point: N bounds
    /// define N+1 buckets, the bucket counts sum to the sample count, and
    /// the count fits the wire's signed field.
    pub open spec fn wf(&self) -> bool {
        &&& self.bucket_counts@.len() == self.bounds@.len() + 1
        &&& sum_u64(self.bucket_counts@) == self.count
        &&& self.count <= i64::MAX
    }
}

/// The shape-specific part of one metric's snapshot.
#[derive(Debug)]
#[allow(inconsistent_fields)]
pub enum MetricPayload {
    Sum {
        is_monotonic: bool,
        start_nanos: u128,
        end_nanos: u128,
        points: Vec<NumberDataPoint>,
    },
    Gauge {
        start_nanos: Option<u128>,
        end_nanos: u128,
        points: Vec<NumberDataPoint>,
    },
    Histogram { start_nanos: u128, end_nanos: u128, points: Vec<HistogramDataPoint> },
    /// Unsupported: dropped silently by the orchestrator, but still
    /// classified for descriptor purposes.
    ExponentialHistogram,
}

impl MetricPayload {
    pub open spec fn wf(&self, kind: NumericKind) -> bool {
        match *self {
            MetricPayload::Sum { start_nanos, end_nanos, points, .. } => {
                &&& fits_wire_time(start_nanos)
                &&& fits_wire_time(end_nanos)
                &&& forall|i: int|
                    0 <= i < points@.len() ==> (#[trigger] points@[i].value).matches_kind(kind)
            },
            MetricPayload::Gauge { start_nanos, end_nanos, points } => {
                &&& match start_nanos {
                    Some(n) => fits_wire_time(n),
                    None => true,
                }
                &&& fits_wire_time(end_nanos)
                &&& forall|i: int|
                    0 <= i < points@.len() ==> (#[trigger] points@[i].value).matches_kind(kind)
            },
            MetricPayload::Histogram { start_nanos, end_nanos, points } => {
                &&& fits_wire_time(start_nanos)
                &&& fits_wire_time(end_nanos)
                &&& forall|i: int| 0 <= i < points@.len() ==> (#[trigger] points@[i]).wf()
            },
            MetricPayload::ExponentialHistogram => true,
        }
    }
}

/// One named instrument's full snapshot for an export cycle.
#[derive(Debug)]
pub struct AggregatedMetric {
    pub name: String,
    pub description: String,
    pub unit: String,
    pub numeric_kind: NumericKind,
    pub payload: MetricPayload,
}

impl AggregatedMetric {
    pub open spec fn wf(&self) -> bool {
        self.payload.wf(self.numeric_kind)
    }
}

/// The metrics of one instrumentation scope.
#[derive(Debug)]
pub struct ScopeMetrics {
    pub metrics: Vec<AggregatedMetric>,
}

/// A whole snapshot: every scope's metrics for one export cycle.
#[derive(Debug)]
pub struct MetricsSnapshot {
    pub scopes: Vec<ScopeMetrics>,
}

/// Normalizes one attribute into a label-map entry: the key is normalized,
/// the value passes through.
pub fn kv_map_normalize_k_v(kv: &Attribute) -> (r: (String, String))
    ensures
        r.0@ == spec_normalize(kv.key@),
        r.1@ == kv.value@,
{
    (normalize_label_key(kv.key.as_str()), kv.value.clone())
}

/// The raw (unnormalized) key of one attribute.
pub fn kv_map_k(kv: &Attribute) -> (r: String)
    ensures
        r@ == kv.key@,
{
    kv.key.clone()
}

/// Appends `k` to `acc` unless it is already present.
pub open spec fn spec_insert_key(acc: Seq<Seq<char>>, k: Seq<char>) -> Seq<Seq<char>> {
    if acc.contains(k) {
        acc
    } else {
        acc.push(k)
    }
}

/// The raw keys of one attribute list folded into an accumulator,
/// first occurrence first.
pub open spec fn spec_fold_attr_keys(acc: Seq<Seq<char>>, attrs: Seq<Attribute>) -> Seq<Seq<char>>
    decreases attrs.len(),
{
    if attrs.len() == 0 {
        acc
    } else {
        spec_fold_attr_keys(spec_insert_key(acc, attrs.first().key@), attrs.drop_first())
    }
}

pub open spec fn spec_fold_number_points(
    acc: Seq<Seq<char>>,
    points: Seq<NumberDataPoint>,
) -> Seq<Seq<char>>
    decreases points.len(),
{
    if points.len() == 0 {
        acc
    } else {
        spec_fold_number_points(
            spec_fold_attr_keys(acc, points.first().attributes@),
            points.drop_first(),
        )
    }
}

pub open spec fn spec_fold_histogram_points(
    acc: Seq<Seq<char>>,
    points: Seq<HistogramDataPoint>,
) -> Seq<Seq<char>>
    decreases points.len(),
{
    if points.len() == 0 {
        acc
    } else {
        spec_fold_histogram_points(
            spec_fold_attr_keys(acc, points.first().attributes@),
            points.drop_first(),
        )
    }
}

/// The distinct raw attribute keys seen across all of a payload's data
/// points, in order of first occurrence.
pub open spec fn spec_payload_keys(p: &MetricPayload) -> Seq<Seq<char>> {
    match *p {
        MetricPayload::Sum { points, .. } => spec_fold_number_points(Seq::empty(), points@),
        MetricPayload::Gauge { points, .. } => spec_fold_number_points(Seq::empty(), points@),
        MetricPayload::Histogram { points, .. } => spec_fold_histogram_points(
            Seq::empty(),
            points@,
        ),
        MetricPayload::ExponentialHistogram => Seq::empty(),
    }
}

proof fn lemma_fold_attr_keys_push(acc: Seq<Seq<char>>, attrs: Seq<Attribute>, a: Attribute)
    ensures
        spec_fold_attr_keys(acc, attrs.push(a)) == spec_insert_key(
            spec_fold_attr_keys(acc, attrs),
            a.key@,
        ),
    decreases attrs.len(),
{
    if attrs.len() == 0 {
        assert(attrs.push(a).drop_first() =~= Seq::<Attribute>::empty());
        assert(attrs.push(a).first() == a);
        assert(spec_fold_attr_keys(acc, attrs.push(a)) == spec_fold_attr_keys(
            spec_insert_key(acc, a.key@),
            Seq::<Attribute>::empty(),
        ));
        assert(spec_fold_attr_keys(acc, attrs) == acc);
    } else {
        let acc1 = spec_insert_key(acc, attrs.first().key@);
        assert(attrs.push(a).first() == attrs.first());
        assert(attrs.push(a).drop_first() =~= attrs.drop_first().push(a));
        assert(spec_fold_attr_keys(acc, attrs.push(a)) == spec_fold_attr_keys(
            acc1,
            attrs.drop_first().push(a),
        ));
        lemma_fold_attr_keys_push(acc1, attrs.drop_first(), a);
        assert(spec_fold_attr_keys(acc, attrs) == spec_fold_attr_keys(acc1, attrs.drop_first()));
    }
}

proof fn lemma_fold_number_points_push(
    acc: Seq<Seq<char>>,
    points: Seq<NumberDataPoint>,
    p: NumberDataPoint,
)
    ensures
        spec_fold_number_points(acc, points.push(p)) == spec_fold_attr_keys(
            spec_fold_number_points(acc, points),
            p.attributes@,
        ),
    decreases points.len(),
{
    if points.len() == 0 {
        assert(points.push(p).drop_first() =~= Seq::<NumberDataPoint>::empty());
        assert(points.push(p).first() == p);
        assert(spec_fold_number_points(acc, points.push(p)) == spec_fold_number_points(
            spec_fold_attr_keys(acc, p.attributes@),
            Seq::<NumberDataPoint>::empty(),
        ));
        assert(spec_fold_number_points(acc, points) == acc);
    } else {
        let acc1 = spec_fold_attr_keys(acc, points.first().attributes@);
        assert(points.push(p).first() == points.first());
        assert(points.push(p).drop_first() =~= points.drop_first().push(p));
        assert(spec_fold_number_points(acc, points.push(p)) == spec_fold_number_points(
            acc1,
            points.drop_first().push(p),
        ));
        lemma_fold_number_points_push(acc1, points.drop_first(), p);
        assert(spec_fold_number_points(acc, points) == spec_fold_number_points(
            acc1,
            points.drop_first(),
        ));
    }
}

proof fn lemma_fold_histogram_points_push(
    acc: Seq<Seq<char>>,
    points: Seq<HistogramDataPoint>,
    p: HistogramDataPoint,
)
    ensures
        spec_fold_histogram_points(acc, points.push(p)) == spec_fold_attr_keys(
            spec_fold_histogram_points(acc, points),
            p.attributes@,
        ),
    decreases points.len(),
{
    if points.len() == 0 {
        assert(points.push(p).drop_first() =~= Seq::<HistogramDataPoint>::empty());
        assert(points.push(p).first() == p);
        assert(spec_fold_histogram_points(acc, points.push(p)) == spec_fold_histogram_points(
            spec_fold_attr_keys(acc, p.attributes@),
            Seq::<HistogramDataPoint>::empty(),
        ));
        assert(spec_fold_histogram_points(acc, points) == acc);
    } else {
        let acc1 = spec_fold_attr_keys(acc, points.first().attributes@);
        assert(points.push(p).first() == points.first());
        assert(points.push(p).drop_first() =~= points.drop_first().push(p));
        assert(spec_fold_histogram_points(acc, points.push(p)) == spec_fold_histogram_points(
            acc1,
            points.drop_first().push(p),
        ));
        lemma_fold_histogram_points_push(acc1, points.drop_first(), p);
        assert(spec_fold_histogram_points(acc, points) == spec_fold_histogram_points(
            acc1,
            points.drop_first(),
        ));
    }
}

/// Whether some element of `v` views as `s@`.
fn contains_string(v: &Vec<String>, s: &String) -> (r: bool)
    ensures
        r == v.deep_view().contains(s@),
{
    let n = v.len();
    let mut i: usize = 0;
    while i < n
        invariant
            n == v.len(),
            i <= n,
            forall|j: int| 0 <= j < i ==> v.deep_view()[j] != s@,
        decreases n - i,
    {
        if v[i] == *s {
            assert(v.deep_view()[i as int] == s@);
            return true;
        }
        i = i + 1;
    }
    false
}

/// Folds the raw keys of one attribute list into `keys`, skipping keys that
/// are already present.
fn fold_attr_keys(keys: &mut Vec<String>, attrs: &Vec<Attribute>)
    ensures
        final(keys).deep_view() == spec_fold_attr_keys(old(keys).deep_view(), attrs@),
{
    let n = attrs.len();
    let mut j: usize = 0;
    while j < n
        invariant
            n == attrs@.len(),
            j <= n,
            keys.deep_view() == spec_fold_attr_keys(old(keys).deep_view(), attrs@.take(j as int)),
        decreases n - j,
    {
        let ghost prev = keys.deep_view();
        let k = kv_map_k(&attrs[j]);
        if !contains_string(keys, &k) {
            keys.push(k);
            proof {
                assert(keys.deep_view() =~= prev.push(attrs@[j as int].key@));
            }
        }
        proof {
            assert(keys.deep_view() == spec_insert_key(prev, attrs@[j as int].key@));
            lemma_fold_attr_keys_push(old(keys).deep_view(), attrs@.take(j as int), attrs@[j as int]);
            assert(attrs@.take(j as int).push(attrs@[j as int]) =~= attrs@.take(j as int + 1));
        }
        j = j + 1;
    }
    proof {
        assert(attrs@.take(n as int) =~= attrs@);
    }
}

/// The set of raw attribute keys across all of a payload's data points,
/// deduplicated, in order of first occurrence.
pub fn get_data_points_attributes_keys(data: &MetricPayload) -> (keys: Vec<String>)
    ensures
        keys.deep_view() == spec_payload_keys(data),
{
    let mut keys: Vec<String> = Vec::new();
    match data {
        MetricPayload::Sum { points, .. } => {
            let n = points.len();
            let mut i: usize = 0;
            while i < n
                invariant
                    n == points@.len(),
                    i <= n,
                    keys.deep_view() == spec_fold_number_points(
                        Seq::<Seq<char>>::empty(),
                        points@.take(i as int),
                    ),
                decreases n - i,
            {
                fold_attr_keys(&mut keys, &points[i].attributes);
                proof {
                    lemma_fold_number_points_push(
                        Seq::<Seq<char>>::empty(),
                        points@.take(i as int),
                        points@[i as int],
                    );
                    assert(points@.take(i as int).push(points@[i as int]) =~= points@.take(
                        i as int + 1,
                    ));
                }
                i = i + 1;
            }
            proof {
                assert(points@.take(n as int) =~= points@);
            }
        },
        MetricPayload::Gauge { points, .. } => {
            let n = points.len();
            let mut i: usize = 0;
            while i < n
                invariant
                    n == points@.len(),
                    i <= n,
                    keys.deep_view() == spec_fold_number_points(
                        Seq::<Seq<char>>::empty(),
                        points@.take(i as int),
                    ),
                decreases n - i,
            {
                fold_attr_keys(&mut keys, &points[i].attributes);
                proof {
                    lemma_fold_number_points_push(
                        Seq::<Seq<char>>::empty(),
                        points@.take(i as int),
                        points@[i as int],
                    );
                    assert(points@.take(i as int).push(points@[i as int]) =~= points@.take(
                        i as int + 1,
                    ));
                }
                i = i + 1;
            }
            proof {
                assert(points@.take(n as int) =~= points@);
            }
        },
        MetricPayload::Histogram { points, .. } => {
            let n = points.len();
            let mut i: usize = 0;
            while i < n
                invariant
                    n == points@.len(),
                    i <= n,
                    keys.deep_view() == spec_fold_histogram_points(
                        Seq::<Seq<char>>::empty(),
                        points@.take(i as int),
                    ),
                decreases n - i,
            {
                fold_attr_keys(&mut keys, &points[i].attributes);
                proof {
                    lemma_fold_histogram_points_push(
                        Seq::<Seq<char>>::empty(),
                        points@.take(i as int),
                        points@[i as int],
                    );
                    assert(points@.take(i as int).push(points@[i as int]) =~= points@.take(
                        i as int + 1,
                    ));
                }
                i = i + 1;
            }
            proof {
                assert(points@.take(n as int) =~= points@);
            }
        },
        MetricPayload::ExponentialHistogram => {},
    }
    keys
}

} // verus!
