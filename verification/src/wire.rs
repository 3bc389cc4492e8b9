//! The backend's wire schema, modeled with plain values.
//!
//! Floating-point wire fields (double values, histogram means, bucket
//! boundaries) are carried as IEEE 754 bit patterns in [`DoubleBits`]; the
//! library moves them through unchanged and never does float arithmetic.

use vstd::prelude::*;

verus! {

/// An IEEE 754 double, held as its raw bit pattern.  The all-zero pattern
/// is exactly +0.0.
#[derive(Clone, Copy, Debug, PartialEq, Eq, Structural)]
pub struct DoubleBits {
    pub bits: u64,
}

impl DoubleBits {
    /// The bit pattern of +0.0.
    pub open spec fn spec_zero() -> DoubleBits {
        DoubleBits { bits: 0 }
    }

    pub fn zero() -> (r: DoubleBits)
        ensures
            r == DoubleBits::spec_zero(),
    {
        DoubleBits { bits: 0 }
    }
}

/// A wire timestamp: whole seconds since the epoch and residual nanoseconds.
#[derive(Clone, Copy, Debug, PartialEq, Eq, Structural)]
pub struct Timestamp {
    pub seconds: i64,
    pub nanos: i32,
}

/// How a metric's values relate to time.
#[derive(Clone, Copy, Debug, PartialEq, Eq, Structural)]
pub enum MetricKind {
    Unspecified,
    Gauge,
    Delta,
    Cumulative,
}

/// The wire type of a metric's values.
#[derive(Clone, Copy, Debug, PartialEq, Eq, Structural)]
pub enum ValueType {
    Int64,
    Double,
    Distribution,
}

/// The interval a point covers.  Gauge points are instants: only the end is
/// set.  Cumulative and delta points carry both ends.
#[derive(Clone, Copy, Debug, PartialEq, Eq, Structural)]
pub struct TimeInterval {
    pub start_time: Option<Timestamp>,
    pub end_time: Option<Timestamp>,
}

/// A label map: normalized keys to stringified values.  Keys are unique;
/// inserting an existing key replaces its value, as the backend's map
/// semantics require.
#[derive(Debug)]
pub struct LabelMap {
    entries: Vec<(String, String)>,
}

/// The map denoted by an entry list, later entries winning.
pub open spec fn entries_map(s: Seq<(String, String)>) -> Map<Seq<char>, Seq<char>>
    decreases s.len(),
{
    if s.len() == 0 {
        Map::empty()
    } else {
        entries_map(s.drop_last()).insert(s.last().0@, s.last().1@)
    }
}

pub open spec fn unique_entry_keys(s: Seq<(String, String)>) -> bool {
    forall|i: int, j: int| #![trigger s[i].0@, s[j].0@] 0 <= i < j < s.len() ==> s[i].0@ != s[j].0@
}

impl View for LabelMap {
    type V = Map<Seq<char>, Seq<char>>;

    closed spec fn view(&self) -> Map<Seq<char>, Seq<char>> {
        entries_map(self.entries@)
    }
}

proof fn lemma_entries_map_contains(s: Seq<(String, String)>, k: Seq<char>)
    ensures
        entries_map(s).contains_key(k) <==> exists|i: int| 0 <= i < s.len() && s[i].0@ == k,
    decreases s.len(),
{
    if s.len() > 0 {
        lemma_entries_map_contains(s.drop_last(), k);
        if entries_map(s).contains_key(k) {
            if s.last().0@ == k {
                assert(s[s.len() - 1].0@ == k);
            } else {
                let i = choose|i: int| 0 <= i < s.drop_last().len() && s.drop_last()[i].0@ == k;
                assert(s[i].0@ == k);
            }
        }
        if exists|i: int| 0 <= i < s.len() && s[i].0@ == k {
            let i = choose|i: int| 0 <= i < s.len() && s[i].0@ == k;
            if i < s.len() - 1 {
                assert(s.drop_last()[i].0@ == k);
            }
        }
    }
}

proof fn lemma_entries_map_index(s: Seq<(String, String)>, i: int)
    requires
        unique_entry_keys(s),
        0 <= i < s.len(),
    ensures
        entries_map(s).contains_key(s[i].0@),
        entries_map(s)[s[i].0@] == s[i].1@,
    decreases s.len(),
{
    lemma_entries_map_contains(s, s[i].0@);
    if i == s.len() - 1 {
    } else {
        assert(unique_entry_keys(s.drop_last())) by {
            assert(forall|x: int, y: int|
                #![trigger s.drop_last()[x].0@, s.drop_last()[y].0@]
                0 <= x < y < s.drop_last().len() ==> s.drop_last()[x].0@ != s.drop_last()[y].0@);
        }
        assert(s.drop_last()[i] == s[i]);
        lemma_entries_map_index(s.drop_last(), i);
        assert(s[i].0@ != s.last().0@);
    }
}

proof fn lemma_entries_map_remove(s: Seq<(String, String)>, i: int)
    requires
        unique_entry_keys(s),
        0 <= i < s.len(),
    ensures
        entries_map(s.remove(i)) =~= entries_map(s).remove(s[i].0@),
    decreases s.len(),
{
    lemma_entries_map_contains(s.drop_last(), s[i].0@);
    if i == s.len() - 1 {
        assert(s.remove(i) =~= s.drop_last());
        assert(!entries_map(s.drop_last()).contains_key(s[i].0@));
        assert(entries_map(s.drop_last()).insert(s.last().0@, s.last().1@).remove(s[i].0@)
            =~= entries_map(s.drop_last()));
    } else {
        assert(unique_entry_keys(s.drop_last())) by {
            assert(forall|x: int, y: int|
                #![trigger s.drop_last()[x].0@, s.drop_last()[y].0@]
                0 <= x < y < s.drop_last().len() ==> s.drop_last()[x].0@ != s.drop_last()[y].0@);
        }
        assert(s.drop_last()[i] == s[i]);
        lemma_entries_map_remove(s.drop_last(), i);
        assert(s.remove(i).drop_last() =~= s.drop_last().remove(i));
        assert(s.remove(i).last() == s.last());
        assert(s[i].0@ != s.last().0@);
        assert(entries_map(s.remove(i)) == entries_map(s.drop_last().remove(i)).insert(
            s.last().0@,
            s.last().1@,
        ));
    }
}

impl LabelMap {
    /// Keys are pairwise distinct.
    pub closed spec fn wf(&self) -> bool {
        unique_entry_keys(self.entries@)
    }

    pub fn new() -> (r: LabelMap)
        ensures
            r.wf(),
            r@ == Map::<Seq<char>, Seq<char>>::empty(),
    {
        LabelMap { entries: Vec::new() }
    }

    /// Binds `k` to `v`, replacing any previous binding of `k`.
    pub fn insert(&mut self, k: String, v: String)
        requires
            old(self).wf(),
        ensures
            final(self).wf(),
            final(self)@ == old(self)@.insert(k@, v@),
    {
        let ghost orig = self.entries@;
        let n = self.entries.len();
        let mut i: usize = 0;
        let mut found = false;
        while i < n && !found
            invariant
                self.entries@ == orig,
                n == orig.len(),
                i <= n,
                !found ==> forall|j: int| 0 <= j < i ==> orig[j].0@ != k@,
                found ==> i < n && orig[i as int].0@ == k@,
            decreases n - i + (if found { 0int } else { 1int }),
        {
            if self.entries[i].0 == k {
                found = true;
            } else {
                i = i + 1;
            }
        }
        if found {
            self.entries.remove(i);
            proof {
                lemma_entries_map_remove(orig, i as int);
            }
        } else {
            proof {
                lemma_entries_map_contains(orig, k@);
                assert(!entries_map(orig).contains_key(k@));
                assert(entries_map(orig).remove(k@) =~= entries_map(orig));
            }
        }
        let ghost trimmed = self.entries@;
        self.entries.push((k, v));
        proof {
            assert(self.entries@.drop_last() =~= trimmed);
            assert(entries_map(self.entries@) == entries_map(trimmed).insert(k@, v@));
            assert(entries_map(trimmed) =~= entries_map(orig).remove(k@));
            assert(entries_map(orig).remove(k@).insert(k@, v@) =~= entries_map(orig).insert(
                k@,
                v@,
            ));
            // uniqueness is kept: every surviving key differs from k
            assert forall|x: int, y: int|
                #![trigger self.entries@[x].0@, self.entries@[y].0@]
                0 <= x < y < self.entries@.len() implies self.entries@[x].0@
                != self.entries@[y].0@ by {
                if found {
                    if y < self.entries@.len() - 1 {
                        assert(self.entries@[x] == orig.remove(i as int)[x]);
                        assert(self.entries@[y] == orig.remove(i as int)[y]);
                    } else {
                        assert(self.entries@[x] == orig.remove(i as int)[x]);
                        if x < i {
                            assert(orig.remove(i as int)[x] == orig[x]);
                            assert(orig[x].0@ != k@);
                        } else {
                            assert(orig.remove(i as int)[x] == orig[x + 1]);
                            assert(orig[x + 1].0@ != k@);
                        }
                    }
                } else {
                    if y < self.entries@.len() - 1 {
                    } else {
                        assert(self.entries@[x] == orig[x]);
                        assert(orig[x].0@ != k@);
                    }
                }
            }
        }
    }

    /// The value bound to `k`, if any.
    pub fn get_label<'a>(&'a self, k: &String) -> (r: Option<&'a String>)
        requires
            self.wf(),
        ensures
            match r {
                Some(v) => self@.contains_key(k@) && v@ == self@[k@],
                None => !self@.contains_key(k@),
            },
    {
        let n = self.entries.len();
        let mut i: usize = 0;
        while i < n
            invariant
                n == self.entries@.len(),
                i <= n,
                self.wf(),
                forall|j: int| 0 <= j < i ==> self.entries@[j].0@ != k@,
            decreases n - i,
        {
            if self.entries[i].0 == *k {
                proof {
                    lemma_entries_map_index(self.entries@, i as int);
                }
                return Some(&self.entries[i].1);
            }
            i = i + 1;
        }
        proof {
            lemma_entries_map_contains(self.entries@, k@);
        }
        None
    }

    /// The entries as key/value pairs, one per bound key.
    pub fn entry_pairs(&self) -> (r: &Vec<(String, String)>)
        requires
            self.wf(),
        ensures
            r@.len() == self@.dom().len(),
            forall|i: int|
                0 <= i < r@.len() ==> self@.contains_key(#[trigger] r@[i].0@) && self@[r@[i].0@]
                    == r@[i].1@,
    {
        proof {
            lemma_entries_map_card(self.entries@);
            assert forall|i: int| 0 <= i < self.entries@.len() implies entries_map(
                self.entries@,
            ).contains_key(#[trigger] self.entries@[i].0@) && entries_map(self.entries@)[
                self.entries@[i].0@] == self.entries@[i].1@ by {
                lemma_entries_map_index(self.entries@, i);
            }
        }
        &self.entries
    }

    /// A copy denoting the same map.
    pub fn clone_map(&self) -> (r: LabelMap)
        ensures
            r.wf(),
            r@ == self@,
    {
        let mut r = LabelMap::new();
        let n = self.entries.len();
        let mut i: usize = 0;
        while i < n
            invariant
                n == self.entries@.len(),
                i <= n,
                r.wf(),
                r@ == entries_map(self.entries@.take(i as int)),
            decreases n - i,
        {
            r.insert(self.entries[i].0.clone(), self.entries[i].1.clone());
            proof {
                assert(self.entries@.take(i as int + 1).drop_last() =~= self.entries@.take(
                    i as int,
                ));
                assert(self.entries@.take(i as int + 1).last() == self.entries@[i as int]);
            }
            i = i + 1;
        }
        proof {
            assert(self.entries@.take(n as int) =~= self.entries@);
        }
        r
    }

    /// How many keys are bound.
    pub fn label_count(&self) -> (n: usize)
        requires
            self.wf(),
        ensures
            n == self@.dom().len(),
    {
        proof {
            lemma_entries_map_card(self.entries@);
        }
        self.entries.len()
    }
}

proof fn lemma_entries_map_card(s: Seq<(String, String)>)
    requires
        unique_entry_keys(s),
    ensures
        entries_map(s).dom().finite(),
        entries_map(s).dom().len() == s.len(),
    decreases s.len(),
{
    if s.len() > 0 {
        assert(unique_entry_keys(s.drop_last())) by {
            assert(forall|x: int, y: int|
                #![trigger s.drop_last()[x].0@, s.drop_last()[y].0@]
                0 <= x < y < s.drop_last().len() ==> s.drop_last()[x].0@ != s.drop_last()[y].0@);
        }
        lemma_entries_map_card(s.drop_last());
        lemma_entries_map_contains(s.drop_last(), s.last().0@);
        assert(!entries_map(s.drop_last()).contains_key(s.last().0@));
    }
}

/// One rendered metric: its type string and its label map.
#[derive(Debug)]
pub struct Metric {
    pub metric_type: String,
    pub labels: LabelMap,
}

/// The monitored entity a time series belongs to.
#[derive(Debug)]
pub struct MonitoredResource {
    pub resource_type: String,
    pub labels: LabelMap,
}

/// The backend's histogram representation.  The summary statistic
/// `sum_of_squared_deviation` is always reported as zero: this exporter
/// deliberately does not compute it.
#[derive(Debug)]
pub struct Distribution {
    pub count: i64,
    pub mean: DoubleBits,
    pub sum_of_squared_deviation: DoubleBits,
    pub bounds: Vec<DoubleBits>,
    pub bucket_counts: Vec<i64>,
}

/// One typed wire value.
#[derive(Debug)]
pub enum TypedValue {
    Int64Value(i64),
    DoubleValue(DoubleBits),
    DistributionValue(Distribution),
}

/// One wire point: an interval and a value.
#[derive(Debug)]
pub struct Point {
    pub interval: TimeInterval,
    pub value: TypedValue,
}

/// One data point rendered into backend form.
#[derive(Debug)]
pub struct TimeSeries {
    pub resource: Option<MonitoredResource>,
    pub metric: Metric,
    pub metric_kind: MetricKind,
    pub value_type: ValueType,
    pub points: Vec<Point>,
    pub unit: String,
}

/// Backend-registered metadata for one metric type: its kind, value type
/// and the label keys its points may carry.
#[derive(Debug)]
pub struct MetricDescriptor {
    pub metric_type: String,
    pub display_name: String,
    pub description: String,
    pub unit: String,
    pub label_keys: Vec<String>,
    pub metric_kind: MetricKind,
    pub value_type: ValueType,
}

} // verus!
