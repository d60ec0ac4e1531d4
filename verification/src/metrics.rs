//! The metric registry: a collection of named counters, gauges and
//! histograms with label dimensions, mutated through per-metric operations
//! and scraped through a text exposition format.

use vstd::prelude::*;

use crate::assoc::{
    assoc_map,
    distinct_keys,
    updated_entries,
    lemma_updated_entries,
    lemma_assoc_map_update,
    lemma_assoc_map_index,
    lemma_assoc_map_absent,
    lemma_assoc_map_absent_keys,
};
use crate::text::{
    str_eq,
    push_char,
    spec_dec,
    spec_dec_signed,
    append_dec_u64,
    append_dec_i64,
    dec_u64_string,
};

verus! {

/// The view of a vector of label strings.
pub open spec fn labels_view(v: Seq<String>) -> Seq<Seq<char>> {
    v.map_values(|s: String| s@)
}

/// The kind of a metric, fixed at registration. A histogram carries its
/// bucket upper bounds.
pub enum MetricKind {
    Counter,
    Gauge,
    Histogram(Vec<u64>),
}

/// The kind's mathematical content.
pub enum KindData {
    Counter,
    Gauge,
    Histogram(Seq<u64>),
}

impl View for MetricKind {
    type V = KindData;

    open spec fn view(&self) -> KindData {
        match self {
            MetricKind::Counter => KindData::Counter,
            MetricKind::Gauge => KindData::Gauge,
            MetricKind::Histogram(b) => KindData::Histogram(b@),
        }
    }
}

/// The identity of a metric: name, help text, label names, and kind.
pub struct MetricDef {
    pub name: String,
    pub help: String,
    pub label_names: Vec<String>,
    pub kind: MetricKind,
}

/// The current value of one series.
///
/// A histogram stores cumulative bucket counts: `bucket_counts[i]` counts
/// the observations at or under the i-th bucket bound, `count` counts all
/// observations, and `sum` is their total.
pub enum SeriesValue {
    Counter(u64),
    Gauge(i64),
    Histogram { bucket_counts: Vec<u64>, sum: u64, count: u64 },
}

/// A series value's mathematical content.
pub enum ValueData {
    Counter(u64),
    Gauge(i64),
    Histogram { bucket_counts: Seq<u64>, sum: u64, count: u64 },
}

impl View for SeriesValue {
    type V = ValueData;

    open spec fn view(&self) -> ValueData {
        match self {
            SeriesValue::Counter(c) => ValueData::Counter(*c),
            SeriesValue::Gauge(g) => ValueData::Gauge(*g),
            SeriesValue::Histogram { bucket_counts, sum, count } => ValueData::Histogram {
                bucket_counts: bucket_counts@,
                sum: *sum,
                count: *count,
            },
        }
    }
}

/// One series: a distinct combination of label values and its value.
struct Series {
    labels: Vec<String>,
    value: SeriesValue,
}

/// One registered metric: its definition and every observed series.
struct Metric {
    def: MetricDef,
    series: Vec<Series>,
}

/// A metric's mathematical content.
pub struct MetricData {
    pub name: Seq<char>,
    pub help: Seq<char>,
    pub label_names: Seq<Seq<char>>,
    pub kind: KindData,
    pub series: Seq<(Seq<Seq<char>>, ValueData)>,
}

impl View for Metric {
    type V = MetricData;

    closed spec fn view(&self) -> MetricData {
        MetricData {
            name: self.def.name@,
            help: self.def.help@,
            label_names: labels_view(self.def.label_names@),
            kind: self.def.kind@,
            series: self.series@.map_values(|s: Series| (labels_view(s.labels@), s.value@)),
        }
    }
}

/// A process-wide collection of named metrics. A name is registered at
/// most once; all mutation is through per-metric increment, set and
/// observe operations, never a destructive reset.
pub struct Registry {
    metrics: Vec<Metric>,
}

/// Whether one series value is well formed for its metric's kind.
pub open spec fn value_wf(kind: KindData, v: ValueData) -> bool {
    match v {
        ValueData::Counter(_) => kind is Counter,
        ValueData::Gauge(_) => kind is Gauge,
        ValueData::Histogram { bucket_counts, sum, count } => {
            &&& kind matches KindData::Histogram(bounds) && bucket_counts.len() == bounds.len()
            &&& forall|i: int| 0 <= i < bucket_counts.len() ==> #[trigger] bucket_counts[i] <= count
        },
    }
}

/// Whether a metric sequence is well formed: metric names are unique,
/// each entry is keyed by its own name, and every metric is well formed.
pub open spec fn entries_wf(s: Seq<(Seq<char>, MetricData)>) -> bool {
    &&& distinct_keys(s)
    &&& forall|i: int| 0 <= i < s.len() ==> (#[trigger] s[i]).0 == s[i].1.name
    &&& forall|i: int| 0 <= i < s.len() ==> metric_wf((#[trigger] s[i]).1)
}

/// Whether a metric's series are well formed: label tuples are unique,
/// each has one value per label name, and each value fits the kind.
pub open spec fn metric_wf(m: MetricData) -> bool {
    &&& distinct_keys(m.series)
    &&& forall|i: int|
        0 <= i < m.series.len() ==> (#[trigger] m.series[i]).0.len() == m.label_names.len()
    &&& forall|i: int| 0 <= i < m.series.len() ==> value_wf(m.kind, (#[trigger] m.series[i]).1)
}

impl Registry {
    /// The registered metrics in registration order.
    pub closed spec fn entries(self) -> Seq<(Seq<char>, MetricData)> {
        self.metrics@.map_values(|m: Metric| (m@.name, m@))
    }

    /// The registry's content, metric name to metric.
    pub open spec fn metrics(self) -> Map<Seq<char>, MetricData> {
        assoc_map(self.entries())
    }

    /// Well-formedness: metric names are unique, each entry is keyed by
    /// its own name, and every metric is well formed.
    pub open spec fn wf(self) -> bool {
        entries_wf(self.entries())
    }

    /// The stored value of one series, `None` when the metric or the
    /// label combination was never touched.
    pub open spec fn series_data(self, name: Seq<char>, labels: Seq<Seq<char>>) -> Option<
        ValueData,
    > {
        if self.metrics().dom().contains(name) {
            let series = assoc_map(self.metrics()[name].series);
            if series.dom().contains(labels) {
                Some(series[labels])
            } else {
                None
            }
        } else {
            None
        }
    }

    /// The value of a counter series, zero when nothing was counted yet.
    pub open spec fn counter_value(self, name: Seq<char>, labels: Seq<Seq<char>>) -> int {
        match self.series_data(name, labels) {
            Some(ValueData::Counter(c)) => c as int,
            _ => 0,
        }
    }

    /// The value of a gauge series, zero when never set.
    pub open spec fn gauge_value(self, name: Seq<char>, labels: Seq<Seq<char>>) -> int {
        match self.series_data(name, labels) {
            Some(ValueData::Gauge(g)) => g as int,
            _ => 0,
        }
    }

    /// The observation total of a histogram series, zero when empty.
    pub open spec fn histogram_sum(self, name: Seq<char>, labels: Seq<Seq<char>>) -> int {
        match self.series_data(name, labels) {
            Some(ValueData::Histogram { sum, .. }) => sum as int,
            _ => 0,
        }
    }

    /// The observation count of a histogram series, zero when empty.
    pub open spec fn histogram_count(self, name: Seq<char>, labels: Seq<Seq<char>>) -> int {
        match self.series_data(name, labels) {
            Some(ValueData::Histogram { count, .. }) => count as int,
            _ => 0,
        }
    }

    /// The cumulative bucket counts of a histogram series, all zero when
    /// empty.
    pub open spec fn histogram_buckets(self, name: Seq<char>, labels: Seq<Seq<char>>) -> Seq<u64> {
        match self.series_data(name, labels) {
            Some(ValueData::Histogram { bucket_counts, .. }) => bucket_counts,
            _ => zero_counts(kind_bounds(self.metrics()[name].kind).len()),
        }
    }

    /// An empty registry.
    pub fn new() -> (r: Registry)
        ensures
            r.wf(),
            r.metrics() == Map::<Seq<char>, MetricData>::empty(),
            r.entries() == Seq::<(Seq<char>, MetricData)>::empty(),
    {
        let r = Registry { metrics: Vec::new() };
        proof {
            assert(r.entries() =~= Seq::<(Seq<char>, MetricData)>::empty());
        }
        r
    }

    /// The index of the metric named `name`.
    #[verifier::loop_isolation(false)]
    fn index_of(&self, name: &str) -> (r: Option<usize>)
        ensures
            match r {
                Some(idx) => idx < self.entries().len() && self.entries()[idx as int].0 == name@,
                None => !self.metrics().dom().contains(name@),
            },
    {
        let n = self.metrics.len();
        let mut i: usize = 0;
        while i < n
            invariant
                i <= n,
                n == self.metrics@.len(),
                forall|j: int| 0 <= j < i ==> self.entries()[j].0 != name@,
            decreases n - i,
        {
            if str_eq(self.metrics[i].def.name.as_str(), name) {
                return Some(i);
            }
            i += 1;
        }
        proof {
            lemma_assoc_map_absent(self.entries(), name@);
        }
        None
    }

    /// Whether a metric of this name is registered.
    pub fn has_metric(&self, name: &str) -> (r: bool)
        ensures
            r == self.metrics().dom().contains(name@),
    {
        match self.index_of(name) {
            Some(idx) => {
                proof {
                    crate::assoc::lemma_assoc_map_present(self.entries(), idx as int);
                }
                true
            },
            None => false,
        }
    }

    /// Registers a metric definition with no series yet. Fails exactly
    /// when the name is already registered, and then changes nothing.
    pub fn register(&mut self, def: MetricDef) -> (r: Result<(), DuplicateMetricName>)
        requires
            old(self).wf(),
        ensures
            final(self).wf(),
            r is Ok <==> !old(self).metrics().dom().contains(def.name@),
            r is Ok ==> final(self).entries() == old(self).entries().push(
                (def.name@, def_data(def)),
            ) && final(self).metrics() == old(self).metrics().insert(def.name@, def_data(def)),
            r is Err ==> *final(self) == *old(self),
    {
        let ghost pre = self.entries();
        if self.has_metric(def.name.as_str()) {
            return Err(DuplicateMetricName);
        }
        let metric = Metric { def, series: Vec::new() };
        let ghost entry = (metric@.name, metric@);
        self.metrics.push(metric);
        proof {
            assert(self.entries() =~= pre.push(entry));
            assert(self.entries().drop_last() =~= pre);
            assert(entry.1.series =~= Seq::<(Seq<Seq<char>>, ValueData)>::empty());
            lemma_assoc_map_absent_keys(pre, entry.0);
            assert forall|a: int, b: int|
                0 <= a < b < self.entries().len() implies self.entries()[a].0
                != self.entries()[b].0 by {
                assert(self.entries()[a] == pre[a]);
                if b < pre.len() {
                    assert(self.entries()[b] == pre[b]);
                }
            }
            assert forall|i: int|
                0 <= i < self.entries().len() implies (#[trigger] self.entries()[i]).0
                == self.entries()[i].1.name && metric_wf(self.entries()[i].1) by {
                if i < pre.len() {
                    assert(self.entries()[i] == pre[i]);
                } else {
                    assert(self.entries()[i] == entry);
                }
            }
        }
        Ok(())
    }
}

impl Registry {
    /// A borrow of one series' stored value.
    fn read_value(&self, name: &str, labels: &Vec<String>) -> (r: Option<&SeriesValue>)
        requires
            self.wf(),
        ensures
            match r {
                Some(v) => self.series_data(name@, labels_view(labels@)) == Some(v@) && value_wf(
                    self.metrics()[name@].kind,
                    v@,
                ),
                None => self.series_data(name@, labels_view(labels@)) is None,
            },
    {
        match self.index_of(name) {
            None => None,
            Some(m) => {
                proof {
                    lemma_assoc_map_index(self.entries(), m as int);
                }
                match series_index(&self.metrics[m], labels) {
                    None => None,
                    Some(j) => {
                        proof {
                            assert(metric_wf(self.metrics()[name@]));
                            lemma_assoc_map_index(self.metrics@[m as int]@.series, j as int);
                        }
                        Some(&self.metrics[m].series[j].value)
                    },
                }
            },
        }
    }

    /// Stores `value` under the series keyed by `labels` in the metric
    /// named `name`: overwrites the series in place when the label
    /// combination was seen, else appends a new series.
    #[verifier::loop_isolation(false)]
    fn write_value(&mut self, name: &str, labels: &Vec<String>, value: SeriesValue)
        requires
            old(self).wf(),
            old(self).metrics().dom().contains(name@),
            labels_view(labels@).len() == old(self).metrics()[name@].label_names.len(),
            value_wf(old(self).metrics()[name@].kind, value@),
        ensures
            final(self).wf(),
            final(self).metrics().dom() == old(self).metrics().dom(),
            final(self).entries().len() == old(self).entries().len(),
            forall|i: int|
                0 <= i < old(self).entries().len() ==> (#[trigger] final(self).entries()[i]).0
                    == old(self).entries()[i].0,
            forall|other: Seq<char>|
                old(self).metrics().dom().contains(other) && other != name@ ==> final(self).metrics()[other] == old(self).metrics()[other],
            final(self).metrics()[name@] == metric_with_series(
                old(self).metrics()[name@],
                final(self).metrics()[name@].series,
            ),
            updated_entries(
                old(self).metrics()[name@].series,
                final(self).metrics()[name@].series,
                labels_view(labels@),
                value@,
            ),
    {
        let midx = match self.index_of(name) {
            Some(m) => m,
            None => {
                proof {
                    assert(false);
                }
                0
            },
        };
        proof {
            lemma_assoc_map_index(self.entries(), midx as int);
            assert(metric_wf(self.entries()[midx as int].1));
        }
        let ghost pre_entries = self.entries();
        let ghost old_metric = self.entries()[midx as int].1;
        let ghost key = labels_view(labels@);
        let mut metric = self.metrics.remove(midx);
        match series_index(&metric, labels) {
            Some(j) => {
                let ghost pre_series = metric@.series;
                let mut s = metric.series.remove(j);
                s.value = value;
                metric.series.insert(j, s);
                proof {
                    assert(metric@.series =~= pre_series.update(j as int, (key, value@)));
                    crate::assoc::lemma_assoc_map_present(pre_series, j as int);
                }
            },
            None => {
                let ghost pre_series = metric@.series;
                metric.series.push(Series { labels: duplicate_labels(labels), value });
                proof {
                    assert(metric@.series =~= pre_series.push((key, value@)));
                }
            },
        }
        let ghost new_metric = metric@;
        self.metrics.insert(midx, metric);
        proof {
            assert(self.entries() =~= pre_entries.update(midx as int, (name@, new_metric)));
            assert(pre_entries[midx as int].0 == name@);
            lemma_assoc_map_update(pre_entries, midx as int, new_metric);
            lemma_updated_entries(old_metric.series, new_metric.series, key, value@);
            assert(self.metrics().dom() =~= old(self).metrics().dom());
            assert forall|a: int, b: int|
                0 <= a < b < self.entries().len() implies self.entries()[a].0
                != self.entries()[b].0 by {
                assert(self.entries()[a].0 == pre_entries[a].0);
                assert(self.entries()[b].0 == pre_entries[b].0);
            }
            assert forall|i: int|
                0 <= i < self.entries().len() implies (#[trigger] self.entries()[i]).0
                == self.entries()[i].1.name && metric_wf(self.entries()[i].1) by {
                if i == midx as int {
                    assert(self.entries()[i] == (name@, new_metric));
                    assert forall|k: int|
                        0 <= k < new_metric.series.len() implies (
                        #[trigger] new_metric.series[k]).0.len() == new_metric.label_names.len()
                            && value_wf(new_metric.kind, new_metric.series[k].1) by {
                        if new_metric.series[k].0 == key {
                            assert(new_metric.series[k].1 == value@);
                        } else {
                            let j = choose|j: int|
                                0 <= j < old_metric.series.len() && new_metric.series[k]
                                    == old_metric.series[j];
                            assert(value_wf(old_metric.kind, old_metric.series[j].1));
                        }
                    }
                } else {
                    assert(self.entries()[i] == pre_entries[i]);
                }
            }
        }
    }

    /// Adds `by` to a counter series, creating the series at `by` when
    /// the label combination is new.
    pub fn inc_counter(&mut self, name: &str, labels: &Vec<String>, by: u64)
        requires
            old(self).wf(),
            old(self).metrics().dom().contains(name@),
            old(self).metrics()[name@].kind is Counter,
            labels_view(labels@).len() == old(self).metrics()[name@].label_names.len(),
            old(self).counter_value(name@, labels_view(labels@)) + by <= u64::MAX,
        ensures
            final(self).wf(),
            final(self).metrics().dom() == old(self).metrics().dom(),
            forall|other: Seq<char>|
                old(self).metrics().dom().contains(other) && other != name@ ==> final(self).metrics()[other] == old(self).metrics()[other],
            final(self).metrics()[name@] == metric_with_series(
                old(self).metrics()[name@],
                final(self).metrics()[name@].series,
            ),
            updated_entries(
                old(self).metrics()[name@].series,
                final(self).metrics()[name@].series,
                labels_view(labels@),
                ValueData::Counter(
                    (old(self).counter_value(name@, labels_view(labels@)) + by) as u64,
                ),
            ),
            assoc_map(final(self).metrics()[name@].series) == assoc_map(
                old(self).metrics()[name@].series,
            ).insert(
                labels_view(labels@),
                ValueData::Counter(
                    (old(self).counter_value(name@, labels_view(labels@)) + by) as u64,
                ),
            ),
            final(self).counter_value(name@, labels_view(labels@)) == old(self).counter_value(
                name@,
                labels_view(labels@),
            ) + by,
    {
        let current: u64 = match self.read_value(name, labels) {
            Some(SeriesValue::Counter(c)) => *c,
            Some(_) => {
                proof {
                    assert(false);
                }
                0
            },
            None => 0,
        };
        self.write_value(name, labels, SeriesValue::Counter(current + by));
        proof {
            lemma_metric_wf(*old(self), name@);
            lemma_updated_entries(
                old(self).metrics()[name@].series,
                self.metrics()[name@].series,
                labels_view(labels@),
                ValueData::Counter((current + by) as u64),
            );
        }
    }

    /// Sets a gauge series to `value`, creating the series when the label
    /// combination is new.
    pub fn set_gauge(&mut self, name: &str, labels: &Vec<String>, value: i64)
        requires
            old(self).wf(),
            old(self).metrics().dom().contains(name@),
            old(self).metrics()[name@].kind is Gauge,
            labels_view(labels@).len() == old(self).metrics()[name@].label_names.len(),
        ensures
            final(self).wf(),
            final(self).metrics().dom() == old(self).metrics().dom(),
            forall|other: Seq<char>|
                old(self).metrics().dom().contains(other) && other != name@ ==> final(self).metrics()[other] == old(self).metrics()[other],
            final(self).metrics()[name@] == metric_with_series(
                old(self).metrics()[name@],
                final(self).metrics()[name@].series,
            ),
            updated_entries(
                old(self).metrics()[name@].series,
                final(self).metrics()[name@].series,
                labels_view(labels@),
                ValueData::Gauge(value),
            ),
            assoc_map(final(self).metrics()[name@].series) == assoc_map(
                old(self).metrics()[name@].series,
            ).insert(labels_view(labels@), ValueData::Gauge(value)),
            final(self).gauge_value(name@, labels_view(labels@)) == value as int,
    {
        self.write_value(name, labels, SeriesValue::Gauge(value));
        proof {
            lemma_metric_wf(*old(self), name@);
            lemma_updated_entries(
                old(self).metrics()[name@].series,
                self.metrics()[name@].series,
                labels_view(labels@),
                ValueData::Gauge(value),
            );
        }
    }

    /// Adds `by` to a gauge series, creating the series at `by` when the
    /// label combination is new.
    pub fn inc_gauge(&mut self, name: &str, labels: &Vec<String>, by: i64)
        requires
            old(self).wf(),
            old(self).metrics().dom().contains(name@),
            old(self).metrics()[name@].kind is Gauge,
            labels_view(labels@).len() == old(self).metrics()[name@].label_names.len(),
            i64::MIN <= old(self).gauge_value(name@, labels_view(labels@)) + by <= i64::MAX,
        ensures
            final(self).wf(),
            final(self).metrics().dom() == old(self).metrics().dom(),
            forall|other: Seq<char>|
                old(self).metrics().dom().contains(other) && other != name@ ==> final(self).metrics()[other] == old(self).metrics()[other],
            final(self).metrics()[name@] == metric_with_series(
                old(self).metrics()[name@],
                final(self).metrics()[name@].series,
            ),
            updated_entries(
                old(self).metrics()[name@].series,
                final(self).metrics()[name@].series,
                labels_view(labels@),
                ValueData::Gauge((old(self).gauge_value(name@, labels_view(labels@)) + by) as i64),
            ),
            assoc_map(final(self).metrics()[name@].series) == assoc_map(
                old(self).metrics()[name@].series,
            ).insert(
                labels_view(labels@),
                ValueData::Gauge((old(self).gauge_value(name@, labels_view(labels@)) + by) as i64),
            ),
            final(self).gauge_value(name@, labels_view(labels@)) == old(self).gauge_value(
                name@,
                labels_view(labels@),
            ) + by,
    {
        let current: i64 = match self.read_value(name, labels) {
            Some(SeriesValue::Gauge(g)) => *g,
            Some(_) => {
                proof {
                    assert(false);
                }
                0
            },
            None => 0,
        };
        self.write_value(name, labels, SeriesValue::Gauge(current + by));
        proof {
            lemma_metric_wf(*old(self), name@);
            lemma_updated_entries(
                old(self).metrics()[name@].series,
                self.metrics()[name@].series,
                labels_view(labels@),
                ValueData::Gauge((current + by) as i64),
            );
        }
    }

    /// Subtracts `by` from a gauge series, creating the series at `-by`
    /// when the label combination is new.
    pub fn dec_gauge(&mut self, name: &str, labels: &Vec<String>, by: i64)
        requires
            old(self).wf(),
            old(self).metrics().dom().contains(name@),
            old(self).metrics()[name@].kind is Gauge,
            labels_view(labels@).len() == old(self).metrics()[name@].label_names.len(),
            i64::MIN <= old(self).gauge_value(name@, labels_view(labels@)) - by <= i64::MAX,
        ensures
            final(self).wf(),
            final(self).metrics().dom() == old(self).metrics().dom(),
            forall|other: Seq<char>|
                old(self).metrics().dom().contains(other) && other != name@ ==> final(self).metrics()[other] == old(self).metrics()[other],
            final(self).metrics()[name@] == metric_with_series(
                old(self).metrics()[name@],
                final(self).metrics()[name@].series,
            ),
            updated_entries(
                old(self).metrics()[name@].series,
                final(self).metrics()[name@].series,
                labels_view(labels@),
                ValueData::Gauge((old(self).gauge_value(name@, labels_view(labels@)) - by) as i64),
            ),
            assoc_map(final(self).metrics()[name@].series) == assoc_map(
                old(self).metrics()[name@].series,
            ).insert(
                labels_view(labels@),
                ValueData::Gauge((old(self).gauge_value(name@, labels_view(labels@)) - by) as i64),
            ),
            final(self).gauge_value(name@, labels_view(labels@)) == old(self).gauge_value(
                name@,
                labels_view(labels@),
            ) - by,
    {
        let current: i64 = match self.read_value(name, labels) {
            Some(SeriesValue::Gauge(g)) => *g,
            Some(_) => {
                proof {
                    assert(false);
                }
                0
            },
            None => 0,
        };
        self.write_value(name, labels, SeriesValue::Gauge(current - by));
        proof {
            lemma_metric_wf(*old(self), name@);
            lemma_updated_entries(
                old(self).metrics()[name@].series,
                self.metrics()[name@].series,
                labels_view(labels@),
                ValueData::Gauge((current - by) as i64),
            );
        }
    }

    /// Records one observation in a histogram series: every cumulative
    /// bucket whose bound covers the value is incremented, as are the
    /// observation count and total. A new label combination starts empty.
    #[verifier::loop_isolation(false)]
    pub fn observe_histogram(&mut self, name: &str, labels: &Vec<String>, value: u64)
        requires
            old(self).wf(),
            old(self).metrics().dom().contains(name@),
            old(self).metrics()[name@].kind is Histogram,
            labels_view(labels@).len() == old(self).metrics()[name@].label_names.len(),
            old(self).histogram_count(name@, labels_view(labels@)) < u64::MAX,
            old(self).histogram_sum(name@, labels_view(labels@)) + value <= u64::MAX,
        ensures
            final(self).wf(),
            final(self).metrics().dom() == old(self).metrics().dom(),
            forall|other: Seq<char>|
                old(self).metrics().dom().contains(other) && other != name@ ==> final(self).metrics()[other] == old(self).metrics()[other],
            final(self).metrics()[name@] == metric_with_series(
                old(self).metrics()[name@],
                final(self).metrics()[name@].series,
            ),
            updated_entries(
                old(self).metrics()[name@].series,
                final(self).metrics()[name@].series,
                labels_view(labels@),
                ValueData::Histogram {
                    bucket_counts: bumped_counts(
                        kind_bounds(old(self).metrics()[name@].kind),
                        old(self).histogram_buckets(name@, labels_view(labels@)),
                        value,
                    ),
                    sum: (old(self).histogram_sum(name@, labels_view(labels@)) + value) as u64,
                    count: (old(self).histogram_count(name@, labels_view(labels@)) + 1) as u64,
                },
            ),
            assoc_map(final(self).metrics()[name@].series) == assoc_map(
                old(self).metrics()[name@].series,
            ).insert(
                labels_view(labels@),
                ValueData::Histogram {
                    bucket_counts: bumped_counts(
                        kind_bounds(old(self).metrics()[name@].kind),
                        old(self).histogram_buckets(name@, labels_view(labels@)),
                        value,
                    ),
                    sum: (old(self).histogram_sum(name@, labels_view(labels@)) + value) as u64,
                    count: (old(self).histogram_count(name@, labels_view(labels@)) + 1) as u64,
                },
            ),
            final(self).histogram_count(name@, labels_view(labels@)) == old(self).histogram_count(
                name@,
                labels_view(labels@),
            ) + 1,
            final(self).histogram_sum(name@, labels_view(labels@)) == old(self).histogram_sum(
                name@,
                labels_view(labels@),
            ) + value,
    {
        let bounds = self.histogram_bounds(name);
        let (counts, sum, count): (Vec<u64>, u64, u64) = match self.read_value(name, labels) {
            Some(SeriesValue::Histogram { bucket_counts, sum, count }) => (
                copy_u64s(bucket_counts),
                *sum,
                *count,
            ),
            Some(_) => {
                proof {
                    assert(false);
                }
                (Vec::new(), 0, 0)
            },
            None => (zero_count_vec(bounds.len()), 0, 0),
        };
        let n = bounds.len();
        let mut bumped: Vec<u64> = Vec::new();
        let mut i: usize = 0;
        while i < n
            invariant
                i <= n,
                n == bounds@.len(),
                counts@.len() == n,
                forall|k: int| 0 <= k < n ==> #[trigger] counts@[k] <= count,
                count < u64::MAX,
                bumped@.len() == i,
                forall|k: int|
                    0 <= k < i ==> #[trigger] bumped@[k] == (if bounds@[k] >= value {
                        (counts@[k] + 1) as u64
                    } else {
                        counts@[k]
                    }),
            decreases n - i,
        {
            if bounds[i] >= value {
                bumped.push(counts[i] + 1);
            } else {
                bumped.push(counts[i]);
            }
            i += 1;
        }
        proof {
            assert(bumped@ =~= bumped_counts(
                kind_bounds(old(self).metrics()[name@].kind),
                old(self).histogram_buckets(name@, labels_view(labels@)),
                value,
            ));
        }
        let next = SeriesValue::Histogram { bucket_counts: bumped, sum: sum + value, count: count
            + 1 };
        self.write_value(name, labels, next);
        proof {
            lemma_metric_wf(*old(self), name@);
            lemma_updated_entries(
                old(self).metrics()[name@].series,
                self.metrics()[name@].series,
                labels_view(labels@),
                next@,
            );
        }
    }

    /// A copy of a histogram metric's bucket bounds.
    fn histogram_bounds(&self, name: &str) -> (r: Vec<u64>)
        requires
            self.wf(),
            self.metrics().dom().contains(name@),
            self.metrics()[name@].kind is Histogram,
        ensures
            r@ == kind_bounds(self.metrics()[name@].kind),
    {
        let midx = match self.index_of(name) {
            Some(m) => m,
            None => {
                proof {
                    assert(false);
                }
                0
            },
        };
        proof {
            lemma_assoc_map_index(self.entries(), midx as int);
        }
        match &self.metrics[midx].def.kind {
            MetricKind::Histogram(b) => copy_u64s(b),
            _ => {
                proof {
                    assert(false);
                }
                Vec::new()
            },
        }
    }
}

/// A metric with the same identity and a new series sequence.
pub open spec fn metric_with_series(
    m: MetricData,
    series: Seq<(Seq<Seq<char>>, ValueData)>,
) -> MetricData {
    MetricData {
        name: m.name,
        help: m.help,
        label_names: m.label_names,
        kind: m.kind,
        series,
    }
}

/// The bucket bounds a kind carries; empty for counters and gauges.
pub open spec fn kind_bounds(k: KindData) -> Seq<u64> {
    match k {
        KindData::Histogram(b) => b,
        _ => Seq::empty(),
    }
}

/// A sequence of zeroed bucket counts.
pub open spec fn zero_counts(n: nat) -> Seq<u64> {
    Seq::new(n, |i: int| 0u64)
}

/// The cumulative bucket counts after one observation of `value`: every
/// bucket whose bound covers the value counts it.
pub open spec fn bumped_counts(bounds: Seq<u64>, counts: Seq<u64>, value: u64) -> Seq<u64> {
    Seq::new(
        counts.len(),
        |i: int|
            if bounds[i] >= value {
                (counts[i] + 1) as u64
            } else {
                counts[i]
            },
    )
}

/// Whether two label vectors hold the same values.
#[verifier::loop_isolation(false)]
fn labels_eq(a: &Vec<String>, b: &Vec<String>) -> (r: bool)
    ensures
        r == (labels_view(a@) == labels_view(b@)),
{
    let n = a.len();
    if n != b.len() {
        proof {
            assert(labels_view(a@).len() != labels_view(b@).len());
        }
        return false;
    }
    let mut i: usize = 0;
    while i < n
        invariant
            i <= n,
            n == a@.len(),
            n == b@.len(),
            forall|j: int| 0 <= j < i ==> labels_view(a@)[j] == labels_view(b@)[j],
        decreases n - i,
    {
        if !str_eq(a[i].as_str(), b[i].as_str()) {
            proof {
                assert(labels_view(a@)[i as int] != labels_view(b@)[i as int]);
            }
            return false;
        }
        i += 1;
    }
    proof {
        assert(labels_view(a@) =~= labels_view(b@));
    }
    true
}

/// The index of the series keyed by `labels` in a metric.
#[verifier::loop_isolation(false)]
fn series_index(metric: &Metric, labels: &Vec<String>) -> (r: Option<usize>)
    ensures
        match r {
            Some(j) => j < metric@.series.len() && metric@.series[j as int].0 == labels_view(
                labels@,
            ),
            None => !assoc_map(metric@.series).dom().contains(labels_view(labels@)),
        },
{
    let n = metric.series.len();
    let mut i: usize = 0;
    while i < n
        invariant
            i <= n,
            n == metric.series@.len(),
            forall|j: int| 0 <= j < i ==> metric@.series[j].0 != labels_view(labels@),
        decreases n - i,
    {
        if labels_eq(&metric.series[i].labels, labels) {
            return Some(i);
        }
        i += 1;
    }
    proof {
        lemma_assoc_map_absent(metric@.series, labels_view(labels@));
    }
    None
}

/// A copy of a vector of bucket bounds or counts.
#[verifier::loop_isolation(false)]
fn copy_u64s(v: &Vec<u64>) -> (r: Vec<u64>)
    ensures
        r@ == v@,
{
    let n = v.len();
    let mut out: Vec<u64> = Vec::new();
    let mut i: usize = 0;
    while i < n
        invariant
            i <= n,
            n == v@.len(),
            out@ == v@.take(i as int),
        decreases n - i,
    {
        out.push(v[i]);
        proof {
            assert(out@ =~= v@.take(i + 1));
        }
        i += 1;
    }
    proof {
        assert(v@.take(n as int) =~= v@);
    }
    out
}

/// A vector of `n` zeroed bucket counts.
#[verifier::loop_isolation(false)]
fn zero_count_vec(n: usize) -> (r: Vec<u64>)
    ensures
        r@ == zero_counts(n as nat),
{
    let mut out: Vec<u64> = Vec::new();
    let mut i: usize = 0;
    while i < n
        invariant
            i <= n,
            out@.len() == i,
            forall|j: int| 0 <= j < i ==> #[trigger] out@[j] == 0u64,
        decreases n - i,
    {
        out.push(0);
        i += 1;
    }
    proof {
        assert(out@ =~= zero_counts(n as nat));
    }
    out
}


/// The escape expansion of one character inside a label value.
pub open spec fn label_escape_char(c: char) -> Seq<char> {
    if c == '\\' {
        seq!['\\', '\\']
    } else if c == '"' {
        seq!['\\', '"']
    } else if c == '\n' {
        seq!['\\', 'n']
    } else {
        seq![c]
    }
}

/// The escaped form of a label value.
pub open spec fn spec_label_escaped(s: Seq<char>) -> Seq<char>
    decreases s.len(),
{
    if s.len() == 0 {
        Seq::empty()
    } else {
        spec_label_escaped(s.drop_last()) + label_escape_char(s.last())
    }
}

/// The escape expansion of one character inside a help text.
pub open spec fn help_escape_char(c: char) -> Seq<char> {
    if c == '\\' {
        seq!['\\', '\\']
    } else if c == '\n' {
        seq!['\\', 'n']
    } else {
        seq![c]
    }
}

/// The escaped form of a help text.
pub open spec fn spec_help_escaped(s: Seq<char>) -> Seq<char>
    decreases s.len(),
{
    if s.len() == 0 {
        Seq::empty()
    } else {
        spec_help_escaped(s.drop_last()) + help_escape_char(s.last())
    }
}

/// One label pair: `name="escaped value"`.
pub open spec fn spec_label_pair(name: Seq<char>, value: Seq<char>) -> Seq<char> {
    name + "=\""@ + spec_label_escaped(value) + seq!['"']
}

/// The first `n` label pairs, comma separated.
pub open spec fn spec_label_pairs(
    names: Seq<Seq<char>>,
    values: Seq<Seq<char>>,
    n: int,
) -> Seq<char>
    decreases n,
{
    if n <= 0 {
        Seq::empty()
    } else if n == 1 {
        spec_label_pair(names[0], values[0])
    } else {
        spec_label_pairs(names, values, n - 1) + seq![','] + spec_label_pair(
            names[n - 1],
            values[n - 1],
        )
    }
}

/// The label block of a sample line; empty when the metric has no labels.
pub open spec fn spec_label_block(names: Seq<Seq<char>>, values: Seq<Seq<char>>) -> Seq<char> {
    if names.len() == 0 {
        Seq::empty()
    } else {
        seq!['{'] + spec_label_pairs(names, values, names.len() as int) + seq!['}']
    }
}

/// The `le` pair of a histogram bucket line.
pub open spec fn spec_le_pair(le: Seq<char>) -> Seq<char> {
    "le=\""@ + le + seq!['"']
}

/// The label block of a histogram bucket line: the series labels plus the
/// bucket's `le` bound.
pub open spec fn spec_label_block_le(
    names: Seq<Seq<char>>,
    values: Seq<Seq<char>>,
    le: Seq<char>,
) -> Seq<char> {
    if names.len() == 0 {
        seq!['{'] + spec_le_pair(le) + seq!['}']
    } else {
        seq!['{'] + spec_label_pairs(names, values, names.len() as int) + seq![','] + spec_le_pair(
            le,
        ) + seq!['}']
    }
}

/// The exposition name of a kind.
pub open spec fn spec_kind_name(k: KindData) -> Seq<char> {
    match k {
        KindData::Counter => "counter"@,
        KindData::Gauge => "gauge"@,
        KindData::Histogram(_) => "histogram"@,
    }
}

/// The first `n` bucket lines of a histogram series.
pub open spec fn spec_bucket_lines(
    m: MetricData,
    labels: Seq<Seq<char>>,
    counts: Seq<u64>,
    n: int,
) -> Seq<char>
    decreases n,
{
    if n <= 0 {
        Seq::empty()
    } else {
        spec_bucket_lines(m, labels, counts, n - 1) + m.name + "_bucket"@ + spec_label_block_le(
            m.label_names,
            labels,
            spec_dec(kind_bounds(m.kind)[n - 1] as nat),
        ) + seq![' '] + spec_dec(counts[n - 1] as nat) + seq!['\n']
    }
}

/// The sample lines of one series.
pub open spec fn spec_series_text(m: MetricData, entry: (Seq<Seq<char>>, ValueData)) -> Seq<char> {
    match entry.1 {
        ValueData::Counter(c) => m.name + spec_label_block(m.label_names, entry.0) + seq![' ']
            + spec_dec(c as nat) + seq!['\n'],
        ValueData::Gauge(g) => m.name + spec_label_block(m.label_names, entry.0) + seq![' ']
            + spec_dec_signed(g as int) + seq!['\n'],
        ValueData::Histogram { bucket_counts, sum, count } => spec_bucket_lines(
            m,
            entry.0,
            bucket_counts,
            bucket_counts.len() as int,
        ) + m.name + "_bucket"@ + spec_label_block_le(m.label_names, entry.0, "+Inf"@) + seq![' ']
            + spec_dec(count as nat) + seq!['\n'] + m.name + "_sum"@ + spec_label_block(
            m.label_names,
            entry.0,
        ) + seq![' '] + spec_dec(sum as nat) + seq!['\n'] + m.name + "_count"@ + spec_label_block(
            m.label_names,
            entry.0,
        ) + seq![' '] + spec_dec(count as nat) + seq!['\n'],
    }
}

/// The first `n` series of one metric, in observation order.
pub open spec fn spec_series_lines(m: MetricData, n: int) -> Seq<char>
    decreases n,
{
    if n <= 0 {
        Seq::empty()
    } else {
        spec_series_lines(m, n - 1) + spec_series_text(m, m.series[n - 1])
    }
}

/// The exposition text of one metric: a HELP line, a TYPE line, and one
/// block of sample lines per series.
pub open spec fn spec_metric_text(m: MetricData) -> Seq<char> {
    "# HELP "@ + m.name + seq![' '] + spec_help_escaped(m.help) + seq!['\n'] + "# TYPE "@ + m.name
        + seq![' '] + spec_kind_name(m.kind) + seq!['\n'] + spec_series_lines(
        m,
        m.series.len() as int,
    )
}

/// The exposition text of a whole metric sequence, in registration order.
pub open spec fn spec_exposition(s: Seq<(Seq<char>, MetricData)>) -> Seq<char>
    decreases s.len(),
{
    if s.len() == 0 {
        Seq::empty()
    } else {
        spec_exposition(s.drop_last()) + spec_metric_text(s.last().1)
    }
}

/// Appends the escaped form of a label value to `out`.
#[verifier::loop_isolation(false)]
fn append_label_escaped(out: &mut String, s: &str)
    ensures
        final(out)@ == old(out)@ + spec_label_escaped(s@),
{
    let ghost base = old(out)@;
    let n = s.unicode_len();
    let mut i: usize = 0;
    while i < n
        invariant
            i <= n,
            n == s@.len(),
            out@ == base + spec_label_escaped(s@.take(i as int)),
        decreases n - i,
    {
        let c = s.get_char(i);
        if c == '\\' {
            out.append("\\\\");
        } else if c == '"' {
            out.append("\\\"");
        } else if c == '\n' {
            out.append("\\n");
        } else {
            push_char(out, c);
        }
        proof {
            reveal_strlit("\\\\");
            reveal_strlit("\\\"");
            reveal_strlit("\\n");
            assert(s@.take(i + 1).drop_last() =~= s@.take(i as int));
            assert(s@.take(i + 1).last() == s@[i as int]);
            assert(out@ =~= base + spec_label_escaped(s@.take(i + 1)));
        }
        i += 1;
    }
    proof {
        assert(s@.take(n as int) =~= s@);
    }
}

/// Appends the escaped form of a help text to `out`.
#[verifier::loop_isolation(false)]
fn append_help_escaped(out: &mut String, s: &str)
    ensures
        final(out)@ == old(out)@ + spec_help_escaped(s@),
{
    let ghost base = old(out)@;
    let n = s.unicode_len();
    let mut i: usize = 0;
    while i < n
        invariant
            i <= n,
            n == s@.len(),
            out@ == base + spec_help_escaped(s@.take(i as int)),
        decreases n - i,
    {
        let c = s.get_char(i);
        if c == '\\' {
            out.append("\\\\");
        } else if c == '\n' {
            out.append("\\n");
        } else {
            push_char(out, c);
        }
        proof {
            reveal_strlit("\\\\");
            reveal_strlit("\\n");
            assert(s@.take(i + 1).drop_last() =~= s@.take(i as int));
            assert(s@.take(i + 1).last() == s@[i as int]);
            assert(out@ =~= base + spec_help_escaped(s@.take(i + 1)));
        }
        i += 1;
    }
    proof {
        assert(s@.take(n as int) =~= s@);
    }
}

/// Appends the comma-separated label pairs to `out`.
#[verifier::loop_isolation(false)]
fn append_label_pairs(out: &mut String, names: &Vec<String>, values: &Vec<String>)
    requires
        names@.len() == values@.len(),
    ensures
        final(out)@ == old(out)@ + spec_label_pairs(
            labels_view(names@),
            labels_view(values@),
            names@.len() as int,
        ),
{
    let ghost base = old(out)@;
    proof {
        assert(base + spec_label_pairs(labels_view(names@), labels_view(values@), 0) =~= base);
    }
    let n = names.len();
    let mut i: usize = 0;
    while i < n
        invariant
            i <= n,
            n == names@.len(),
            n == values@.len(),
            out@ == base + spec_label_pairs(labels_view(names@), labels_view(values@), i as int),
        decreases n - i,
    {
        if i > 0 {
            push_char(out, ',');
        }
        out.append(names[i].as_str());
        out.append("=\"");
        append_label_escaped(out, values[i].as_str());
        push_char(out, '"');
        proof {
            assert(out@ =~= base + spec_label_pairs(
                labels_view(names@),
                labels_view(values@),
                i + 1,
            ));
        }
        i += 1;
    }
}

/// Appends the label block of a sample line to `out`.
fn append_label_block(out: &mut String, names: &Vec<String>, values: &Vec<String>)
    requires
        names@.len() == values@.len(),
    ensures
        final(out)@ == old(out)@ + spec_label_block(labels_view(names@), labels_view(values@)),
{
    if names.len() == 0 {
        proof {
            assert(out@ =~= old(out)@ + spec_label_block(
                labels_view(names@),
                labels_view(values@),
            ));
        }
        return ;
    }
    push_char(out, '{');
    append_label_pairs(out, names, values);
    push_char(out, '}');
    proof {
        assert(out@ =~= old(out)@ + spec_label_block(labels_view(names@), labels_view(values@)));
    }
}

/// Appends the label block of a histogram bucket line to `out`.
fn append_label_block_le(out: &mut String, names: &Vec<String>, values: &Vec<String>, le: &str)
    requires
        names@.len() == values@.len(),
    ensures
        final(out)@ == old(out)@ + spec_label_block_le(
            labels_view(names@),
            labels_view(values@),
            le@,
        ),
{
    push_char(out, '{');
    if names.len() > 0 {
        append_label_pairs(out, names, values);
        push_char(out, ',');
    }
    out.append("le=\"");
    out.append(le);
    push_char(out, '"');
    push_char(out, '}');
    proof {
        assert(out@ =~= old(out)@ + spec_label_block_le(
            labels_view(names@),
            labels_view(values@),
            le@,
        ));
    }
}

/// Appends the sample lines of the series at `j` to `out`.
#[verifier::loop_isolation(false)]
#[verifier::rlimit(100)]
fn append_series(out: &mut String, metric: &Metric, j: usize)
    requires
        metric_wf(metric@),
        j < metric@.series.len(),
    ensures
        final(out)@ == old(out)@ + spec_series_text(metric@, metric@.series[j as int]),
{
    proof {
        assert(metric@.series[j as int].0.len() == metric@.label_names.len());
        assert(value_wf(metric@.kind, metric@.series[j as int].1));
    }
    let name = metric.def.name.as_str();
    let series = &metric.series[j];
    match &series.value {
        SeriesValue::Counter(c) => {
            out.append(name);
            append_label_block(out, &metric.def.label_names, &series.labels);
            push_char(out, ' ');
            append_dec_u64(out, *c);
            push_char(out, '\n');
            proof {
                assert(out@ =~= old(out)@ + spec_series_text(metric@, metric@.series[j as int]));
            }
        },
        SeriesValue::Gauge(g) => {
            out.append(name);
            append_label_block(out, &metric.def.label_names, &series.labels);
            push_char(out, ' ');
            append_dec_i64(out, *g);
            push_char(out, '\n');
            proof {
                assert(out@ =~= old(out)@ + spec_series_text(metric@, metric@.series[j as int]));
            }
        },
        SeriesValue::Histogram { bucket_counts, sum, count } => {
            proof {
                assert(value_wf(metric@.kind, metric@.series[j as int].1));
            }
            if let MetricKind::Histogram(bounds) = &metric.def.kind {
            let ghost m = metric@;
            let ghost labels = metric@.series[j as int].0;
            let ghost base = old(out)@;
            proof {
                assert(base + spec_bucket_lines(m, labels, bucket_counts@, 0) =~= base);
            }
            let n = bounds.len();
            let mut i: usize = 0;
            while i < n
                invariant
                    i <= n,
                    n == bounds@.len(),
                    bucket_counts@.len() == n,
                    bounds@ == kind_bounds(m.kind),
                    out@ == base + spec_bucket_lines(m, labels, bucket_counts@, i as int),
                decreases n - i,
            {
                out.append(name);
                out.append("_bucket");
                let le = dec_u64_string(bounds[i]);
                append_label_block_le(out, &metric.def.label_names, &series.labels, le.as_str());
                push_char(out, ' ');
                append_dec_u64(out, bucket_counts[i]);
                push_char(out, '\n');
                proof {
                    assert(out@ =~= base + spec_bucket_lines(m, labels, bucket_counts@, i + 1));
                }
                i += 1;
            }
            out.append(name);
            out.append("_bucket");
            append_label_block_le(out, &metric.def.label_names, &series.labels, "+Inf");
            push_char(out, ' ');
            append_dec_u64(out, *count);
            push_char(out, '\n');
            out.append(name);
            out.append("_sum");
            append_label_block(out, &metric.def.label_names, &series.labels);
            push_char(out, ' ');
            append_dec_u64(out, *sum);
            push_char(out, '\n');
            out.append(name);
            out.append("_count");
            append_label_block(out, &metric.def.label_names, &series.labels);
            push_char(out, ' ');
            append_dec_u64(out, *count);
            push_char(out, '\n');
            proof {
                assert(out@ =~= old(out)@ + spec_series_text(metric@, metric@.series[j as int]));
            }
            } else {
                proof {
                    assert(false);
                }
            }
        },
    }
}

/// Appends the exposition text of one metric to `out`.
#[verifier::loop_isolation(false)]
#[verifier::rlimit(100)]
fn append_metric(out: &mut String, metric: &Metric)
    requires
        metric_wf(metric@),
    ensures
        final(out)@ == old(out)@ + spec_metric_text(metric@),
{
    let name = metric.def.name.as_str();
    out.append("# HELP ");
    out.append(name);
    push_char(out, ' ');
    append_help_escaped(out, metric.def.help.as_str());
    push_char(out, '\n');
    out.append("# TYPE ");
    out.append(name);
    push_char(out, ' ');
    match &metric.def.kind {
        MetricKind::Counter => out.append("counter"),
        MetricKind::Gauge => out.append("gauge"),
        MetricKind::Histogram(_) => out.append("histogram"),
    }
    push_char(out, '\n');
    let ghost head = out@;
    proof {
        assert(head + spec_series_lines(metric@, 0) =~= head);
    }
    let n = metric.series.len();
    let mut i: usize = 0;
    while i < n
        invariant
            i <= n,
            n == metric.series@.len(),
            out@ == head + spec_series_lines(metric@, i as int),
        decreases n - i,
    {
        append_series(out, metric, i);
        proof {
            assert(out@ =~= head + spec_series_lines(metric@, i + 1));
        }
        i += 1;
    }
    proof {
        assert(out@ =~= old(out)@ + spec_metric_text(metric@));
    }
}

/// In a well-formed registry, every registered metric is well formed and
/// keyed by its own name.
proof fn lemma_metric_wf(r: Registry, name: Seq<char>)
    requires
        r.wf(),
        r.metrics().dom().contains(name),
    ensures
        metric_wf(r.metrics()[name]),
        r.metrics()[name].name == name,
{
    if !(exists|i: int| 0 <= i < r.entries().len() && r.entries()[i].0 == name) {
        assert(forall|i: int| 0 <= i < r.entries().len() ==> r.entries()[i].0 != name);
        lemma_assoc_map_absent(r.entries(), name);
    }
    let i = choose|i: int| 0 <= i < r.entries().len() && r.entries()[i].0 == name;
    lemma_assoc_map_index(r.entries(), i);
}

/// The error of registering a metric name that is already registered: a
/// programming error in the consumer, fatal at the call site.
#[derive(Clone, Copy, Debug)]
pub struct DuplicateMetricName;

/// The content a fresh registration gives a definition: no series yet.
pub open spec fn def_data(def: MetricDef) -> MetricData {
    MetricData {
        name: def.name@,
        help: def.help@,
        label_names: labels_view(def.label_names@),
        kind: def.kind@,
        series: Seq::empty(),
    }
}

/// Registers each definition in turn. The caller owns the invariant that
/// no name repeats and none is registered yet; a violation is fatal in
/// the consumer, so it is excluded here.
#[verifier::loop_isolation(false)]
pub fn add_metrics_to_registry(registry: &mut Registry, metrics: Vec<MetricDef>)
    requires
        old(registry).wf(),
        forall|i: int, j: int|
            0 <= i < j < metrics@.len() ==> (#[trigger] metrics@[i]).name@ != (
            #[trigger] metrics@[j]).name@,
        forall|i: int|
            0 <= i < metrics@.len() ==> !old(registry).metrics().dom().contains(
                (#[trigger] metrics@[i]).name@,
            ),
    ensures
        final(registry).wf(),
        forall|i: int|
            0 <= i < metrics@.len() ==> final(registry).metrics().dom().contains(
                (#[trigger] metrics@[i]).name@,
            ) && final(registry).metrics()[metrics@[i].name@] == def_data(metrics@[i]),
        forall|nm: Seq<char>|
            old(registry).metrics().dom().contains(nm)
                ==> final(registry).metrics().dom().contains(nm),
        forall|nm: Seq<char>|
            old(registry).metrics().dom().contains(nm) && (forall|i: int|
                0 <= i < metrics@.len() ==> (#[trigger] metrics@[i]).name@ != nm)
                ==> final(registry).metrics()[nm] == old(registry).metrics()[nm],
        forall|nm: Seq<char>|
            !old(registry).metrics().dom().contains(nm) && (forall|i: int|
                0 <= i < metrics@.len() ==> (#[trigger] metrics@[i]).name@ != nm)
                ==> !final(registry).metrics().dom().contains(nm),
{
    let ghost defs = metrics@;
    let mut remaining = metrics;
    let n = remaining.len();
    let mut i: usize = 0;
    while i < n
        invariant
            i <= n,
            remaining@ == defs.skip(i as int),
            registry.wf(),
            forall|k: int|
                0 <= k < i ==> registry.metrics().dom().contains((#[trigger] defs[k]).name@)
                    && registry.metrics()[defs[k].name@] == def_data(defs[k]),
            forall|nm: Seq<char>|
                old(registry).metrics().dom().contains(nm) ==> registry.metrics().dom().contains(
                    nm,
                ),
            forall|nm: Seq<char>|
                old(registry).metrics().dom().contains(nm) && (forall|k: int|
                    0 <= k < defs.len() ==> (#[trigger] defs[k]).name@ != nm)
                    ==> registry.metrics()[nm] == old(registry).metrics()[nm],
            forall|nm: Seq<char>|
                !old(registry).metrics().dom().contains(nm) && (forall|k: int|
                    0 <= k < i ==> (#[trigger] defs[k]).name@ != nm)
                    ==> !registry.metrics().dom().contains(nm),
        decreases n - i,
    {
        let def = remaining.remove(0);
        proof {
            assert(remaining@ =~= defs.skip(i + 1));
            assert(def == defs[i as int]);
            assert(forall|k: int| 0 <= k < i ==> (#[trigger] defs[k]).name@ != def.name@);
        }
        let result = registry.register(def);
        proof {
            assert(result is Ok);
        }
        let _ = result;
        i += 1;
    }
}

/// A copy of a label vector with the same content.
#[verifier::loop_isolation(false)]
fn duplicate_labels(labels: &Vec<String>) -> (r: Vec<String>)
    ensures
        labels_view(r@) == labels_view(labels@),
        r@.len() == labels@.len(),
{
    let n = labels.len();
    let mut out: Vec<String> = Vec::new();
    proof {
        assert(labels_view(out@) =~= labels_view(labels@).take(0));
    }
    let mut i: usize = 0;
    while i < n
        invariant
            i <= n,
            n == labels@.len(),
            out@.len() == i,
            labels_view(out@) == labels_view(labels@).take(i as int),
        decreases n - i,
    {
        out.push(labels[i].clone());
        proof {
            assert(labels_view(out@) =~= labels_view(labels@).take(i + 1));
        }
        i += 1;
    }
    proof {
        assert(labels_view(labels@).take(n as int) =~= labels_view(labels@));
    }
    out
}

/// A lazy, restartable snapshot of every registered metric's current
/// value set, suitable for serialization.
pub struct Snapshot {
    metrics: Vec<Metric>,
}

impl Snapshot {
    /// The snapshot's metrics in registration order.
    pub closed spec fn entries(self) -> Seq<(Seq<char>, MetricData)> {
        self.metrics@.map_values(|m: Metric| (m@.name, m@))
    }

    /// Well-formedness, inherited from the registry it was taken from.
    pub open spec fn wf(self) -> bool {
        entries_wf(self.entries())
    }

    /// Serializes the snapshot to the text exposition format: one block
    /// of lines per metric, in registration order.
    #[verifier::loop_isolation(false)]
    pub fn render_text(&self) -> (r: String)
        requires
            self.wf(),
        ensures
            r@ == spec_exposition(self.entries()),
    {
        proof {
            assert forall|i: int|
                0 <= i < self.metrics@.len() implies metric_wf(
                (#[trigger] self.metrics@[i])@,
            ) by {
                assert(self.entries()[i].1 == self.metrics@[i]@);
                assert(metric_wf(self.entries()[i].1));
            }
        }
        render_metrics(&self.metrics)
    }
}

/// The exposition text of a metric vector, in order.
#[verifier::loop_isolation(false)]
fn render_metrics(metrics: &Vec<Metric>) -> (r: String)
    requires
        forall|i: int| 0 <= i < metrics@.len() ==> metric_wf((#[trigger] metrics@[i])@),
    ensures
        r@ == spec_exposition(metrics@.map_values(|m: Metric| (m@.name, m@))),
{
    let ghost entries = metrics@.map_values(|m: Metric| (m@.name, m@));
    let mut out = String::new();
    proof {
        assert(entries.take(0) =~= Seq::<(Seq<char>, MetricData)>::empty());
        assert(out@ =~= spec_exposition(entries.take(0)));
    }
    let n = metrics.len();
    let mut i: usize = 0;
    while i < n
        invariant
            i <= n,
            n == metrics@.len(),
            out@ == spec_exposition(entries.take(i as int)),
        decreases n - i,
    {
        append_metric(&mut out, &metrics[i]);
        proof {
            assert(entries.take(i + 1).drop_last() =~= entries.take(i as int));
            assert(entries.take(i + 1).last() == entries[i as int]);
            assert(out@ =~= spec_exposition(entries.take(i + 1)));
        }
        i += 1;
    }
    proof {
        assert(entries.take(n as int) =~= entries);
    }
    out
}

/// A copy of one series with the same content.
fn duplicate_series(s: &Series) -> (r: Series)
    ensures
        labels_view(r.labels@) == labels_view(s.labels@),
        r.value@ == s.value@,
{
    Series {
        labels: duplicate_labels(&s.labels),
        value: match &s.value {
            SeriesValue::Counter(c) => SeriesValue::Counter(*c),
            SeriesValue::Gauge(g) => SeriesValue::Gauge(*g),
            SeriesValue::Histogram { bucket_counts, sum, count } => SeriesValue::Histogram {
                bucket_counts: copy_u64s(bucket_counts),
                sum: *sum,
                count: *count,
            },
        },
    }
}

/// A copy of one metric with the same content.
#[verifier::loop_isolation(false)]
fn duplicate_metric(m: &Metric) -> (r: Metric)
    ensures
        r@ == m@,
{
    let kind = match &m.def.kind {
        MetricKind::Counter => MetricKind::Counter,
        MetricKind::Gauge => MetricKind::Gauge,
        MetricKind::Histogram(b) => MetricKind::Histogram(copy_u64s(b)),
    };
    let def = MetricDef {
        name: m.def.name.clone(),
        help: m.def.help.clone(),
        label_names: duplicate_labels(&m.def.label_names),
        kind,
    };
    let n = m.series.len();
    let mut series: Vec<Series> = Vec::new();
    proof {
        assert(series@.map_values(|s: Series| (labels_view(s.labels@), s.value@)) =~= m@.series.take(
            0,
        ));
    }
    let mut i: usize = 0;
    while i < n
        invariant
            i <= n,
            n == m.series@.len(),
            series@.map_values(|s: Series| (labels_view(s.labels@), s.value@)) == m@.series.take(
                i as int,
            ),
        decreases n - i,
    {
        series.push(duplicate_series(&m.series[i]));
        proof {
            assert(series@.map_values(|s: Series| (labels_view(s.labels@), s.value@))
                =~= m@.series.take(i + 1));
        }
        i += 1;
    }
    proof {
        assert(m@.series.take(n as int) =~= m@.series);
    }
    let r = Metric { def, series };
    proof {
        assert(r@ == m@);
    }
    r
}

impl Registry {
    /// Takes a snapshot of every registered metric's current value set.
    /// With no intervening mutation, two snapshots have the same content.
    #[verifier::loop_isolation(false)]
    pub fn gather(&self) -> (r: Snapshot)
        requires
            self.wf(),
        ensures
            r.entries() == self.entries(),
            r.wf(),
    {
        let n = self.metrics.len();
        let mut metrics: Vec<Metric> = Vec::new();
        proof {
            assert(metrics@.map_values(|m: Metric| (m@.name, m@)) =~= self.entries().take(0));
        }
        let mut i: usize = 0;
        while i < n
            invariant
                i <= n,
                n == self.metrics@.len(),
                metrics@.map_values(|m: Metric| (m@.name, m@)) == self.entries().take(i as int),
            decreases n - i,
        {
            metrics.push(duplicate_metric(&self.metrics[i]));
            proof {
                assert(metrics@.map_values(|m: Metric| (m@.name, m@)) =~= self.entries().take(
                    i + 1,
                ));
            }
            i += 1;
        }
        proof {
            assert(self.entries().take(n as int) =~= self.entries());
        }
        let r = Snapshot { metrics };
        proof {
            assert(r.entries() == self.entries());
        }
        r
    }

    /// Serializes the registry to the text exposition format.
    pub fn render_text(&self) -> (r: String)
        requires
            self.wf(),
        ensures
            r@ == spec_exposition(self.entries()),
    {
        proof {
            assert forall|i: int|
                0 <= i < self.metrics@.len() implies metric_wf(
                (#[trigger] self.metrics@[i])@,
            ) by {
                assert(self.entries()[i].1 == self.metrics@[i]@);
                assert(metric_wf(self.entries()[i].1));
            }
        }
        render_metrics(&self.metrics)
    }

    /// Reads a counter series, zero when nothing was counted yet.
    pub fn get_counter(&self, name: &str, labels: &Vec<String>) -> (r: u64)
        requires
            self.wf(),
        ensures
            r as int == self.counter_value(name@, labels_view(labels@)),
    {
        match self.read_value(name, labels) {
            Some(SeriesValue::Counter(c)) => *c,
            _ => 0,
        }
    }

    /// Reads a gauge series, zero when never set.
    pub fn get_gauge(&self, name: &str, labels: &Vec<String>) -> (r: i64)
        requires
            self.wf(),
        ensures
            r as int == self.gauge_value(name@, labels_view(labels@)),
    {
        match self.read_value(name, labels) {
            Some(SeriesValue::Gauge(g)) => *g,
            _ => 0,
        }
    }
}

/// Gathering twice with no intervening mutation yields identical
/// serialized output: the exposition text is a function of a snapshot's
/// content alone, and `gather` fixes that content to the registry's.
pub proof fn lemma_gather_idempotent(registry: Registry, first: Snapshot, second: Snapshot)
    requires
        first.entries() == registry.entries(),
        second.entries() == registry.entries(),
    ensures
        spec_exposition(first.entries()) == spec_exposition(second.entries()),
{
}

} // verus!
