//! The aggregator: single-writer metric state with per-kind dirty sets, and
//! the diff and full snapshots taken from it.
use vstd::prelude::*;
use crate::cmd::{CounterCmd, GaugeCmd, HistogramCmd, MetricsCmd};
use crate::table::{NameSet, NameTable};

verus! {

/// Which metrics a snapshot reports.
#[derive(Clone, Copy, Debug, PartialEq, Eq, Structural)]
pub enum PeriodicMode {
    /// Only the metrics updated since the previous diff snapshot; the dirty
    /// sets are cleared.
    Diff,
    /// Every metric ever updated; the dirty sets are left as they are.
    Full,
}

/// One reported metric with its current value.
#[derive(Clone, Debug, PartialEq, Eq)]
pub enum MetricEntry {
    Counter { name: String, value: u64 },
    Gauge { name: String, value: i64 },
    /// A histogram and the number of samples it has received.
    Histogram { name: String, samples: u64 },
}

/// The mathematical value of a [`MetricEntry`].
pub enum EntryModel {
    Counter(Seq<char>, u64),
    Gauge(Seq<char>, i64),
    Histogram(Seq<char>, u64),
}

impl MetricEntry {
    pub open spec fn model(&self) -> EntryModel {
        match self {
            MetricEntry::Counter { name, value } => EntryModel::Counter(name@, *value),
            MetricEntry::Gauge { name, value } => EntryModel::Gauge(name@, *value),
            MetricEntry::Histogram { name, samples } => EntryModel::Histogram(name@, *samples),
        }
    }
}

pub open spec fn entries_model(es: Seq<MetricEntry>) -> Seq<EntryModel> {
    es.map_values(|e: MetricEntry| e.model())
}

/// The aggregator's state: for each kind the names in first-update order,
/// the value under each name, and the names updated since the last diff
/// snapshot (in first-update order).
pub struct StateModel {
    pub counter_keys: Seq<Seq<char>>,
    pub counters: Map<Seq<char>, u64>,
    pub gauge_keys: Seq<Seq<char>>,
    pub gauges: Map<Seq<char>, i64>,
    pub histogram_keys: Seq<Seq<char>>,
    /// Sample count of each histogram.
    pub histograms: Map<Seq<char>, u64>,
    pub dirty_counters: Seq<Seq<char>>,
    pub dirty_gauges: Seq<Seq<char>>,
    pub dirty_histograms: Seq<Seq<char>>,
}

pub open spec fn keyed_by<V>(keys: Seq<Seq<char>>, m: Map<Seq<char>, V>) -> bool {
    &&& keys.no_duplicates()
    &&& forall|k: Seq<char>| #[trigger] m.contains_key(k) <==> keys.contains(k)
}

pub open spec fn dirty_within(dirty: Seq<Seq<char>>, keys: Seq<Seq<char>>) -> bool {
    &&& dirty.no_duplicates()
    &&& forall|i: int| 0 <= i < dirty.len() ==> keys.contains(#[trigger] dirty[i])
}

/// `keys` with `n` appended unless it is already there.
pub open spec fn touch(keys: Seq<Seq<char>>, n: Seq<char>) -> Seq<Seq<char>> {
    if keys.contains(n) {
        keys
    } else {
        keys.push(n)
    }
}

pub open spec fn sat_add_u64(a: u64, b: u64) -> u64 {
    if a + b > u64::MAX {
        u64::MAX
    } else {
        (a + b) as u64
    }
}

/// `x` clamped to the range of `i64`.
pub open spec fn clamp_i64(x: int) -> i64 {
    if x > i64::MAX {
        i64::MAX
    } else if x < i64::MIN {
        i64::MIN
    } else {
        x as i64
    }
}

impl StateModel {
    pub open spec fn empty() -> StateModel {
        StateModel {
            counter_keys: Seq::empty(),
            counters: Map::empty(),
            gauge_keys: Seq::empty(),
            gauges: Map::empty(),
            histogram_keys: Seq::empty(),
            histograms: Map::empty(),
            dirty_counters: Seq::empty(),
            dirty_gauges: Seq::empty(),
            dirty_histograms: Seq::empty(),
        }
    }

    /// Each table's keys are its domain without repetition, each dirty name
    /// exists in its kind's table, and every histogram has a sample.
    pub open spec fn valid(self) -> bool {
        &&& keyed_by(self.counter_keys, self.counters)
        &&& keyed_by(self.gauge_keys, self.gauges)
        &&& keyed_by(self.histogram_keys, self.histograms)
        &&& dirty_within(self.dirty_counters, self.counter_keys)
        &&& dirty_within(self.dirty_gauges, self.gauge_keys)
        &&& dirty_within(self.dirty_histograms, self.histogram_keys)
        &&& forall|k: Seq<char>| #[trigger] self.histograms.contains_key(k) ==> self.histograms[k] > 0
    }

    pub open spec fn counter_or_zero(self, n: Seq<char>) -> u64 {
        if self.counters.contains_key(n) {
            self.counters[n]
        } else {
            0
        }
    }

    pub open spec fn gauge_or_zero(self, n: Seq<char>) -> i64 {
        if self.gauges.contains_key(n) {
            self.gauges[n]
        } else {
            0
        }
    }

    pub open spec fn set_counter(self, n: Seq<char>, v: u64) -> StateModel {
        StateModel {
            counter_keys: touch(self.counter_keys, n),
            counters: self.counters.insert(n, v),
            dirty_counters: touch(self.dirty_counters, n),
            ..self
        }
    }

    pub open spec fn set_gauge(self, n: Seq<char>, v: i64) -> StateModel {
        StateModel {
            gauge_keys: touch(self.gauge_keys, n),
            gauges: self.gauges.insert(n, v),
            dirty_gauges: touch(self.dirty_gauges, n),
            ..self
        }
    }

    pub open spec fn record_histogram(self, n: Seq<char>) -> StateModel {
        let samples: u64 = if self.histograms.contains_key(n) {
            sat_add_u64(self.histograms[n], 1)
        } else {
            1
        };
        StateModel {
            histogram_keys: touch(self.histogram_keys, n),
            histograms: self.histograms.insert(n, samples),
            dirty_histograms: touch(self.dirty_histograms, n),
            ..self
        }
    }

    /// The state after applying one command.
    pub open spec fn apply(self, c: MetricsCmd) -> StateModel {
        match c {
            MetricsCmd::Counter(CounterCmd::Increment { name, value }) =>
                self.set_counter(name@, sat_add_u64(self.counter_or_zero(name@), value)),
            MetricsCmd::Counter(CounterCmd::Absolute { name, value }) =>
                self.set_counter(name@, value),
            MetricsCmd::Gauge(GaugeCmd::Increment { name, value }) =>
                self.set_gauge(name@, clamp_i64(self.gauge_or_zero(name@) + value)),
            MetricsCmd::Gauge(GaugeCmd::Decrement { name, value }) =>
                self.set_gauge(name@, clamp_i64(self.gauge_or_zero(name@) - value)),
            MetricsCmd::Gauge(GaugeCmd::SetTo { name, value }) => self.set_gauge(name@, value),
            MetricsCmd::Histogram(HistogramCmd::Record { name }) => self.record_histogram(name@),
        }
    }

    /// The state after applying `cs` in order.
    pub open spec fn apply_all(self, cs: Seq<MetricsCmd>) -> StateModel
        decreases cs.len(),
    {
        if cs.len() == 0 {
            self
        } else {
            self.apply_all(cs.drop_last()).apply(cs.last())
        }
    }

    pub open spec fn counter_entries(self, names: Seq<Seq<char>>) -> Seq<EntryModel> {
        names.map_values(|n: Seq<char>| EntryModel::Counter(n, self.counters[n]))
    }

    pub open spec fn gauge_entries(self, names: Seq<Seq<char>>) -> Seq<EntryModel> {
        names.map_values(|n: Seq<char>| EntryModel::Gauge(n, self.gauges[n]))
    }

    pub open spec fn histogram_entries(self, names: Seq<Seq<char>>) -> Seq<EntryModel> {
        names.map_values(|n: Seq<char>| EntryModel::Histogram(n, self.histograms[n]))
    }

    /// What a diff snapshot reports: the dirty counters, then the dirty
    /// gauges, then the dirty histograms.
    pub open spec fn diff_entries(self) -> Seq<EntryModel> {
        self.counter_entries(self.dirty_counters) + self.gauge_entries(self.dirty_gauges)
            + self.histogram_entries(self.dirty_histograms)
    }

    /// What a full snapshot reports: every counter, gauge and histogram.
    pub open spec fn full_entries(self) -> Seq<EntryModel> {
        self.counter_entries(self.counter_keys) + self.gauge_entries(self.gauge_keys)
            + self.histogram_entries(self.histogram_keys)
    }

    /// The same state with every dirty set emptied.
    pub open spec fn cleared(self) -> StateModel {
        StateModel {
            dirty_counters: Seq::empty(),
            dirty_gauges: Seq::empty(),
            dirty_histograms: Seq::empty(),
            ..self
        }
    }

    /// The entries that a snapshot under `mode` reports.
    pub open spec fn entries(self, mode: PeriodicMode) -> Seq<EntryModel> {
        match mode {
            PeriodicMode::Diff => self.diff_entries(),
            PeriodicMode::Full => self.full_entries(),
        }
    }

    /// The state after a snapshot under `mode`.
    pub open spec fn after_snapshot(self, mode: PeriodicMode) -> StateModel {
        match mode {
            PeriodicMode::Diff => self.cleared(),
            PeriodicMode::Full => self,
        }
    }
}

/// The metric state, owned and mutated by a single worker.
pub struct MetricsState {
    counter_state: NameTable<u64>,
    gauge_state: NameTable<i64>,
    histogram_state: NameTable<u64>,
    counter_updates: NameSet,
    gauge_updates: NameSet,
    histogram_updates: NameSet,
}

/// Touching the same name in a dirty list and in its table keeps every
/// dirty name in the table.
proof fn lemma_touch(dirty: Seq<Seq<char>>, keys: Seq<Seq<char>>, n: Seq<char>)
    requires
        dirty_within(dirty, keys),
    ensures
        dirty_within(touch(dirty, n), touch(keys, n)),
        touch(keys, n).contains(n),
{
    if !keys.contains(n) {
        assert(keys.push(n)[keys.len() as int] == n);
    }
    assert forall|i: int| 0 <= i < touch(dirty, n).len() implies touch(keys, n).contains(#[trigger] touch(dirty, n)[i]) by {
        if i < dirty.len() {
            let d = dirty[i];
            assert(keys.contains(d));
            let w = choose|w: int| 0 <= w < keys.len() && keys[w] == d;
            assert(touch(keys, n)[w] == d);
        } else {
            assert(touch(dirty, n)[i] == n);
        }
    }
}

fn saturating_add_i64(a: i64, b: i64) -> (r: i64)
    ensures
        r == clamp_i64(a + b),
{
    let s: i128 = a as i128 + b as i128;
    if s > i64::MAX as i128 {
        i64::MAX
    } else if s < i64::MIN as i128 {
        i64::MIN
    } else {
        s as i64
    }
}

fn saturating_sub_i64(a: i64, b: i64) -> (r: i64)
    ensures
        r == clamp_i64(a - b),
{
    let s: i128 = a as i128 - b as i128;
    if s > i64::MAX as i128 {
        i64::MAX
    } else if s < i64::MIN as i128 {
        i64::MIN
    } else {
        s as i64
    }
}

impl MetricsState {
    pub closed spec fn model(&self) -> StateModel {
        StateModel {
            counter_keys: self.counter_state.keys(),
            counters: self.counter_state.map(),
            gauge_keys: self.gauge_state.keys(),
            gauges: self.gauge_state.map(),
            histogram_keys: self.histogram_state.keys(),
            histograms: self.histogram_state.map(),
            dirty_counters: self.counter_updates.elems(),
            dirty_gauges: self.gauge_updates.elems(),
            dirty_histograms: self.histogram_updates.elems(),
        }
    }

    pub closed spec fn wf(&self) -> bool {
        &&& self.counter_state.wf()
        &&& self.gauge_state.wf()
        &&& self.histogram_state.wf()
        &&& self.counter_updates.wf()
        &&& self.gauge_updates.wf()
        &&& self.histogram_updates.wf()
        &&& self.model().valid()
    }

    /// An empty state: no metric and nothing dirty.
    pub fn new() -> (r: Self)
        ensures
            r.wf(),
            r.model() == StateModel::empty(),
    {
        let r = MetricsState {
            counter_state: NameTable::new(),
            gauge_state: NameTable::new(),
            histogram_state: NameTable::new(),
            counter_updates: NameSet::new(),
            gauge_updates: NameSet::new(),
            histogram_updates: NameSet::new(),
        };
        r
    }

    proof fn lemma_tables(&self)
        requires
            self.counter_state.wf(),
            self.gauge_state.wf(),
            self.histogram_state.wf(),
            self.counter_updates.wf(),
            self.gauge_updates.wf(),
            self.histogram_updates.wf(),
        ensures
            keyed_by(self.model().counter_keys, self.model().counters),
            keyed_by(self.model().gauge_keys, self.model().gauges),
            keyed_by(self.model().histogram_keys, self.model().histograms),
            self.model().dirty_counters.no_duplicates(),
            self.model().dirty_gauges.no_duplicates(),
            self.model().dirty_histograms.no_duplicates(),
    {
        self.counter_state.lemma_keyed();
        self.gauge_state.lemma_keyed();
        self.histogram_state.lemma_keyed();
        self.counter_updates.lemma_distinct();
        self.gauge_updates.lemma_distinct();
        self.histogram_updates.lemma_distinct();
    }

    /// Applies one command: counters add with saturation or are overwritten,
    /// gauges add or subtract with saturation or are overwritten, histograms
    /// gain one sample; the metric is marked dirty in its kind's set.
    pub fn update(&mut self, cmd: MetricsCmd)
        requires
            old(self).wf(),
        ensures
            final(self).wf(),
            final(self).model() == old(self).model().apply(cmd),
    {
        let ghost m0 = self.model();
        match cmd {
            MetricsCmd::Counter(CounterCmd::Increment { name, value }) => {
                let cur: u64 = match self.counter_state.get(&name) {
                    Some(v) => v,
                    None => 0,
                };
                self.counter_state.upsert(name.clone(), cur.saturating_add(value));
                self.counter_updates.insert(name);
            },
            MetricsCmd::Counter(CounterCmd::Absolute { name, value }) => {
                self.counter_state.upsert(name.clone(), value);
                self.counter_updates.insert(name);
            },
            MetricsCmd::Gauge(GaugeCmd::Increment { name, value }) => {
                let cur: i64 = match self.gauge_state.get(&name) {
                    Some(v) => v,
                    None => 0,
                };
                self.gauge_state.upsert(name.clone(), saturating_add_i64(cur, value));
                self.gauge_updates.insert(name);
            },
            MetricsCmd::Gauge(GaugeCmd::Decrement { name, value }) => {
                let cur: i64 = match self.gauge_state.get(&name) {
                    Some(v) => v,
                    None => 0,
                };
                self.gauge_state.upsert(name.clone(), saturating_sub_i64(cur, value));
                self.gauge_updates.insert(name);
            },
            MetricsCmd::Gauge(GaugeCmd::SetTo { name, value }) => {
                self.gauge_state.upsert(name.clone(), value);
                self.gauge_updates.insert(name);
            },
            MetricsCmd::Histogram(HistogramCmd::Record { name }) => {
                let samples: u64 = match self.histogram_state.get(&name) {
                    Some(v) => v.saturating_add(1),
                    None => 1,
                };
                self.histogram_state.upsert(name.clone(), samples);
                self.histogram_updates.insert(name);
            },
        }
        proof {
            self.lemma_tables();
            let n = cmd.target();
            lemma_touch(m0.dirty_counters, m0.counter_keys, n);
            lemma_touch(m0.dirty_gauges, m0.gauge_keys, n);
            lemma_touch(m0.dirty_histograms, m0.histogram_keys, n);
            assert(self.model() == m0.apply(cmd));
        }
    }

    /// Appends a counter entry for each of `names`.
    fn emit_counters(&self, names: &Vec<String>, out: &mut Vec<MetricEntry>)
        requires
            self.wf(),
            forall|i: int| 0 <= i < names@.len() ==> self.model().counters.contains_key(#[trigger] names@[i]@),
        ensures
            entries_model(final(out)@) == entries_model(old(out)@) + self.model().counter_entries(
                names@.map_values(|s: String| s@),
            ),
    {
        let ghost m = self.model();
        let ghost want = m.counter_entries(names@.map_values(|s: String| s@));
        let mut i: usize = 0;
        while i < names.len()
            invariant
                self.wf(),
                m == self.model(),
                want == m.counter_entries(names@.map_values(|s: String| s@)),
                forall|j: int| 0 <= j < names@.len() ==> m.counters.contains_key(#[trigger] names@[j]@),
                i <= names@.len(),
                entries_model(out@) == entries_model(old(out)@) + want.take(i as int),
            decreases names.len() - i,
        {
            let name = &names[i];
            assert(m.counters.contains_key(names@[i as int]@));
            match self.counter_state.get(name) {
                Some(v) => {
                    let ghost before = out@;
                    out.push(MetricEntry::Counter { name: name.clone(), value: v });
                    assert(entries_model(out@) =~= entries_model(before).push(want[i as int]));
                },
                None => {},
            }
            assert(want.take(i + 1) =~= want.take(i as int).push(want[i as int]));
            i = i + 1;
        }
        assert(want.take(i as int) =~= want);
    }

    /// Appends a gauge entry for each of `names`.
    fn emit_gauges(&self, names: &Vec<String>, out: &mut Vec<MetricEntry>)
        requires
            self.wf(),
            forall|i: int| 0 <= i < names@.len() ==> self.model().gauges.contains_key(#[trigger] names@[i]@),
        ensures
            entries_model(final(out)@) == entries_model(old(out)@) + self.model().gauge_entries(
                names@.map_values(|s: String| s@),
            ),
    {
        let ghost m = self.model();
        let ghost want = m.gauge_entries(names@.map_values(|s: String| s@));
        let mut i: usize = 0;
        while i < names.len()
            invariant
                self.wf(),
                m == self.model(),
                want == m.gauge_entries(names@.map_values(|s: String| s@)),
                forall|j: int| 0 <= j < names@.len() ==> m.gauges.contains_key(#[trigger] names@[j]@),
                i <= names@.len(),
                entries_model(out@) == entries_model(old(out)@) + want.take(i as int),
            decreases names.len() - i,
        {
            let name = &names[i];
            assert(m.gauges.contains_key(names@[i as int]@));
            match self.gauge_state.get(name) {
                Some(v) => {
                    let ghost before = out@;
                    out.push(MetricEntry::Gauge { name: name.clone(), value: v });
                    assert(entries_model(out@) =~= entries_model(before).push(want[i as int]));
                },
                None => {},
            }
            assert(want.take(i + 1) =~= want.take(i as int).push(want[i as int]));
            i = i + 1;
        }
        assert(want.take(i as int) =~= want);
    }

    /// Appends a histogram entry for each of `names`.
    fn emit_histograms(&self, names: &Vec<String>, out: &mut Vec<MetricEntry>)
        requires
            self.wf(),
            forall|i: int| 0 <= i < names@.len() ==> self.model().histograms.contains_key(#[trigger] names@[i]@),
        ensures
            entries_model(final(out)@) == entries_model(old(out)@) + self.model().histogram_entries(
                names@.map_values(|s: String| s@),
            ),
    {
        let ghost m = self.model();
        let ghost want = m.histogram_entries(names@.map_values(|s: String| s@));
        let mut i: usize = 0;
        while i < names.len()
            invariant
                self.wf(),
                m == self.model(),
                want == m.histogram_entries(names@.map_values(|s: String| s@)),
                forall|j: int| 0 <= j < names@.len() ==> m.histograms.contains_key(#[trigger] names@[j]@),
                i <= names@.len(),
                entries_model(out@) == entries_model(old(out)@) + want.take(i as int),
            decreases names.len() - i,
        {
            let name = &names[i];
            assert(m.histograms.contains_key(names@[i as int]@));
            match self.histogram_state.get(name) {
                Some(v) => {
                    let ghost before = out@;
                    out.push(MetricEntry::Histogram { name: name.clone(), samples: v });
                    assert(entries_model(out@) =~= entries_model(before).push(want[i as int]));
                },
                None => {},
            }
            assert(want.take(i + 1) =~= want.take(i as int).push(want[i as int]));
            i = i + 1;
        }
        assert(want.take(i as int) =~= want);
    }

    /// Reports the metrics updated since the previous diff snapshot and
    /// clears the dirty sets; `None` when nothing was updated.
    fn output_diff(&mut self) -> (r: Option<Vec<MetricEntry>>)
        requires
            old(self).wf(),
        ensures
            final(self).wf(),
            final(self).model() == old(self).model().cleared(),
            r is None <==> old(self).model().diff_entries().len() == 0,
            r matches Some(es) ==> entries_model(es@) == old(self).model().diff_entries(),
    {
        let ghost m = self.model();
        proof {
            self.lemma_tables();
        }
        let mut out: Vec<MetricEntry> = Vec::new();
        let names = self.counter_updates.names();
        assert forall|i: int| 0 <= i < names@.len() implies m.counters.contains_key(#[trigger] names@[i]@) by {
            assert(m.dirty_counters[i] == names@[i]@);
        }
        self.emit_counters(names, &mut out);
        let names = self.gauge_updates.names();
        assert forall|i: int| 0 <= i < names@.len() implies m.gauges.contains_key(#[trigger] names@[i]@) by {
            assert(m.dirty_gauges[i] == names@[i]@);
        }
        self.emit_gauges(names, &mut out);
        let names = self.histogram_updates.names();
        assert forall|i: int| 0 <= i < names@.len() implies m.histograms.contains_key(#[trigger] names@[i]@) by {
            assert(m.dirty_histograms[i] == names@[i]@);
        }
        self.emit_histograms(names, &mut out);
        assert(entries_model(out@) =~= m.diff_entries());
        self.counter_updates.clear();
        self.gauge_updates.clear();
        self.histogram_updates.clear();
        proof {
            self.lemma_tables();
            assert(self.model() == m.cleared());
        }
        if out.len() == 0 {
            None
        } else {
            Some(out)
        }
    }

    /// Reports every metric ever updated, leaving the state as it is;
    /// `None` when no metric exists.
    fn output_full(&self) -> (r: Option<Vec<MetricEntry>>)
        requires
            self.wf(),
        ensures
            r is None <==> self.model().full_entries().len() == 0,
            r matches Some(es) ==> entries_model(es@) == self.model().full_entries(),
    {
        let ghost m = self.model();
        proof {
            self.lemma_tables();
        }
        let mut out: Vec<MetricEntry> = Vec::new();
        let names = self.counter_state.names();
        assert forall|i: int| 0 <= i < names@.len() implies m.counters.contains_key(#[trigger] names@[i]@) by {
            assert(m.counter_keys[i] == names@[i]@);
            assert(m.counter_keys.contains(names@[i]@));
        }
        self.emit_counters(names, &mut out);
        let names = self.gauge_state.names();
        assert forall|i: int| 0 <= i < names@.len() implies m.gauges.contains_key(#[trigger] names@[i]@) by {
            assert(m.gauge_keys[i] == names@[i]@);
            assert(m.gauge_keys.contains(names@[i]@));
        }
        self.emit_gauges(names, &mut out);
        let names = self.histogram_state.names();
        assert forall|i: int| 0 <= i < names@.len() implies m.histograms.contains_key(#[trigger] names@[i]@) by {
            assert(m.histogram_keys[i] == names@[i]@);
            assert(m.histogram_keys.contains(names@[i]@));
        }
        self.emit_histograms(names, &mut out);
        assert(entries_model(out@) =~= m.full_entries());
        if out.len() == 0 {
            None
        } else {
            Some(out)
        }
    }

    /// Takes a snapshot under `mode`: `None` when it would report nothing,
    /// else the entries in order (counters, then gauges, then histograms).
    /// Only a diff snapshot changes the state, by clearing the dirty sets.
    pub fn output_logs(&mut self, mode: PeriodicMode) -> (r: Option<Vec<MetricEntry>>)
        requires
            old(self).wf(),
        ensures
            final(self).wf(),
            final(self).model() == old(self).model().after_snapshot(mode),
            r is None <==> old(self).model().entries(mode).len() == 0,
            r matches Some(es) ==> entries_model(es@) == old(self).model().entries(mode),
    {
        match mode {
            PeriodicMode::Diff => self.output_diff(),
            PeriodicMode::Full => self.output_full(),
        }
    }
}

} // verus!
