//! Properties of the aggregator and the scheduler that span several
//! commands or steps, proved over their models.
use vstd::prelude::*;
use crate::cmd::{CounterCmd, MetricsCmd};
use crate::scheduler::{sat_add_time, Event, SchedulerModel};
use crate::state::{touch, EntryModel, StateModel};

verus! {

/// Whether `c` increments the counter `name`.
pub open spec fn increments_counter(c: MetricsCmd, name: Seq<char>) -> bool {
    match c {
        MetricsCmd::Counter(CounterCmd::Increment { name: n, .. }) => n@ == name,
        _ => false,
    }
}

/// The amount by which `c` increments a counter (zero for other commands).
pub open spec fn increment_amount(c: MetricsCmd) -> u64 {
    match c {
        MetricsCmd::Counter(CounterCmd::Increment { value, .. }) => value,
        _ => 0,
    }
}

/// The sum of the counter increments in `cs`.
pub open spec fn increment_total(cs: Seq<MetricsCmd>) -> int
    decreases cs.len(),
{
    if cs.len() == 0 {
        0
    } else {
        increment_total(cs.drop_last()) + increment_amount(cs.last())
    }
}

pub open spec fn min_int(a: int, b: int) -> int {
    if a <= b {
        a
    } else {
        b
    }
}

/// Whether two commands target the same metric: the same kind and name.
pub open spec fn same_metric(a: MetricsCmd, b: MetricsCmd) -> bool {
    &&& a.target() == b.target()
    &&& match (a, b) {
        (MetricsCmd::Counter(_), MetricsCmd::Counter(_)) => true,
        (MetricsCmd::Gauge(_), MetricsCmd::Gauge(_)) => true,
        (MetricsCmd::Histogram(_), MetricsCmd::Histogram(_)) => true,
        _ => false,
    }
}

/// Whether `e` reports the metric that `c` targets.
pub open spec fn reports(e: EntryModel, c: MetricsCmd) -> bool {
    match (e, c) {
        (EntryModel::Counter(n, _), MetricsCmd::Counter(_)) => n == c.target(),
        (EntryModel::Gauge(n, _), MetricsCmd::Gauge(_)) => n == c.target(),
        (EntryModel::Histogram(n, _), MetricsCmd::Histogram(_)) => n == c.target(),
        _ => false,
    }
}

/// Increments on one counter add up, whatever their order: applied in any
/// interleaving, they leave the counter at its start value plus the sum of
/// the increments, saturated at `u64::MAX`.
pub proof fn lemma_counter_increments_sum(m: StateModel, name: Seq<char>, cs: Seq<MetricsCmd>)
    requires
        forall|i: int| 0 <= i < cs.len() ==> increments_counter(#[trigger] cs[i], name),
    ensures
        m.apply_all(cs).counters.contains_key(name) || cs.len() == 0,
        m.apply_all(cs).counter_or_zero(name) == min_int(
            m.counter_or_zero(name) + increment_total(cs),
            u64::MAX as int,
        ),
    decreases cs.len(),
{
    if cs.len() > 0 {
        let init = cs.drop_last();
        assert forall|i: int| 0 <= i < init.len() implies increments_counter(#[trigger] init[i], name) by {
            assert(init[i] == cs[i]);
        }
        lemma_counter_increments_sum(m, name, init);
        assert(increments_counter(cs[cs.len() - 1], name));
    }
}

/// An absolute update sets a counter to its value, whatever came before.
pub proof fn lemma_absolute_overwrites(m: StateModel, name: String, value: u64)
    ensures
        m.apply(MetricsCmd::Counter(CounterCmd::Absolute { name, value })).counters[name@] == value,
{
}

/// After one or more commands on a single metric, starting with nothing
/// dirty, a diff snapshot reports exactly that metric and a second diff
/// snapshot reports nothing.
pub proof fn lemma_diff_round_trip(m: StateModel, cs: Seq<MetricsCmd>)
    requires
        m.dirty_counters.len() == 0,
        m.dirty_gauges.len() == 0,
        m.dirty_histograms.len() == 0,
        cs.len() > 0,
        forall|i: int| 0 <= i < cs.len() ==> same_metric(#[trigger] cs[i], cs[0]),
    ensures
        m.apply_all(cs).diff_entries().len() == 1,
        reports(m.apply_all(cs).diff_entries()[0], cs[0]),
        m.apply_all(cs).cleared().diff_entries().len() == 0,
{
    lemma_dirty_single(m, cs);
    let r = m.apply_all(cs);
    let d = r.diff_entries();
    assert(r.cleared().diff_entries() =~= Seq::<EntryModel>::empty());
    match cs[0] {
        MetricsCmd::Counter(_) => {
            assert(d =~= r.counter_entries(r.dirty_counters));
        },
        MetricsCmd::Gauge(_) => {
            assert(d =~= r.gauge_entries(r.dirty_gauges));
        },
        MetricsCmd::Histogram(_) => {
            assert(d =~= r.histogram_entries(r.dirty_histograms));
        },
    }
}

/// Commands on a single metric leave exactly that metric dirty.
proof fn lemma_dirty_single(m: StateModel, cs: Seq<MetricsCmd>)
    requires
        m.dirty_counters.len() == 0,
        m.dirty_gauges.len() == 0,
        m.dirty_histograms.len() == 0,
        cs.len() > 0,
        forall|i: int| 0 <= i < cs.len() ==> same_metric(#[trigger] cs[i], cs[0]),
    ensures
        m.apply_all(cs).dirty_counters == (if cs[0] is Counter {
            seq![cs[0].target()]
        } else {
            Seq::<Seq<char>>::empty()
        }),
        m.apply_all(cs).dirty_gauges == (if cs[0] is Gauge {
            seq![cs[0].target()]
        } else {
            Seq::<Seq<char>>::empty()
        }),
        m.apply_all(cs).dirty_histograms == (if cs[0] is Histogram {
            seq![cs[0].target()]
        } else {
            Seq::<Seq<char>>::empty()
        }),
    decreases cs.len(),
{
    let n = cs[0].target();
    let last = cs.last();
    assert(same_metric(cs[cs.len() - 1], cs[0]));
    assert(m.dirty_counters =~= Seq::<Seq<char>>::empty());
    assert(m.dirty_gauges =~= Seq::<Seq<char>>::empty());
    assert(m.dirty_histograms =~= Seq::<Seq<char>>::empty());
    if cs.len() == 1 {
        assert(cs.drop_last() =~= Seq::<MetricsCmd>::empty());
        assert(m.apply_all(cs.drop_last()) == m);
        assert(Seq::<Seq<char>>::empty().push(n) =~= seq![n]);
    } else {
        let init = cs.drop_last();
        assert(init[0] == cs[0]);
        assert forall|i: int| 0 <= i < init.len() implies same_metric(#[trigger] init[i], init[0]) by {
            assert(init[i] == cs[i]);
            assert(same_metric(cs[i], cs[0]));
        }
        lemma_dirty_single(m, init);
        assert(seq![n].contains(n)) by {
            assert(seq![n][0] == n);
        }
    }
}

/// Every command applied leaves its metric in its kind's table.
proof fn lemma_applied_kept(m: StateModel, cs: Seq<MetricsCmd>, i: int)
    requires
        0 <= i < cs.len(),
    ensures
        match cs[i] {
            MetricsCmd::Counter(_) => m.apply_all(cs).counter_keys.contains(cs[i].target()),
            MetricsCmd::Gauge(_) => m.apply_all(cs).gauge_keys.contains(cs[i].target()),
            MetricsCmd::Histogram(_) => m.apply_all(cs).histogram_keys.contains(cs[i].target()),
        },
    decreases cs.len(),
{
    let init = cs.drop_last();
    let p = m.apply_all(init);
    let n = cs.last().target();
    lemma_touch_keeps(p.counter_keys, n);
    lemma_touch_keeps(p.gauge_keys, n);
    lemma_touch_keeps(p.histogram_keys, n);
    if i < cs.len() - 1 {
        assert(init[i] == cs[i]);
        lemma_applied_kept(m, init, i);
    }
}

proof fn lemma_touch_keeps(keys: Seq<Seq<char>>, n: Seq<char>)
    ensures
        touch(keys, n).contains(n),
        forall|k: Seq<char>| keys.contains(k) ==> #[trigger] touch(keys, n).contains(k),
{
    if !keys.contains(n) {
        assert(keys.push(n)[keys.len() as int] == n);
        assert forall|k: Seq<char>| keys.contains(k) implies #[trigger] touch(keys, n).contains(k) by {
            let w = choose|w: int| 0 <= w < keys.len() && keys[w] == k;
            assert(keys.push(n)[w] == k);
        }
    }
}

/// Diff snapshots do not hide anything from a full snapshot: after any
/// commands and two diff snapshots, a full snapshot still reports every
/// metric that a command ever touched.
pub proof fn lemma_full_after_diffs(cs: Seq<MetricsCmd>, i: int)
    requires
        0 <= i < cs.len(),
    ensures
        exists|j: int|
            0 <= j < StateModel::empty().apply_all(cs).cleared().cleared().full_entries().len()
                && reports(
                #[trigger] StateModel::empty().apply_all(cs).cleared().cleared().full_entries()[j],
                cs[i],
            ),
{
    let r = StateModel::empty().apply_all(cs);
    let s = r.cleared().cleared();
    let f = s.full_entries();
    let n = cs[i].target();
    lemma_applied_kept(StateModel::empty(), cs, i);
    let a = r.counter_keys.len();
    let b = r.gauge_keys.len();
    match cs[i] {
        MetricsCmd::Counter(_) => {
            let w = choose|w: int| 0 <= w < r.counter_keys.len() && r.counter_keys[w] == n;
            assert(reports(f[w], cs[i]));
        },
        MetricsCmd::Gauge(_) => {
            let w = choose|w: int| 0 <= w < r.gauge_keys.len() && r.gauge_keys[w] == n;
            assert(f[a + w] == s.gauge_entries(s.gauge_keys)[w]);
            assert(reports(f[a + w], cs[i]));
        },
        MetricsCmd::Histogram(_) => {
            let w = choose|w: int| 0 <= w < r.histogram_keys.len() && r.histogram_keys[w] == n;
            assert(f[a + b + w] == s.histogram_entries(s.histogram_keys)[w]);
            assert(reports(f[a + b + w], cs[i]));
        },
    }
}

/// Under a steady stream of commands the periodic flush is not postponed:
/// a command that arrives before the deadline leaves the deadline where it
/// is, and one that arrives at or after it is reported in the same step,
/// after which the next deadline is one interval later.
pub proof fn lemma_periodic_flush_bound(s: SchedulerModel, c: MetricsCmd, now: u64)
    requires
        s.mode is Periodic,
        !s.closed,
    ensures
        now < s.next_flush ==> s.next(Event::Command(c), now).next_flush == s.next_flush,
        now >= s.next_flush ==> s.emitted(Event::Command(c), now).len() > 0,
        now >= s.next_flush ==> s.next(Event::Command(c), now).next_flush == sat_add_time(now, s.interval()),
{
    let p = s.state.apply(c);
    let n = c.target();
    lemma_touch_keeps(s.state.counter_keys, n);
    lemma_touch_keeps(s.state.gauge_keys, n);
    lemma_touch_keeps(s.state.histogram_keys, n);
    lemma_touch_keeps(s.state.dirty_counters, n);
    lemma_touch_keeps(s.state.dirty_gauges, n);
    lemma_touch_keeps(s.state.dirty_histograms, n);
    if now >= s.next_flush {
        match c {
            MetricsCmd::Counter(_) => {
                assert(p.dirty_counters.len() > 0);
                assert(p.counter_keys.len() > 0);
            },
            MetricsCmd::Gauge(_) => {
                assert(p.dirty_gauges.len() > 0);
                assert(p.gauge_keys.len() > 0);
            },
            MetricsCmd::Histogram(_) => {
                assert(p.dirty_histograms.len() > 0);
                assert(p.histogram_keys.len() > 0);
            },
        }
    }
}

/// The scheduler after handling the commands `cs[j]` at the times `ts[j]`,
/// for each `j < k` in order.
pub open spec fn run_commands(s: SchedulerModel, cs: Seq<MetricsCmd>, ts: Seq<u64>, k: nat) -> SchedulerModel
    decreases k,
{
    if k == 0 {
        s
    } else {
        run_commands(s, cs, ts, (k - 1) as nat).next(Event::Command(cs[k - 1]), ts[k - 1])
    }
}

/// Commands handled before the periodic deadline leave the deadline where
/// it is.
proof fn lemma_deadline_kept(s: SchedulerModel, cs: Seq<MetricsCmd>, ts: Seq<u64>, k: nat)
    requires
        s.mode is Periodic,
        !s.closed,
        k <= cs.len(),
        k <= ts.len(),
        forall|j: int| 0 <= j < k ==> #[trigger] ts[j] < s.next_flush,
    ensures
        run_commands(s, cs, ts, k).next_flush == s.next_flush,
        run_commands(s, cs, ts, k).mode == s.mode,
        !run_commands(s, cs, ts, k).closed,
    decreases k,
{
    if k > 0 {
        lemma_deadline_kept(s, cs, ts, (k - 1) as nat);
        let p = run_commands(s, cs, ts, (k - 1) as nat);
        lemma_periodic_flush_bound(p, cs[k - 1], ts[k - 1]);
    }
}

proof fn lemma_flush_search(s: SchedulerModel, cs: Seq<MetricsCmd>, ts: Seq<u64>, k: nat)
    requires
        s.mode is Periodic,
        !s.closed,
        cs.len() == ts.len(),
        k < cs.len(),
        ts.last() >= s.next_flush,
        forall|j: int| 0 <= j < k ==> #[trigger] ts[j] < s.next_flush,
    ensures
        exists|i: int|
            0 <= i < cs.len() && (#[trigger] run_commands(s, cs, ts, i as nat)).emitted(Event::Command(cs[i]), ts[i]).len() > 0,
    decreases cs.len() - k,
{
    if ts[k as int] >= s.next_flush {
        lemma_deadline_kept(s, cs, ts, k);
        lemma_periodic_flush_bound(run_commands(s, cs, ts, k), cs[k as int], ts[k as int]);
        assert(run_commands(s, cs, ts, (k as int) as nat) == run_commands(s, cs, ts, k));
    } else {
        lemma_flush_search(s, cs, ts, k + 1);
    }
}

/// A stream of commands cannot hold off the periodic report: once some
/// command is handled at or after the current deadline, one of the
/// commands up to it (the first one past the deadline) is followed by a
/// non-empty report.
pub proof fn lemma_stream_reaches_flush(s: SchedulerModel, cs: Seq<MetricsCmd>, ts: Seq<u64>)
    requires
        s.mode is Periodic,
        !s.closed,
        cs.len() == ts.len(),
        cs.len() > 0,
        ts.last() >= s.next_flush,
    ensures
        exists|i: int|
            0 <= i < cs.len() && (#[trigger] run_commands(s, cs, ts, i as nat)).emitted(Event::Command(cs[i]), ts[i]).len() > 0,
{
    lemma_flush_search(s, cs, ts, 0);
}

/// Closing the queue stops the scheduler without a final report, even
/// when updates are still unreported; once stopped it stays stopped and
/// reports nothing more.
pub proof fn lemma_shutdown_drop(s: SchedulerModel, ev: Event, now: u64, later: u64)
    ensures
        s.emitted(Event::Closed, now).len() == 0,
        s.next(Event::Closed, now).closed,
        s.next(Event::Closed, now).state == s.state,
        s.next(Event::Closed, now).next(ev, later).closed,
        s.next(Event::Closed, now).emitted(ev, later).len() == 0,
        s.next(Event::Closed, now).next(ev, later).state == s.state,
{
}

} // verus!
