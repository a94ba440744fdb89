use metrics_logger::{
    CounterCmd, GaugeCmd, HistogramCmd, MetricEntry, MetricsCmd, MetricsState, PeriodicMode,
};

fn inc(name: &str, value: u64) -> MetricsCmd {
    MetricsCmd::Counter(CounterCmd::Increment { name: name.to_string(), value })
}

fn abs(name: &str, value: u64) -> MetricsCmd {
    MetricsCmd::Counter(CounterCmd::Absolute { name: name.to_string(), value })
}

fn gauge_inc(name: &str, value: f64) -> MetricsCmd {
    MetricsCmd::Gauge(GaugeCmd::Increment { name: name.to_string(), value: value as i64 })
}

fn gauge_dec(name: &str, value: f64) -> MetricsCmd {
    MetricsCmd::Gauge(GaugeCmd::Decrement { name: name.to_string(), value: value as i64 })
}

fn gauge_set(name: &str, value: f64) -> MetricsCmd {
    MetricsCmd::Gauge(GaugeCmd::SetTo { name: name.to_string(), value: value as i64 })
}

fn record(name: &str) -> MetricsCmd {
    MetricsCmd::Histogram(HistogramCmd::Record { name: name.to_string() })
}

fn counter(name: &str, value: u64) -> MetricEntry {
    MetricEntry::Counter { name: name.to_string(), value }
}

fn gauge(name: &str, value: i64) -> MetricEntry {
    MetricEntry::Gauge { name: name.to_string(), value }
}

fn histogram(name: &str, samples: u64) -> MetricEntry {
    MetricEntry::Histogram { name: name.to_string(), samples }
}

fn run(cmds: Vec<MetricsCmd>) -> MetricsState {
    let mut state = MetricsState::new();
    for c in cmds {
        state.update(c);
    }
    state
}

#[test]
fn counter_increments_add_up_in_any_order() {
    let values = [3u64, 11, 0, 7, 250];
    let mut forward = MetricsState::new();
    for v in values.iter() {
        forward.update(inc("requests", *v));
    }
    let mut backward = MetricsState::new();
    for v in values.iter().rev() {
        backward.update(inc("requests", *v));
    }
    assert_eq!(forward.output_logs(PeriodicMode::Full), Some(vec![counter("requests", 271)]));
    assert_eq!(backward.output_logs(PeriodicMode::Full), Some(vec![counter("requests", 271)]));
}

#[test]
fn counter_increment_saturates() {
    let mut state = run(vec![inc("c", u64::MAX - 1), inc("c", 5)]);
    assert_eq!(state.output_logs(PeriodicMode::Diff), Some(vec![counter("c", u64::MAX)]));
}

#[test]
fn absolute_overwrites_counter() {
    let mut state = run(vec![inc("c", 5), abs("c", 10)]);
    assert_eq!(state.output_logs(PeriodicMode::Diff), Some(vec![counter("c", 10)]));
    state.update(inc("c", 1));
    state.update(abs("c", 3));
    assert_eq!(state.output_logs(PeriodicMode::Diff), Some(vec![counter("c", 3)]));
}

#[test]
fn gauge_truncates_each_update() {
    let mut state = run(vec![gauge_inc("g", 2.7), gauge_dec("g", 1.2)]);
    assert_eq!(state.output_logs(PeriodicMode::Diff), Some(vec![gauge("g", 1)]));
}

#[test]
fn gauge_set_overwrites_and_goes_negative() {
    let mut state = run(vec![gauge_inc("g", 40.0), gauge_set("g", -3.9), gauge_dec("g", 2.0)]);
    assert_eq!(state.output_logs(PeriodicMode::Diff), Some(vec![gauge("g", -5)]));
}

#[test]
fn gauge_saturates_at_both_bounds() {
    let mut state = run(vec![
        MetricsCmd::Gauge(GaugeCmd::SetTo { name: "hi".to_string(), value: i64::MAX }),
        MetricsCmd::Gauge(GaugeCmd::Increment { name: "hi".to_string(), value: 10 }),
        MetricsCmd::Gauge(GaugeCmd::SetTo { name: "lo".to_string(), value: i64::MIN }),
        MetricsCmd::Gauge(GaugeCmd::Decrement { name: "lo".to_string(), value: 10 }),
    ]);
    assert_eq!(
        state.output_logs(PeriodicMode::Diff),
        Some(vec![gauge("hi", i64::MAX), gauge("lo", i64::MIN)])
    );
}

#[test]
fn histogram_counts_samples() {
    let mut state = run(vec![record("h"), record("h"), record("h")]);
    assert_eq!(state.output_logs(PeriodicMode::Diff), Some(vec![histogram("h", 3)]));
}

#[test]
fn diff_snapshot_round_trip() {
    let mut state = run(vec![inc("c", 1), inc("c", 2), abs("c", 9), inc("c", 1)]);
    assert_eq!(state.output_logs(PeriodicMode::Diff), Some(vec![counter("c", 10)]));
    assert_eq!(state.output_logs(PeriodicMode::Diff), None);
}

#[test]
fn diff_reports_only_what_changed() {
    let mut state = run(vec![inc("a", 1), inc("b", 2)]);
    assert_eq!(
        state.output_logs(PeriodicMode::Diff),
        Some(vec![counter("a", 1), counter("b", 2)])
    );
    state.update(inc("b", 5));
    assert_eq!(state.output_logs(PeriodicMode::Diff), Some(vec![counter("b", 7)]));
}

#[test]
fn full_snapshot_after_two_diffs_keeps_everything() {
    let mut state = run(vec![inc("a", 1), gauge_inc("g", 4.0), record("h")]);
    assert!(state.output_logs(PeriodicMode::Diff).is_some());
    state.update(inc("b", 2));
    assert_eq!(state.output_logs(PeriodicMode::Diff), Some(vec![counter("b", 2)]));
    let full = Some(vec![counter("a", 1), counter("b", 2), gauge("g", 4), histogram("h", 1)]);
    assert_eq!(state.output_logs(PeriodicMode::Full), full);
    assert_eq!(state.output_logs(PeriodicMode::Full), full);
}

#[test]
fn full_snapshot_leaves_dirty_sets() {
    let mut state = run(vec![inc("a", 1)]);
    assert_eq!(state.output_logs(PeriodicMode::Full), Some(vec![counter("a", 1)]));
    assert_eq!(state.output_logs(PeriodicMode::Diff), Some(vec![counter("a", 1)]));
}

#[test]
fn empty_state_reports_nothing() {
    let mut state = MetricsState::new();
    assert_eq!(state.output_logs(PeriodicMode::Diff), None);
    assert_eq!(state.output_logs(PeriodicMode::Full), None);
}

#[test]
fn kinds_are_separate_namespaces() {
    let mut state = run(vec![record("x"), gauge_inc("x", 2.0), inc("x", 3)]);
    assert_eq!(
        state.output_logs(PeriodicMode::Diff),
        Some(vec![counter("x", 3), gauge("x", 2), histogram("x", 1)])
    );
}

#[test]
fn names_keep_first_update_order() {
    let mut state = run(vec![inc("z", 1), inc("a", 1), inc("z", 1)]);
    assert_eq!(
        state.output_logs(PeriodicMode::Full),
        Some(vec![counter("z", 2), counter("a", 1)])
    );
}
