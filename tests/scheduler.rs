use metrics_logger::{
    Action, CounterCmd, Event, HistogramCmd, LogMode, MetricEntry, MetricsCmd, PeriodicMode,
    Scheduler,
};

fn inc(name: &str, value: u64) -> Event {
    Event::Command(MetricsCmd::Counter(CounterCmd::Increment { name: name.to_string(), value }))
}

fn counter(name: &str, value: u64) -> MetricEntry {
    MetricEntry::Counter { name: name.to_string(), value }
}

fn emitted(a: Action) -> Option<Vec<MetricEntry>> {
    match a {
        Action::Emit(es) => Some(es),
        Action::Idle => None,
        Action::Stop => panic!("unexpected stop"),
    }
}

#[test]
fn immediate_mode_reports_every_command() {
    let mut s = Scheduler::new(LogMode::Immediate, PeriodicMode::Full, 0);
    assert_eq!(s.wait_secs(), None);
    assert_eq!(emitted(s.step(inc("c", 2), 5)), Some(vec![counter("c", 2)]));
    assert_eq!(emitted(s.step(inc("d", 1), 6)), Some(vec![counter("d", 1)]));
    assert_eq!(emitted(s.step(inc("c", 1), 7)), Some(vec![counter("c", 3)]));
}

#[test]
fn immediate_mode_ignores_timeouts() {
    let mut s = Scheduler::new(LogMode::Immediate, PeriodicMode::Diff, 0);
    s.step(inc("c", 2), 1);
    assert_eq!(emitted(s.step(Event::Timeout, 100_000)), None);
}

#[test]
fn periodic_mode_waits_for_the_deadline() {
    let mut s = Scheduler::new(LogMode::Periodic(1), PeriodicMode::Diff, 0);
    assert_eq!(s.wait_secs(), Some(1));
    assert_eq!(emitted(s.step(inc("c", 1), 10)), None);
    assert_eq!(emitted(s.step(inc("c", 1), 999)), None);
    assert_eq!(emitted(s.step(inc("c", 1), 1000)), Some(vec![counter("c", 3)]));
}

#[test]
fn periodic_flush_is_not_postponed_by_a_steady_stream() {
    let mut s = Scheduler::new(LogMode::Periodic(1), PeriodicMode::Diff, 0);
    let mut flushes: Vec<u64> = Vec::new();
    let mut t: u64 = 0;
    while t <= 5000 {
        if let Some(es) = emitted(s.step(inc("c", 1), t)) {
            assert!(!es.is_empty());
            flushes.push(t);
        }
        t += 100;
    }
    assert_eq!(flushes, vec![1000, 2000, 3000, 4000, 5000]);
}

#[test]
fn periodic_timeout_flushes_after_deadline() {
    let mut s = Scheduler::new(LogMode::Periodic(2), PeriodicMode::Diff, 0);
    s.step(inc("c", 4), 100);
    assert_eq!(emitted(s.step(Event::Timeout, 1999)), None);
    assert_eq!(emitted(s.step(Event::Timeout, 2000)), Some(vec![counter("c", 4)]));
    // nothing changed since: the next deadline passes without output
    assert_eq!(emitted(s.step(Event::Timeout, 4000)), None);
}

#[test]
fn periodic_full_policy_repeats_everything() {
    let mut s = Scheduler::new(LogMode::Periodic(1), PeriodicMode::Full, 0);
    s.step(inc("c", 4), 100);
    assert_eq!(emitted(s.step(Event::Timeout, 1000)), Some(vec![counter("c", 4)]));
    assert_eq!(emitted(s.step(Event::Timeout, 2000)), Some(vec![counter("c", 4)]));
}

#[test]
fn closing_drops_unreported_updates() {
    let mut s = Scheduler::new(LogMode::Periodic(1), PeriodicMode::Diff, 0);
    s.step(inc("c", 4), 100);
    let hist = MetricsCmd::Histogram(HistogramCmd::Record { name: "h".to_string() });
    s.step(Event::Command(hist), 200);
    assert!(matches!(s.step(Event::Closed, 5000), Action::Stop));
    assert!(matches!(s.step(Event::Timeout, 6000), Action::Stop));
    assert!(matches!(s.step(inc("c", 1), 7000), Action::Stop));
}

#[test]
fn large_interval_saturates_deadline() {
    let mut s = Scheduler::new(LogMode::Periodic(u64::MAX), PeriodicMode::Diff, 5);
    assert_eq!(emitted(s.step(inc("c", 1), u64::MAX - 1)), None);
    assert_eq!(emitted(s.step(inc("c", 1), u64::MAX)), Some(vec![counter("c", 2)]));
}
