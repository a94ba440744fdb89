//! The flush scheduler as a state machine: the worker hands it each event
//! (a command, a wait that timed out, the queue closing) with the current
//! time, and performs the action that it returns.
use vstd::prelude::*;
use crate::cmd::MetricsCmd;
use crate::state::{entries_model, EntryModel, MetricEntry, MetricsState, PeriodicMode, StateModel};

verus! {

/// When snapshots are taken.
#[derive(Clone, Copy, Debug, PartialEq, Eq, Structural)]
pub enum LogMode {
    /// Emit logs as soon as a metric is updated
    Immediate,
    /// Aggregate metrics for the specified duration, in seconds, before emitting a log
    Periodic(u64),
}

/// What the worker observed.
pub enum Event {
    /// A command arrived from the queue.
    Command(MetricsCmd),
    /// The wait for a command ran out.
    Timeout,
    /// Every producer is gone and the queue is empty.
    Closed,
}

/// What the worker does next.
pub enum Action {
    /// Nothing to report: wait for the next event.
    Idle,
    /// Hand these entries to the log callback, then wait for the next event.
    Emit(Vec<MetricEntry>),
    /// Stop the worker.
    Stop,
}

pub open spec fn millis_of_secs(secs: u64) -> u64 {
    if secs * 1000 > u64::MAX {
        u64::MAX
    } else {
        (secs * 1000) as u64
    }
}

pub open spec fn sat_add_time(a: u64, b: u64) -> u64 {
    if a + b > u64::MAX {
        u64::MAX
    } else {
        (a + b) as u64
    }
}

/// The scheduler's state. Times are milliseconds on the worker's clock.
pub struct SchedulerModel {
    pub mode: LogMode,
    pub policy: PeriodicMode,
    pub state: StateModel,
    /// The absolute time at or after which the next periodic snapshot is due.
    pub next_flush: u64,
    pub closed: bool,
}

impl SchedulerModel {
    pub open spec fn interval(self) -> u64 {
        match self.mode {
            LogMode::Immediate => 0,
            LogMode::Periodic(secs) => millis_of_secs(secs),
        }
    }

    /// The snapshot policy in use: immediate mode always reports changes only.
    pub open spec fn snapshot_mode(self) -> PeriodicMode {
        match self.mode {
            LogMode::Immediate => PeriodicMode::Diff,
            LogMode::Periodic(_) => self.policy,
        }
    }

    /// The metric state once the event's command, if any, is applied.
    pub open spec fn pending(self, ev: Event) -> StateModel {
        match ev {
            Event::Command(c) => self.state.apply(c),
            _ => self.state,
        }
    }

    /// Whether handling `ev` at time `now` takes a snapshot: in immediate
    /// mode after every command, in periodic mode once the deadline is
    /// reached, whether or not a command came; never once the queue closed.
    pub open spec fn snapshot_due(self, ev: Event, now: u64) -> bool {
        &&& !self.closed
        &&& !(ev is Closed)
        &&& match self.mode {
            LogMode::Immediate => ev is Command,
            LogMode::Periodic(_) => now >= self.next_flush,
        }
    }

    /// The scheduler's state after handling `ev` at time `now`.
    pub open spec fn next(self, ev: Event, now: u64) -> SchedulerModel {
        if self.closed || ev is Closed {
            SchedulerModel { closed: true, ..self }
        } else if self.snapshot_due(ev, now) {
            SchedulerModel {
                state: self.pending(ev).after_snapshot(self.snapshot_mode()),
                next_flush: match self.mode {
                    LogMode::Immediate => self.next_flush,
                    LogMode::Periodic(_) => sat_add_time(now, self.interval()),
                },
                ..self
            }
        } else {
            SchedulerModel { state: self.pending(ev), ..self }
        }
    }

    /// The entries reported while handling `ev` at time `now`.
    pub open spec fn emitted(self, ev: Event, now: u64) -> Seq<EntryModel> {
        if self.snapshot_due(ev, now) {
            self.pending(ev).entries(self.snapshot_mode())
        } else {
            Seq::empty()
        }
    }
}

/// Aggregates commands and decides when to report, following a [`LogMode`].
pub struct Scheduler {
    mode: LogMode,
    policy: PeriodicMode,
    state: MetricsState,
    next_flush: u64,
    closed: bool,
}

fn millis(secs: u64) -> (r: u64)
    ensures
        r == millis_of_secs(secs),
{
    if secs > u64::MAX / 1000 {
        u64::MAX
    } else {
        secs * 1000
    }
}

impl Scheduler {
    pub closed spec fn model(&self) -> SchedulerModel {
        SchedulerModel {
            mode: self.mode,
            policy: self.policy,
            state: self.state.model(),
            next_flush: self.next_flush,
            closed: self.closed,
        }
    }

    pub closed spec fn wf(&self) -> bool {
        self.state.wf()
    }

    /// A scheduler with empty state, started at time `now`; in periodic
    /// mode the first snapshot is due one interval later. `policy` selects
    /// the periodic snapshot's policy.
    pub fn new(mode: LogMode, policy: PeriodicMode, now: u64) -> (r: Self)
        ensures
            r.wf(),
            r.model().mode == mode,
            r.model().policy == policy,
            r.model().state == StateModel::empty(),
            r.model().next_flush == sat_add_time(now, r.model().interval()),
            !r.model().closed,
    {
        let interval: u64 = match mode {
            LogMode::Immediate => 0,
            LogMode::Periodic(secs) => millis(secs),
        };
        let next_flush: u64 = now.saturating_add(interval);
        Scheduler { mode, policy, state: MetricsState::new(), next_flush, closed: false }
    }

    /// How long the worker waits for a command before reporting a timeout,
    /// in seconds; `None` when it waits without a limit.
    pub fn wait_secs(&self) -> (r: Option<u64>)
        ensures
            r == (match self.model().mode {
                LogMode::Immediate => None::<u64>,
                LogMode::Periodic(secs) => Some(secs),
            }),
    {
        match self.mode {
            LogMode::Immediate => None,
            LogMode::Periodic(secs) => Some(secs),
        }
    }

    /// Handles one event observed at time `now`: applies a command, takes a
    /// snapshot when one is due, and stops for good once the queue closed.
    /// A closing queue triggers no snapshot: what was not yet reported is
    /// dropped.
    pub fn step(&mut self, ev: Event, now: u64) -> (r: Action)
        requires
            old(self).wf(),
        ensures
            final(self).wf(),
            final(self).model() == old(self).model().next(ev, now),
            r is Stop <==> (old(self).model().closed || ev is Closed),
            r is Emit <==> old(self).model().emitted(ev, now).len() > 0,
            r matches Action::Emit(es) ==> entries_model(es@) == old(self).model().emitted(ev, now),
    {
        if self.closed {
            return Action::Stop;
        }
        let due: bool = match (&ev, &self.mode) {
            (Event::Closed, _) => false,
            (Event::Command(_), LogMode::Immediate) => true,
            (_, LogMode::Immediate) => false,
            (_, LogMode::Periodic(_)) => now >= self.next_flush,
        };
        match ev {
            Event::Closed => {
                self.closed = true;
                return Action::Stop;
            },
            Event::Command(c) => {
                self.state.update(c);
            },
            Event::Timeout => {},
        }
        if !due {
            return Action::Idle;
        }
        let out = match self.mode {
            LogMode::Immediate => self.state.output_logs(PeriodicMode::Diff),
            LogMode::Periodic(secs) => {
                let out = self.state.output_logs(self.policy);
                self.next_flush = now.saturating_add(millis(secs));
                out
            },
        };
        match out {
            Some(es) => Action::Emit(es),
            None => Action::Idle,
        }
    }
}

} // verus!
