//! In-process metrics aggregation with diff and full snapshots and a
//! flush scheduler that runs in immediate or periodic mode.
//!
//! [`MetricsState`] is the single-writer aggregator: it applies counter,
//! gauge and histogram commands and produces snapshots as lists of
//! [`MetricEntry`]. [`Scheduler`] decides, event by event, when a snapshot
//! is taken; the worker that owns it does the waiting and the output.
//! Floating-point inputs stay with the caller: gauge amounts arrive already
//! truncated to integers, and histogram statistics beyond the sample count
//! are accumulated beside the aggregator.
mod cmd;
pub mod laws;
mod scheduler;
mod state;
mod table;

pub use cmd::{CounterCmd, GaugeCmd, HistogramCmd, MetricsCmd};
pub use scheduler::{Action, Event, LogMode, Scheduler, SchedulerModel};
pub use state::{EntryModel, MetricEntry, MetricsState, PeriodicMode, StateModel};
