//! Update commands that producers queue for the aggregator.
use vstd::prelude::*;

verus! {

/// An update of an unsigned counter.
#[derive(Clone, Debug, PartialEq, Eq)]
pub enum CounterCmd {
    /// Adds `value`, saturating at `u64::MAX`.
    Increment { name: String, value: u64 },
    /// Overwrites the counter with `value`.
    Absolute { name: String, value: u64 },
}

/// An update of a signed gauge.
///
/// Producers report gauge amounts as floating-point numbers; each command
/// carries that amount already truncated toward zero, so truncation happens
/// once per update and never on the accumulated value.
#[derive(Clone, Debug, PartialEq, Eq)]
pub enum GaugeCmd {
    /// Adds `value`, saturating at the bounds of `i64`.
    Increment { name: String, value: i64 },
    /// Subtracts `value`, saturating at the bounds of `i64`.
    Decrement { name: String, value: i64 },
    /// Overwrites the gauge with `value`.
    SetTo { name: String, value: i64 },
}

/// A sample recorded on a histogram.
///
/// The aggregator tracks which histograms exist, how many samples each has
/// received and which changed since the last diff snapshot; the sample's
/// floating-point value is accumulated next to it by the caller.
#[derive(Clone, Debug, PartialEq, Eq)]
pub enum HistogramCmd {
    Record { name: String },
}

/// A command for the aggregator, tagged with the kind of metric it updates.
#[derive(Clone, Debug, PartialEq, Eq)]
pub enum MetricsCmd {
    Counter(CounterCmd),
    Gauge(GaugeCmd),
    Histogram(HistogramCmd),
}

impl MetricsCmd {
    /// The name of the metric that the command updates.
    pub open spec fn target(&self) -> Seq<char> {
        match self {
            MetricsCmd::Counter(CounterCmd::Increment { name, .. }) => name@,
            MetricsCmd::Counter(CounterCmd::Absolute { name, .. }) => name@,
            MetricsCmd::Gauge(GaugeCmd::Increment { name, .. }) => name@,
            MetricsCmd::Gauge(GaugeCmd::Decrement { name, .. }) => name@,
            MetricsCmd::Gauge(GaugeCmd::SetTo { name, .. }) => name@,
            MetricsCmd::Histogram(HistogramCmd::Record { name }) => name@,
        }
    }
}

} // verus!
