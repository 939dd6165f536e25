//! Timing of search subtasks: a flat tree of named, nested timings. Only
//! the clock itself is trusted; the tree bookkeeping is verified.

use vstd::prelude::*;

verus! {

/// A point in monotonic time, opaque to the verifier.
#[verifier::external_type_specification]
#[verifier::external_body]
pub struct ExInstant(std::time::Instant);

/// Relies on std's monotonic clock; nothing is assumed of the value.
pub assume_specification[ std::time::Instant::now ]() -> std::time::Instant;

/// Relies on std: the time elapsed since the instant; nothing is assumed
/// of the value.
pub assume_specification[ std::time::Instant::elapsed ](
    i: &std::time::Instant,
) -> core::time::Duration;

/// Relies on std: the whole span in microseconds; nothing is assumed of
/// the value.
pub assume_specification[ core::time::Duration::as_micros ](d: &core::time::Duration) -> u128;

/// One recorded timing.
#[derive(Debug, Clone)]
pub struct Timing {
    pub name: &'static str,
    pub duration: u128,
    pub depth: u32,
}

/// A running named subtask.
#[derive(Debug, Clone, Copy)]
pub struct OpenTimer {
    pub name: &'static str,
    pub start: std::time::Instant,
    pub depth: u32,
}

impl OpenTimer {
    /// Starts timing a nested named subtask.
    pub fn open(&self, name: &'static str) -> (t: OpenTimer)
        requires
            self.depth < u32::MAX,
        ensures
            t.name == name,
            t.depth == self.depth + 1,
    {
        OpenTimer { name, start: std::time::Instant::now(), depth: self.depth + 1 }
    }
}

/// The recorded timings, in completion order.
#[derive(Debug, Clone)]
pub struct TimerTree {
    pub timings: Vec<Timing>,
}

impl TimerTree {
    pub fn new() -> (r: TimerTree)
        ensures
            r.timings@.len() == 0,
    {
        TimerTree { timings: Vec::new() }
    }

    /// The duration of the last recorded timing, in microseconds.
    pub fn total_time(&self) -> (r: u128)
        requires
            self.timings@.len() > 0,
        ensures
            r == self.timings@.last().duration,
    {
        self.timings[self.timings.len() - 1].duration
    }

    /// Starts timing a named subtask at the top level.
    pub fn open(&self, name: &'static str) -> (t: OpenTimer)
        ensures
            t.name == name,
            t.depth == 0,
    {
        OpenTimer { name, start: std::time::Instant::now(), depth: 0 }
    }

    /// Stops a subtask and records its timing; everything recorded before
    /// stays as it was.
    pub fn close(&mut self, t: OpenTimer)
        ensures
            final(self).timings@.len() == old(self).timings@.len() + 1,
            forall|i: int|
                0 <= i < old(self).timings@.len() ==> final(self).timings@[i] == old(
                    self,
                ).timings@[i],
            final(self).timings@.last().name == t.name,
            final(self).timings@.last().depth == t.depth,
    {
        let duration = t.start.elapsed().as_micros();
        self.timings.push(Timing { name: t.name, duration, depth: t.depth });
    }
}

} // verus!
