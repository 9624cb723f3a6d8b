//! Counting of cognitive events (anomalies and security events).

use vstd::prelude::*;
use crate::arith::{inc, wrapping_inc};

verus! {

/// Events the kernel reports.
#[derive(Debug, Clone, Copy)]
pub enum CognitiveEvent {
    KernelPanic,
    /// A CPU exception, by name.
    Exception(&'static str),
    SecurityViolation,
    AllocationFailure,
}

/// How many events were reported.
pub struct EventLog {
    pub count: u64,
}

impl EventLog {
    /// No events yet.
    pub fn new() -> (l: Self)
        ensures
            l.count == 0,
    {
        EventLog { count: 0 }
    }
}

/// Records an event.
pub fn log_event(log: &mut EventLog, event: CognitiveEvent)
    ensures
        final(log).count == wrapping_inc(old(log).count),
{
    log.count = inc(log.count);
}

/// Records a CPU exception named `name`.
pub fn log_exception(log: &mut EventLog, name: &'static str)
    ensures
        final(log).count == wrapping_inc(old(log).count),
{
    log_event(log, CognitiveEvent::Exception(name));
}

/// How many events were reported.
pub fn get_event_count(log: &EventLog) -> (n: u64)
    ensures
        n == log.count,
{
    log.count
}

} // verus!
