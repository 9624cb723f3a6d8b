//! Kernel counters for cognitive monitoring.

use vstd::prelude::*;
use crate::arith::{inc, wrapping_inc};

verus! {

/// Kernel counters (each wraps on overflow).
#[derive(Debug, Clone, Copy)]
pub struct KernelMetrics {
    pub interrupt_count: u64,
    pub page_fault_count: u64,
    pub exception_count: u64,
    pub uptime_ticks: u64,
}

/// Every counter is zero.
pub open spec fn metrics_fresh(m: KernelMetrics) -> bool {
    m.interrupt_count == 0 && m.page_fault_count == 0 && m.exception_count == 0 && m.uptime_ticks == 0
}

/// Starts (or restarts) the counters at zero.
pub fn init(metrics: &mut Option<KernelMetrics>)
    ensures
        *final(metrics) matches Some(m) && metrics_fresh(m),
{
    *metrics = Some(KernelMetrics { interrupt_count: 0, page_fault_count: 0, exception_count: 0, uptime_ticks: 0 });
}

/// Counts an interrupt (nothing before `init`).
pub fn increment_interrupt_count(metrics: &mut Option<KernelMetrics>)
    ensures
        *old(metrics) is None ==> *final(metrics) is None,
        *old(metrics) matches Some(m) ==> *final(metrics) == Some(KernelMetrics { interrupt_count: wrapping_inc(m.interrupt_count), ..m }),
{
    if let Some(m) = metrics {
        m.interrupt_count = inc(m.interrupt_count);
    }
}

/// Counts a page fault (nothing before `init`).
pub fn increment_page_fault_count(metrics: &mut Option<KernelMetrics>)
    ensures
        *old(metrics) is None ==> *final(metrics) is None,
        *old(metrics) matches Some(m) ==> *final(metrics) == Some(KernelMetrics { page_fault_count: wrapping_inc(m.page_fault_count), ..m }),
{
    if let Some(m) = metrics {
        m.page_fault_count = inc(m.page_fault_count);
    }
}

/// Counts an exception (nothing before `init`).
pub fn increment_exception_count(metrics: &mut Option<KernelMetrics>)
    ensures
        *old(metrics) is None ==> *final(metrics) is None,
        *old(metrics) matches Some(m) ==> *final(metrics) == Some(KernelMetrics { exception_count: wrapping_inc(m.exception_count), ..m }),
{
    if let Some(m) = metrics {
        m.exception_count = inc(m.exception_count);
    }
}

/// Interrupts, page faults, exceptions and uptime ticks; `None` before `init`.
pub fn get_metrics(metrics: &Option<KernelMetrics>) -> (r: Option<(u64, u64, u64, u64)>)
    ensures
        metrics is None ==> r is None,
        metrics matches Some(m) ==> r == Some((m.interrupt_count, m.page_fault_count, m.exception_count, m.uptime_ticks)),
{
    match metrics {
        Some(m) => Some((m.interrupt_count, m.page_fault_count, m.exception_count, m.uptime_ticks)),
        None => None,
    }
}

} // verus!
