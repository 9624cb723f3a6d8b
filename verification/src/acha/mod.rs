//! Cognitive event tracking, kernel counters and early security checks.

pub mod events;
pub mod metrics;
pub mod early_security;

use vstd::prelude::*;
use crate::acha::metrics::{KernelMetrics, metrics_fresh};

verus! {

/// Brings the counters up (all zero).
pub fn init(metrics: &mut Option<KernelMetrics>)
    ensures
        *final(metrics) matches Some(m) && metrics_fresh(m),
{
    crate::acha::metrics::init(metrics);
}

} // verus!
