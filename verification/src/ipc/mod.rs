//! Intent-based messages exchanged between kernel components.

pub mod bus;

use vstd::prelude::*;

verus! {

/// Identifier of a kernel component that sends or receives intents.
#[derive(Debug, Clone, Copy, PartialEq, Eq, Structural)]
pub enum ComponentId {
    Orchestrator,
    HAL,
    Memory,
    Verifier,
    Cerebellum,
    Filesystem,
    Network,
    Security,
    Broadcast,
}

/// Wire code of a component.
pub open spec fn component_code(c: ComponentId) -> u8 {
    match c {
        ComponentId::Orchestrator => 0,
        ComponentId::HAL => 1,
        ComponentId::Memory => 2,
        ComponentId::Verifier => 3,
        ComponentId::Cerebellum => 4,
        ComponentId::Filesystem => 5,
        ComponentId::Network => 6,
        ComponentId::Security => 7,
        ComponentId::Broadcast => 0xFF,
    }
}

impl ComponentId {
    /// The component's one-byte code.
    pub fn code(self) -> (r: u8)
        ensures
            r == component_code(self),
    {
        match self {
            ComponentId::Orchestrator => 0,
            ComponentId::HAL => 1,
            ComponentId::Memory => 2,
            ComponentId::Verifier => 3,
            ComponentId::Cerebellum => 4,
            ComponentId::Filesystem => 5,
            ComponentId::Network => 6,
            ComponentId::Security => 7,
            ComponentId::Broadcast => 0xFF,
        }
    }
}

/// Message priority; higher ranks are consumed first.
#[derive(Debug, Clone, Copy, PartialEq, Eq, Structural)]
pub enum Priority {
    Low,
    Normal,
    High,
    Critical,
}

/// Numeric rank of a priority.
pub open spec fn priority_rank(p: Priority) -> u8 {
    match p {
        Priority::Low => 0,
        Priority::Normal => 64,
        Priority::High => 128,
        Priority::Critical => 255,
    }
}

impl Priority {
    /// The priority's numeric rank (Low=0, Normal=64, High=128, Critical=255).
    pub fn rank(self) -> (r: u8)
        ensures
            r == priority_rank(self),
    {
        match self {
            Priority::Low => 0,
            Priority::Normal => 64,
            Priority::High => 128,
            Priority::Critical => 255,
        }
    }
}

/// An intent sent by one component to another.
#[derive(Debug, Clone, Copy)]
pub struct IntentMessage {
    pub source: ComponentId,
    pub destination: ComponentId,
    pub intent_id: u32,
    pub priority: Priority,
    pub payload: u64,
    /// Time-stamp counter value at creation (orders messages of equal priority).
    pub timestamp: u64,
}

impl IntentMessage {
    /// Builds a message stamped with the given time-stamp counter value.
    pub fn new(
        source: ComponentId,
        destination: ComponentId,
        intent_id: u32,
        priority: Priority,
        payload: u64,
        timestamp: u64,
    ) -> (m: Self)
        ensures
            m == (IntentMessage { source, destination, intent_id, priority, payload, timestamp }),
    {
        IntentMessage { source, destination, intent_id, priority, payload, timestamp }
    }
}

/// Errors of the cognitive bus.
#[derive(Debug, Clone, Copy, PartialEq, Eq, Structural)]
pub enum BusError {
    QueueFull,
    QueueEmpty,
}

} // verus!
