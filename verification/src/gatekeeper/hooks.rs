//! Checks run before filesystem operations, reported on the cognitive bus.

use vstd::prelude::*;
use vstd::string::*;
use crate::gatekeeper::policy::{
    OperationContext, OperationType, PolicyAction, PolicyEngine, VerifierError, decision, evaluate,
};
use crate::ipc::{ComponentId, IntentMessage, Priority, component_code};
use crate::ipc::bus::{CognitiveBus, publish, BUS_CAPACITY};
use vstd::multiset::Multiset;

verus! {

/// Intent identifiers of verifier events on the bus.
pub const VERIFIER_ALLOW: u32 = 0x5001;
pub const VERIFIER_DENY: u32 = 0x5002;
pub const VERIFIER_AUDIT: u32 = 0x5003;

/// The bus message reporting a verifier event at time `now`.
pub open spec fn verifier_event(intent_id: u32, payload: u64, now: u64) -> IntentMessage {
    IntentMessage {
        source: ComponentId::Verifier,
        destination: ComponentId::Orchestrator,
        intent_id,
        priority: Priority::High,
        payload,
        timestamp: now,
    }
}

/// `nb` is `ob` after offering `msg`: added unless the bus is full.
pub open spec fn offered(ob: Multiset<IntentMessage>, nb: Multiset<IntentMessage>, msg: IntentMessage) -> bool {
    if ob.len() >= BUS_CAPACITY {
        nb == ob
    } else {
        nb == ob.insert(msg)
    }
}

/// Publishes a verifier event; a full bus drops it.
fn bus_publish(bus: &mut CognitiveBus, now: u64, intent_id: u32, payload: u64)
    ensures
        offered(old(bus)@, final(bus)@, verifier_event(intent_id, payload, now)),
{
    let msg = IntentMessage::new(ComponentId::Verifier, ComponentId::Orchestrator, intent_id, Priority::High, payload, now);
    let _ = publish(bus, msg);
}

/// The operation context of a check by the filesystem.
pub open spec fn fs_context<'a>(path: &'a str, operation: OperationType, data_size: usize) -> OperationContext<'a> {
    OperationContext { path, operation, data_size, source_component: component_code(ComponentId::Filesystem) }
}

/// Checks a write of `data_size` bytes to `path`: allowed and audited
/// writes succeed, denied ones fail with `PolicyDenied`. Allow and deny
/// are reported with the path's length, audit with the size.
pub fn verify_write(engine: &mut PolicyEngine, bus: &mut CognitiveBus, now: u64, path: &str, data_size: usize) -> (r: Result<(), VerifierError>)
    ensures
        ({
            let a = decision(old(engine).rules@, fs_context(path, OperationType::VfsWrite, data_size));
            &&& a == PolicyAction::Deny ==> r == Err::<(), VerifierError>(VerifierError::PolicyDenied)
                && offered(old(bus)@, final(bus)@, verifier_event(VERIFIER_DENY, path.spec_bytes().len() as u64, now))
            &&& a == PolicyAction::Allow ==> r is Ok
                && offered(old(bus)@, final(bus)@, verifier_event(VERIFIER_ALLOW, path.spec_bytes().len() as u64, now))
            &&& a == PolicyAction::Audit ==> r is Ok
                && offered(old(bus)@, final(bus)@, verifier_event(VERIFIER_AUDIT, data_size as u64, now))
        }),
        final(engine).rules@ == old(engine).rules@,
{
    let ctx = OperationContext {
        path,
        operation: OperationType::VfsWrite,
        data_size,
        source_component: ComponentId::Filesystem.code(),
    };
    match evaluate(engine, &ctx) {
        PolicyAction::Allow => {
            bus_publish(bus, now, VERIFIER_ALLOW, path.as_bytes().len() as u64);
            Ok(())
        },
        PolicyAction::Deny => {
            bus_publish(bus, now, VERIFIER_DENY, path.as_bytes().len() as u64);
            Err(VerifierError::PolicyDenied)
        },
        PolicyAction::Audit => {
            bus_publish(bus, now, VERIFIER_AUDIT, data_size as u64);
            Ok(())
        },
    }
}

/// Checks a read of `path`: allowed and audited reads succeed, denied
/// ones fail with `PolicyDenied`. Allow and deny are reported with the
/// path's length, audit with 0.
pub fn verify_read(engine: &mut PolicyEngine, bus: &mut CognitiveBus, now: u64, path: &str) -> (r: Result<(), VerifierError>)
    ensures
        ({
            let a = decision(old(engine).rules@, fs_context(path, OperationType::VfsRead, 0));
            &&& a == PolicyAction::Deny ==> r == Err::<(), VerifierError>(VerifierError::PolicyDenied)
                && offered(old(bus)@, final(bus)@, verifier_event(VERIFIER_DENY, path.spec_bytes().len() as u64, now))
            &&& a == PolicyAction::Allow ==> r is Ok
                && offered(old(bus)@, final(bus)@, verifier_event(VERIFIER_ALLOW, path.spec_bytes().len() as u64, now))
            &&& a == PolicyAction::Audit ==> r is Ok && offered(old(bus)@, final(bus)@, verifier_event(VERIFIER_AUDIT, 0, now))
        }),
        final(engine).rules@ == old(engine).rules@,
{
    let ctx = OperationContext {
        path,
        operation: OperationType::VfsRead,
        data_size: 0,
        source_component: ComponentId::Filesystem.code(),
    };
    match evaluate(engine, &ctx) {
        PolicyAction::Allow => {
            bus_publish(bus, now, VERIFIER_ALLOW, path.as_bytes().len() as u64);
            Ok(())
        },
        PolicyAction::Deny => {
            bus_publish(bus, now, VERIFIER_DENY, path.as_bytes().len() as u64);
            Err(VerifierError::PolicyDenied)
        },
        PolicyAction::Audit => {
            bus_publish(bus, now, VERIFIER_AUDIT, 0);
            Ok(())
        },
    }
}

/// Checks a mount at `path` (nothing is reported): `PolicyDenied` when
/// the decision is Deny.
pub fn verify_mount(engine: &mut PolicyEngine, path: &str) -> (r: Result<(), VerifierError>)
    ensures
        decision(old(engine).rules@, fs_context(path, OperationType::DeviceMount, 0)) == PolicyAction::Deny ==> r
            == Err::<(), VerifierError>(VerifierError::PolicyDenied),
        decision(old(engine).rules@, fs_context(path, OperationType::DeviceMount, 0)) != PolicyAction::Deny ==> r is Ok,
        final(engine).rules@ == old(engine).rules@,
{
    let ctx = OperationContext {
        path,
        operation: OperationType::DeviceMount,
        data_size: 0,
        source_component: ComponentId::Filesystem.code(),
    };
    match evaluate(engine, &ctx) {
        PolicyAction::Allow => Ok(()),
        PolicyAction::Deny => Err(VerifierError::PolicyDenied),
        PolicyAction::Audit => Ok(()),
    }
}

} // verus!
