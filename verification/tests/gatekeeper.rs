use aetherion_kernel::gatekeeper::hooks::{verify_mount, verify_read, verify_write, VERIFIER_DENY};
use aetherion_kernel::gatekeeper::policy::{
    add_rule, evaluate, get_metrics, init, rule_count, OperationContext, OperationType, PolicyAction, PolicyEngine,
    PolicyRule, RuleCondition, VerifierError, MAX_RULES,
};
use aetherion_kernel::ipc::bus::{consume, CognitiveBus};

fn engine() -> (PolicyEngine, CognitiveBus) {
    let mut e = PolicyEngine::new();
    assert_eq!(init(&mut e), Ok(()));
    (e, CognitiveBus::new())
}

fn ctx(path: &str, operation: OperationType, data_size: usize) -> OperationContext<'_> {
    OperationContext { path, operation, data_size, source_component: 0 }
}

#[test]
fn verifier_default_policy_scenarios() {
    let (mut e, mut bus) = engine();
    assert!(verify_write(&mut e, &mut bus, 1, "/dev/ram0", 64).is_ok());
    assert!(verify_read(&mut e, &mut bus, 2, "/dev/ram0").is_ok());
    assert_eq!(verify_write(&mut e, &mut bus, 3, "/sys/config", 10), Err(VerifierError::PolicyDenied));
    assert!(verify_write(&mut e, &mut bus, 4, "/tmp/log", 32).is_ok());
    assert_eq!(verify_write(&mut e, &mut bus, 5, "/dev/ram0", 128 * 1024), Err(VerifierError::PolicyDenied));
    assert_eq!(verify_read(&mut e, &mut bus, 6, "/unknown/path"), Err(VerifierError::PolicyDenied));
}

#[test]
fn verifier_default_rule_count() {
    let (e, _bus) = engine();
    assert_eq!(rule_count(&e), 7);
}

#[test]
fn verifier_mount_checks() {
    let (mut e, _bus) = engine();
    assert_eq!(verify_mount(&mut e, "/dev/ram0"), Err(VerifierError::PolicyDenied));
    assert_eq!(verify_mount(&mut e, "/sys/x"), Err(VerifierError::PolicyDenied));
}

#[test]
fn verifier_first_match_wins() {
    let (mut e, _bus) = engine();
    assert_eq!(evaluate(&mut e, &ctx("/tmp/log", OperationType::VfsWrite, 1)), PolicyAction::Audit);
    assert_eq!(evaluate(&mut e, &ctx("/tmp/log", OperationType::VfsRead, 0)), PolicyAction::Allow);
    assert_eq!(evaluate(&mut e, &ctx("/sys/x", OperationType::VfsRead, 0)), PolicyAction::Deny);
    assert_eq!(evaluate(&mut e, &ctx("/dev/x", OperationType::VfsWrite, 65536)), PolicyAction::Allow);
    assert_eq!(evaluate(&mut e, &ctx("/dev/x", OperationType::VfsWrite, 65537)), PolicyAction::Deny);
}

#[test]
fn verifier_empty_engine_denies() {
    let mut e = PolicyEngine::new();
    assert_eq!(evaluate(&mut e, &ctx("/dev/ram0", OperationType::VfsRead, 0)), PolicyAction::Deny);
    assert_eq!(get_metrics(&e).operations_denied, 1);
    assert_eq!(get_metrics(&e).rules_evaluated, 0);
}

#[test]
fn verifier_added_rule_keeps_earlier_decisions() {
    let (mut e, _bus) = engine();
    let before = evaluate(&mut e, &ctx("/dev/ram0", OperationType::VfsRead, 0));
    let rule = PolicyRule::new("deny-dev", RuleCondition::PathPrefix("/dev/".to_string()), PolicyAction::Deny, OperationType::Any);
    assert_eq!(add_rule(&mut e, rule), Ok(()));
    assert_eq!(rule_count(&e), 8);
    assert_eq!(evaluate(&mut e, &ctx("/dev/ram0", OperationType::VfsRead, 0)), before);
}

#[test]
fn verifier_rule_limit() {
    let mut e = PolicyEngine::new();
    for i in 0..MAX_RULES {
        let r = PolicyRule::new(&format!("r{}", i), RuleCondition::Any, PolicyAction::Allow, OperationType::Any);
        assert_eq!(add_rule(&mut e, r), Ok(()));
    }
    let extra = PolicyRule::new("extra", RuleCondition::Any, PolicyAction::Allow, OperationType::Any);
    assert_eq!(add_rule(&mut e, extra), Err(VerifierError::RuleLimitExceeded));
    assert_eq!(rule_count(&e), MAX_RULES);
}

#[test]
fn verifier_rule_evaluate() {
    let exact = PolicyRule::new("exact", RuleCondition::PathExact("/a".to_string()), PolicyAction::Audit, OperationType::VfsRead);
    assert_eq!(exact.evaluate(&ctx("/a", OperationType::VfsRead, 0)), Some(PolicyAction::Audit));
    assert_eq!(exact.evaluate(&ctx("/ab", OperationType::VfsRead, 0)), None);
    assert_eq!(exact.evaluate(&ctx("/a", OperationType::VfsWrite, 0)), None);
    let mut off = PolicyRule::new("off", RuleCondition::Any, PolicyAction::Deny, OperationType::Any);
    off.enabled = false;
    assert_eq!(off.evaluate(&ctx("/a", OperationType::VfsRead, 0)), None);
}

#[test]
fn verifier_metrics_and_events() {
    let (mut e, mut bus) = engine();
    assert!(verify_write(&mut e, &mut bus, 9, "/sys/config", 10).is_err());
    let m = get_metrics(&e);
    assert_eq!(m.operations_denied, 1);
    assert_eq!(m.policy_violations, 1);
    assert_eq!(m.rules_evaluated, 6);
    let msg = consume(&mut bus).unwrap();
    assert_eq!(msg.intent_id, VERIFIER_DENY);
    assert_eq!(msg.timestamp, 9);
    assert_eq!(msg.payload, "/sys/config".len() as u64);
}
