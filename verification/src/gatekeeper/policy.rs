//! The policy engine: ordered rules, the first matching one decides.

use vstd::prelude::*;
use vstd::string::*;
use vstd::utf8::encode_utf8;
use crate::arith::{inc, wrapping_inc, wrapping_sum};

verus! {

/// What to do with an operation.
#[derive(Debug, Clone, Copy, PartialEq, Eq, Structural)]
pub enum PolicyAction {
    Allow,
    Deny,
    /// Allow, and report it.
    Audit,
}

/// What a rule looks at.
pub enum RuleCondition {
    /// The path starts with this text.
    PathPrefix(String),
    /// The path is this text.
    PathExact(String),
    /// The data written is larger than this many bytes.
    MaxWriteSize(usize),
    /// Every operation.
    Any,
}

/// Kinds of operations checked.
#[derive(Debug, Clone, Copy, PartialEq, Eq, Structural)]
pub enum OperationType {
    VfsWrite,
    VfsRead,
    DeviceMount,
    /// (In a rule) every kind.
    Any,
}

/// A rule: when enabled, of the right kind and its condition holds, it
/// decides the action.
pub struct PolicyRule {
    pub name: String,
    pub condition: RuleCondition,
    pub action: PolicyAction,
    pub operation: OperationType,
    pub enabled: bool,
}

/// An operation to check.
pub struct OperationContext<'a> {
    pub path: &'a str,
    pub operation: OperationType,
    /// Bytes written (0 for other operations).
    pub data_size: usize,
    /// Code of the component asking.
    pub source_component: u8,
}

/// The UTF-8 bytes of a text.
pub open spec fn text_bytes(s: Seq<char>) -> Seq<u8> {
    encode_utf8(s)
}

/// The action `r` decides for `ctx`, or `None` when it does not apply.
pub open spec fn rule_decision(r: PolicyRule, ctx: OperationContext) -> Option<PolicyAction> {
    if !r.enabled || (r.operation != OperationType::Any && r.operation != ctx.operation) {
        None
    } else {
        match r.condition {
            RuleCondition::PathPrefix(p) => if text_bytes(p@).is_prefix_of(text_bytes(ctx.path@)) {
                Some(r.action)
            } else {
                None
            },
            RuleCondition::PathExact(e) => if text_bytes(e@) == text_bytes(ctx.path@) {
                Some(r.action)
            } else {
                None
            },
            RuleCondition::MaxWriteSize(m) => if ctx.data_size > m {
                Some(r.action)
            } else {
                None
            },
            RuleCondition::Any => Some(r.action),
        }
    }
}

fn starts_with(s: &[u8], prefix: &[u8]) -> (b: bool)
    ensures
        b == prefix@.is_prefix_of(s@),
{
    if prefix.len() > s.len() {
        return false;
    }
    let mut i: usize = 0;
    while i < prefix.len()
        invariant
            i <= prefix@.len() <= s@.len(),
            forall|j: int| 0 <= j < i ==> prefix@[j] == s@[j],
        decreases prefix@.len() - i,
    {
        if prefix[i] != s[i] {
            return false;
        }
        i += 1;
    }
    true
}

impl PolicyRule {
    /// An enabled rule.
    pub fn new(name: &str, condition: RuleCondition, action: PolicyAction, op: OperationType) -> (r: Self)
        ensures
            r.name@ == name@,
            r.condition == condition,
            r.action == action,
            r.operation == op,
            r.enabled,
    {
        PolicyRule { name: name.to_owned(), condition, action, operation: op, enabled: true }
    }

    /// The action this rule decides for `ctx`, if it applies.
    pub fn evaluate(&self, ctx: &OperationContext) -> (r: Option<PolicyAction>)
        ensures
            r == rule_decision(*self, *ctx),
    {
        if !self.enabled {
            return None;
        }
        if self.operation != OperationType::Any && self.operation != ctx.operation {
            return None;
        }
        match &self.condition {
            RuleCondition::PathPrefix(prefix) => {
                if starts_with(ctx.path.as_bytes(), prefix.as_str().as_bytes()) {
                    Some(self.action)
                } else {
                    None
                }
            },
            RuleCondition::PathExact(exact) => {
                if crate::fs::table::bytes_eq(ctx.path.as_bytes(), exact.as_str().as_bytes()) {
                    Some(self.action)
                } else {
                    None
                }
            },
            RuleCondition::MaxWriteSize(max_size) => {
                if ctx.data_size > *max_size {
                    Some(self.action)
                } else {
                    None
                }
            },
            RuleCondition::Any => Some(self.action),
        }
    }
}

} // verus!

verus! {

/// Counters of the policy engine (each wraps on overflow).
#[derive(Clone, Copy)]
pub struct VerifierMetrics {
    pub rules_evaluated: u64,
    pub operations_allowed: u64,
    pub operations_denied: u64,
    pub operations_audited: u64,
    pub policy_violations: u64,
}

/// A copy of the counters for reporting.
#[derive(Clone, Copy)]
pub struct VerifierMetricsSnapshot {
    pub rules_evaluated: u64,
    pub operations_allowed: u64,
    pub operations_denied: u64,
    pub operations_audited: u64,
    pub policy_violations: u64,
}

/// Errors of the verifier.
#[derive(Debug, Clone, Copy, PartialEq, Eq, Structural)]
pub enum VerifierError {
    PolicyDenied,
    RuleLimitExceeded,
    InvalidRule,
    NotInitialized,
}

/// Most rules the engine holds.
pub const MAX_RULES: usize = 32;

/// The rule set, in evaluation order, and the counters.
pub struct PolicyEngine {
    pub rules: Vec<PolicyRule>,
    pub metrics: VerifierMetrics,
}

impl PolicyEngine {
    /// No rules (everything denied) and zero counters.
    pub fn new() -> (e: Self)
        ensures
            e.rules@.len() == 0,
            e.metrics == (VerifierMetrics {
                rules_evaluated: 0,
                operations_allowed: 0,
                operations_denied: 0,
                operations_audited: 0,
                policy_violations: 0,
            }),
    {
        PolicyEngine {
            rules: Vec::new(),
            metrics: VerifierMetrics {
                rules_evaluated: 0,
                operations_allowed: 0,
                operations_denied: 0,
                operations_audited: 0,
                policy_violations: 0,
            },
        }
    }
}

/// A snapshot of the counters.
pub fn get_metrics(engine: &PolicyEngine) -> (s: VerifierMetricsSnapshot)
    ensures
        s.rules_evaluated == engine.metrics.rules_evaluated,
        s.operations_allowed == engine.metrics.operations_allowed,
        s.operations_denied == engine.metrics.operations_denied,
        s.operations_audited == engine.metrics.operations_audited,
        s.policy_violations == engine.metrics.policy_violations,
{
    let m = engine.metrics;
    VerifierMetricsSnapshot {
        rules_evaluated: m.rules_evaluated,
        operations_allowed: m.operations_allowed,
        operations_denied: m.operations_denied,
        operations_audited: m.operations_audited,
        policy_violations: m.policy_violations,
    }
}

/// Rule `r` is an enabled rule for `op` deciding `action` on paths starting with `prefix`.
pub open spec fn prefix_rule(r: PolicyRule, name: Seq<char>, prefix: Seq<char>, action: PolicyAction, op: OperationType) -> bool {
    &&& r.name@ == name
    &&& r.condition matches RuleCondition::PathPrefix(p) && p@ == prefix
    &&& r.action == action
    &&& r.operation == op
    &&& r.enabled
}

/// The default rule set, in order: deny writes over 64 KiB; allow reads and
/// writes under /dev/; allow reads and audit writes under /tmp/; deny
/// everything under /sys/; deny everything else.
pub open spec fn default_rules(rules: Seq<PolicyRule>) -> bool {
    &&& rules.len() == 7
    &&& rules[0].name@ == "deny-large-writes"@ && rules[0].condition == RuleCondition::MaxWriteSize(65536)
        && rules[0].action == PolicyAction::Deny && rules[0].operation == OperationType::VfsWrite && rules[0].enabled
    &&& prefix_rule(rules[1], "allow-dev-read"@, "/dev/"@, PolicyAction::Allow, OperationType::VfsRead)
    &&& prefix_rule(rules[2], "allow-dev-write"@, "/dev/"@, PolicyAction::Allow, OperationType::VfsWrite)
    &&& prefix_rule(rules[3], "allow-tmp-read"@, "/tmp/"@, PolicyAction::Allow, OperationType::VfsRead)
    &&& prefix_rule(rules[4], "audit-tmp-write"@, "/tmp/"@, PolicyAction::Audit, OperationType::VfsWrite)
    &&& prefix_rule(rules[5], "deny-sys-access"@, "/sys/"@, PolicyAction::Deny, OperationType::Any)
    &&& rules[6].name@ == "default-deny"@ && rules[6].condition == RuleCondition::Any && rules[6].action == PolicyAction::Deny
        && rules[6].operation == OperationType::Any && rules[6].enabled
}

/// Installs the default rule set (replacing any rules).
pub fn init(engine: &mut PolicyEngine) -> (r: Result<(), VerifierError>)
    ensures
        r is Ok,
        default_rules(final(engine).rules@),
        final(engine).metrics == old(engine).metrics,
{
    let mut rules: Vec<PolicyRule> = Vec::new();
    rules.push(PolicyRule::new("deny-large-writes", RuleCondition::MaxWriteSize(65536), PolicyAction::Deny, OperationType::VfsWrite));
    rules.push(PolicyRule::new("allow-dev-read", RuleCondition::PathPrefix("/dev/".to_owned()), PolicyAction::Allow, OperationType::VfsRead));
    rules.push(PolicyRule::new("allow-dev-write", RuleCondition::PathPrefix("/dev/".to_owned()), PolicyAction::Allow, OperationType::VfsWrite));
    rules.push(PolicyRule::new("allow-tmp-read", RuleCondition::PathPrefix("/tmp/".to_owned()), PolicyAction::Allow, OperationType::VfsRead));
    rules.push(PolicyRule::new("audit-tmp-write", RuleCondition::PathPrefix("/tmp/".to_owned()), PolicyAction::Audit, OperationType::VfsWrite));
    rules.push(PolicyRule::new("deny-sys-access", RuleCondition::PathPrefix("/sys/".to_owned()), PolicyAction::Deny, OperationType::Any));
    rules.push(PolicyRule::new("default-deny", RuleCondition::Any, PolicyAction::Deny, OperationType::Any));
    engine.rules = rules;
    Ok(())
}

/// Appends a rule (evaluated after the existing ones); `RuleLimitExceeded`
/// when `MAX_RULES` are installed.
pub fn add_rule(engine: &mut PolicyEngine, rule: PolicyRule) -> (r: Result<(), VerifierError>)
    ensures
        old(engine).rules@.len() >= MAX_RULES ==> r == Err::<(), VerifierError>(VerifierError::RuleLimitExceeded)
            && final(engine).rules@ == old(engine).rules@,
        old(engine).rules@.len() < MAX_RULES ==> r is Ok && final(engine).rules@ == old(engine).rules@.push(rule),
        final(engine).metrics == old(engine).metrics,
{
    if engine.rules.len() >= MAX_RULES {
        return Err(VerifierError::RuleLimitExceeded);
    }
    engine.rules.push(rule);
    Ok(())
}

/// Number of installed rules.
pub fn rule_count(engine: &PolicyEngine) -> (n: usize)
    ensures
        n == engine.rules@.len(),
{
    engine.rules.len()
}

/// Index of the first rule that decides `ctx`, or `rules.len()` when none does.
pub open spec fn first_match(rules: Seq<PolicyRule>, ctx: OperationContext) -> int
    decreases rules.len(),
{
    if rules.len() == 0 {
        0
    } else if rule_decision(rules[0], ctx) is Some {
        0
    } else {
        1 + first_match(rules.drop_first(), ctx)
    }
}

/// The action the rule set decides for `ctx`: the first matching rule's,
/// Deny when none matches.
pub open spec fn decision(rules: Seq<PolicyRule>, ctx: OperationContext) -> PolicyAction {
    let i = first_match(rules, ctx);
    if i < rules.len() {
        rule_decision(rules[i], ctx)->0
    } else {
        PolicyAction::Deny
    }
}

/// A rule added after the installed ones never changes a decision that an
/// installed rule already makes: rules are consulted in the order they
/// were added.
pub proof fn lemma_added_rule_keeps_decisions(rules: Seq<PolicyRule>, rule: PolicyRule, ctx: OperationContext)
    requires
        first_match(rules, ctx) < rules.len(),
    ensures
        0 <= first_match(rules, ctx),
        first_match(rules.push(rule), ctx) == first_match(rules, ctx),
        decision(rules.push(rule), ctx) == decision(rules, ctx),
    decreases rules.len(),
{
    let pushed = rules.push(rule);
    assert(pushed[0] == rules[0]);
    if rule_decision(rules[0], ctx) is None {
        assert(pushed.drop_first() =~= rules.drop_first().push(rule));
        lemma_added_rule_keeps_decisions(rules.drop_first(), rule, ctx);
    }
    let i = first_match(rules, ctx);
    assert(pushed[i] == rules[i]);
}

/// Counters after deciding `a` having looked at `looked` rules.
pub open spec fn counted_decision(m: VerifierMetrics, looked: int, a: PolicyAction) -> VerifierMetrics {
    let m1 = VerifierMetrics { rules_evaluated: wrapping_sum(m.rules_evaluated, looked), ..m };
    match a {
        PolicyAction::Allow => VerifierMetrics { operations_allowed: wrapping_inc(m1.operations_allowed), ..m1 },
        PolicyAction::Deny => VerifierMetrics {
            operations_denied: wrapping_inc(m1.operations_denied),
            policy_violations: wrapping_inc(m1.policy_violations),
            ..m1
        },
        PolicyAction::Audit => VerifierMetrics { operations_audited: wrapping_inc(m1.operations_audited), ..m1 },
    }
}

proof fn lemma_first_match_step(rules: Seq<PolicyRule>, ctx: OperationContext, i: int)
    requires
        0 <= i <= rules.len(),
        forall|j: int| 0 <= j < i ==> rule_decision(#[trigger] rules[j], ctx) is None,
    ensures
        first_match(rules, ctx) == i + first_match(rules.subrange(i, rules.len() as int), ctx),
    decreases i,
{
    if i > 0 {
        assert(rules.drop_first().subrange(i - 1, rules.drop_first().len() as int) =~= rules.subrange(i, rules.len() as int));
        lemma_first_match_step(rules.drop_first(), ctx, i - 1);
    } else {
        assert(rules.subrange(0, rules.len() as int) =~= rules);
    }
}

proof fn lemma_wrapping_sum_step(x: u64, n: int)
    requires
        n >= 0,
    ensures
        wrapping_inc(wrapping_sum(x, n)) == wrapping_sum(x, n + 1),
{
}

/// Decides `ctx` by the first rule that applies (Deny when none does) and
/// counts the rules looked at and the decision.
pub fn evaluate(engine: &mut PolicyEngine, ctx: &OperationContext) -> (a: PolicyAction)
    ensures
        a == decision(old(engine).rules@, *ctx),
        final(engine).rules@ == old(engine).rules@,
        final(engine).metrics == counted_decision(
            old(engine).metrics,
            if first_match(old(engine).rules@, *ctx) < old(engine).rules@.len() {
                first_match(old(engine).rules@, *ctx) + 1
            } else {
                old(engine).rules@.len() as int
            },
            a,
        ),
{
    let ghost rules = engine.rules@;
    let ghost m0 = engine.metrics;
    let mut i: usize = 0;
    while i < engine.rules.len()
        invariant
            i <= rules.len(),
            engine.rules@ == rules,
            rules == old(engine).rules@,
            m0 == old(engine).metrics,
            engine.metrics == (VerifierMetrics { rules_evaluated: wrapping_sum(m0.rules_evaluated, i as int), ..m0 }),
            forall|j: int| 0 <= j < i ==> rule_decision(#[trigger] rules[j], *ctx) is None,
        decreases rules.len() - i,
    {
        proof {
            lemma_wrapping_sum_step(m0.rules_evaluated, i as int);
        }
        engine.metrics.rules_evaluated = inc(engine.metrics.rules_evaluated);
        let found = engine.rules[i].evaluate(ctx);
        if let Some(action) = found {
            proof {
                lemma_first_match_step(rules, *ctx, i as int);
                assert(rules.subrange(i as int, rules.len() as int)[0] == rules[i as int]);
            }
            match action {
                PolicyAction::Allow => {
                    engine.metrics.operations_allowed = inc(engine.metrics.operations_allowed);
                },
                PolicyAction::Deny => {
                    engine.metrics.operations_denied = inc(engine.metrics.operations_denied);
                    engine.metrics.policy_violations = inc(engine.metrics.policy_violations);
                },
                PolicyAction::Audit => {
                    engine.metrics.operations_audited = inc(engine.metrics.operations_audited);
                },
            }
            return action;
        }
        i += 1;
    }
    proof {
        lemma_first_match_step(rules, *ctx, rules.len() as int);
        assert(rules.subrange(rules.len() as int, rules.len() as int).len() == 0);
    }
    engine.metrics.operations_denied = inc(engine.metrics.operations_denied);
    engine.metrics.policy_violations = inc(engine.metrics.policy_violations);
    PolicyAction::Deny
}

} // verus!
