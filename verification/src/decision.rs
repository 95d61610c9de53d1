//! The decision that one matched rule leads to.
use crate::types::{PolicyRule, PolicyRuleDecision, PolicyRulesResult, RulesOutcome, WhenClause};
use vstd::prelude::*;

verus! {

/// Whether the condition of `when` holds of what its variable reads as. A
/// variable that is missing or not Unicode reads as `None` and never meets a
/// condition, not even one on the empty string.
pub open spec fn condition_met(when: WhenClause, env_value: Option<Seq<char>>) -> bool {
    env_value == Some(when.value@)
}

/// The decision of `rule` before the command's shape is taken into account.
pub open spec fn base_decision(rule: PolicyRule, env_value: Option<Seq<char>>) -> PolicyRuleDecision {
    match rule.when {
        Some(when) => {
            let WhenClause { then: decision, .. } = when;
            if condition_met(when, env_value) {
                decision
            } else {
                rule.decision
            }
        },
        None => rule.decision,
    }
}

/// `base`, weakened to a prompt where it would approve a compound command.
pub open spec fn guarded(base: PolicyRuleDecision, is_compound: bool) -> PolicyRuleDecision {
    if is_compound && base == PolicyRuleDecision::Allow {
        PolicyRuleDecision::Prompt
    } else {
        base
    }
}

/// Resolves the final decision for a matched rule: applies its `when` clause,
/// then the downgrade for compound commands. `env_value` is what the variable of
/// the `when` clause reads as; a rule without one ignores it.
pub fn effective_decision(
    rule: &PolicyRule,
    is_compound: bool,
    env_value: &Option<String>,
) -> (decision: PolicyRuleDecision)
    ensures
        decision == guarded(base_decision(*rule, env_value.deep_view()), is_compound),
        ({
            let base = match rule.when {
                Some(WhenClause { value, then: override_decision, .. }) => if env_value is Some
                    && env_value->0@ == value@ {
                    override_decision
                } else {
                    rule.decision
                },
                None => rule.decision,
            };
            decision == if is_compound && base == PolicyRuleDecision::Allow {
                PolicyRuleDecision::Prompt
            } else {
                base
            }
        }),
{
    let base = if let Some(WhenClause { value, then: decision, .. }) = &rule.when {
        let env_matches = match env_value {
            Some(val) => *val == *value,
            None => false,
        };
        if env_matches {
            *decision
        } else {
            rule.decision
        }
    } else {
        rule.decision
    };
    if is_compound && base == PolicyRuleDecision::Allow {
        PolicyRuleDecision::Prompt
    } else {
        base
    }
}

/// The outcome where `rule` is the one that matched.
pub open spec fn match_of(
    rule: PolicyRule,
    is_compound: bool,
    env_value: Option<Seq<char>>,
) -> RulesOutcome {
    RulesOutcome {
        matched: true,
        decision: Some(guarded(base_decision(rule, env_value), is_compound)),
        justification: rule.justification.deep_view(),
    }
}

/// The result where `rule` is the one that matched: its effective decision, and
/// its justification as it stands.
pub fn matched_result(
    rule: &PolicyRule,
    is_compound: bool,
    env_value: &Option<String>,
) -> (result: PolicyRulesResult)
    ensures
        result@ == match_of(*rule, is_compound, env_value.deep_view()),
        result.matched,
        result.decision is Some,
        call_ensures(effective_decision, (rule, is_compound, env_value), result.decision->0),
        match rule.justification {
            Some(text) => result.justification is Some && result.justification->0@ == text@,
            None => result.justification is None,
        },
{
    let justification = match &rule.justification {
        Some(text) => Some(text.clone()),
        None => None,
    };
    PolicyRulesResult {
        matched: true,
        decision: Some(effective_decision(rule, is_compound, env_value)),
        justification,
    }
}

} // verus!
