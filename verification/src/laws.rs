//! What holds of every evaluation.
//!
//! In the laws about outcomes, `hits[i]` says whether the pattern of `rules[i]`
//! matches the command, and `env_value` is what the environment variable of the
//! matching rule's `when` clause reads as. They are arbitrary: a law holds
//! whatever a tokenizer, a matcher or the environment says.
//!
//! In the laws about tokens and commands, `segments_of`, `tokens_of`, `matches` and
//! `env` are any functions that the parser, the matcher and the environment
//! compute.
use crate::types::{PolicyPatternToken, PolicyRule, PolicyRuleDecision, WhenClause};
use crate::{decision, evaluate, types};
use vstd::prelude::*;

verus! {

/// A stretch of rules at the front that do not match can be left out.
pub proof fn law_misses_are_skipped(
    rules: Seq<PolicyRule>,
    hits: Seq<bool>,
    n: int,
    is_compound: bool,
    env_value: Option<Seq<char>>,
)
    requires
        0 <= n <= rules.len(),
        hits.len() == rules.len(),
        evaluate::none_before(hits, n),
    ensures
        evaluate::rules_outcome(rules, hits, is_compound, env_value)
            == evaluate::rules_outcome(rules.skip(n), hits.skip(n), is_compound, env_value),
    decreases n,
{
    if n == 0 {
        assert(rules.skip(0) == rules);
        assert(hits.skip(0) == hits);
    } else {
        assert(!hits[0]);
        assert forall|k: int| 0 <= k < n - 1 implies !(#[trigger] hits.drop_first()[k]) by {
            assert(!hits[k + 1]);
        }
        law_misses_are_skipped(rules.drop_first(), hits.drop_first(), n - 1, is_compound, env_value);
        assert(rules.drop_first().skip(n - 1) == rules.skip(n));
        assert(hits.drop_first().skip(n - 1) == hits.skip(n));
    }
}

/// The first rule that matches decides, alone.
pub proof fn law_first_match_decides(
    rules: Seq<PolicyRule>,
    hits: Seq<bool>,
    i: int,
    is_compound: bool,
    env_value: Option<Seq<char>>,
)
    requires
        hits.len() == rules.len(),
        evaluate::first_hit_at(hits, i),
    ensures
        evaluate::rules_outcome(rules, hits, is_compound, env_value)
            == decision::match_of(rules[i], is_compound, env_value),
{
    law_misses_are_skipped(rules, hits, i, is_compound, env_value);
}

/// Where no rule matches, the outcome is the default one.
pub proof fn law_no_match_is_default(
    rules: Seq<PolicyRule>,
    hits: Seq<bool>,
    is_compound: bool,
    env_value: Option<Seq<char>>,
)
    requires
        hits.len() == rules.len(),
        evaluate::none_before(hits, hits.len() as int),
    ensures
        evaluate::rules_outcome(rules, hits, is_compound, env_value)
            == types::no_match(),
{
    law_misses_are_skipped(rules, hits, hits.len() as int, is_compound, env_value);
}

/// Rules behind the first one that matches do not matter.
pub proof fn law_later_rules_are_ignored(
    rules: Seq<PolicyRule>,
    hits: Seq<bool>,
    later_rules: Seq<PolicyRule>,
    later_hits: Seq<bool>,
    is_compound: bool,
    env_value: Option<Seq<char>>,
)
    requires
        hits.len() == rules.len(),
        later_hits.len() == later_rules.len(),
        hits.contains(true),
    ensures
        evaluate::rules_outcome(
            rules + later_rules,
            hits + later_hits,
            is_compound,
            env_value,
        ) == evaluate::rules_outcome(rules, hits, is_compound, env_value),
    decreases rules.len(),
{
    assert((rules + later_rules)[0] == rules[0]);
    assert((hits + later_hits)[0] == hits[0]);
    if !hits[0] {
        assert((rules + later_rules).drop_first() == rules.drop_first() + later_rules);
        assert((hits + later_hits).drop_first() == hits.drop_first() + later_hits);
        assert(hits.drop_first().contains(true)) by {
            let k = choose|k: int| 0 <= k < hits.len() && hits[k];
            assert(hits.drop_first()[k - 1]);
        }
        law_later_rules_are_ignored(
            rules.drop_first(),
            hits.drop_first(),
            later_rules,
            later_hits,
            is_compound,
            env_value,
        );
    }
}

/// An outcome has a decision exactly where a rule matched, a rule matched exactly
/// where some reply says so, and a justification comes only with a match.
pub proof fn law_matched_means_decided(
    rules: Seq<PolicyRule>,
    hits: Seq<bool>,
    is_compound: bool,
    env_value: Option<Seq<char>>,
)
    requires
        hits.len() == rules.len(),
    ensures
        ({
            let outcome = evaluate::rules_outcome(rules, hits, is_compound, env_value);
            &&& outcome.matched <==> hits.contains(true)
            &&& outcome.matched <==> outcome.decision is Some
            &&& outcome.justification is Some ==> outcome.matched
        }),
    decreases rules.len(),
{
    if rules.len() > 0 && !hits[0] {
        let rest = hits.drop_first();
        law_matched_means_decided(rules.drop_first(), rest, is_compound, env_value);
        if rest.contains(true) {
            let k = choose|k: int| 0 <= k < rest.len() && rest[k];
            assert(hits[k + 1]);
        }
        if hits.contains(true) {
            let k = choose|k: int| 0 <= k < hits.len() && hits[k];
            assert(rest[k - 1]);
        }
    } else if rules.len() > 0 {
        assert(hits[0]);
    }
}

/// Compound commands are never silently approved, whatever the rules say.
pub proof fn law_compound_is_never_allowed(
    rules: Seq<PolicyRule>,
    hits: Seq<bool>,
    env_value: Option<Seq<char>>,
)
    requires
        hits.len() == rules.len(),
    ensures
        evaluate::rules_outcome(rules, hits, true, env_value).decision != Some(
            PolicyRuleDecision::Allow,
        ),
    decreases rules.len(),
{
    if rules.len() > 0 && !hits[0] {
        law_compound_is_never_allowed(rules.drop_first(), hits.drop_first(), env_value);
    }
}

/// That a command is compound turns an approval into a prompt and changes nothing
/// else: prompts and blocks stay, and so does the justification.
pub proof fn law_compound_weakens_only_allow(
    rules: Seq<PolicyRule>,
    hits: Seq<bool>,
    env_value: Option<Seq<char>>,
)
    requires
        hits.len() == rules.len(),
    ensures
        ({
            let simple = evaluate::rules_outcome(rules, hits, false, env_value);
            let compound = evaluate::rules_outcome(rules, hits, true, env_value);
            &&& compound.matched == simple.matched
            &&& compound.justification == simple.justification
            &&& compound.decision == if simple.decision == Some(PolicyRuleDecision::Allow) {
                Some(PolicyRuleDecision::Prompt)
            } else {
                simple.decision
            }
        }),
    decreases rules.len(),
{
    if rules.len() > 0 && !hits[0] {
        law_compound_weakens_only_allow(rules.drop_first(), hits.drop_first(), env_value);
    }
}

/// A `when` clause whose variable holds the stated value replaces the rule's
/// decision by its own.
pub proof fn law_met_condition_overrides(
    rules: Seq<PolicyRule>,
    hits: Seq<bool>,
    i: int,
    when: WhenClause,
    is_compound: bool,
)
    requires
        hits.len() == rules.len(),
        evaluate::first_hit_at(hits, i),
        rules[i].when == Some(when),
    ensures
        ({
            let WhenClause { value, then: override_decision, .. } = when;
            evaluate::rules_outcome(rules, hits, is_compound, Some(value@)).decision == Some(
                decision::guarded(override_decision, is_compound),
            )
        }),
{
    law_first_match_decides(rules, hits, i, is_compound, Some(when.value@));
}

/// Where the variable does not hold the value that the rule's `when` clause
/// states, or the rule has no such clause, the rule's own decision stands.
pub proof fn law_unmet_condition_keeps_rule_decision(
    rules: Seq<PolicyRule>,
    hits: Seq<bool>,
    i: int,
    is_compound: bool,
    env_value: Option<Seq<char>>,
)
    requires
        hits.len() == rules.len(),
        evaluate::first_hit_at(hits, i),
        rules[i].when matches Some(when) ==> env_value != Some(when.value@),
    ensures
        evaluate::rules_outcome(rules, hits, is_compound, env_value).decision == Some(
            decision::guarded(rules[i].decision, is_compound),
        ),
{
    law_first_match_decides(rules, hits, i, is_compound, env_value);
}

/// A variable that is missing or not Unicode meets no condition, not even one on
/// the empty string: the rule's own decision stands.
pub proof fn law_absent_variable_keeps_rule_decision(
    rules: Seq<PolicyRule>,
    hits: Seq<bool>,
    i: int,
    is_compound: bool,
)
    requires
        hits.len() == rules.len(),
        evaluate::first_hit_at(hits, i),
    ensures
        evaluate::rules_outcome(rules, hits, is_compound, None).decision == Some(
            decision::guarded(rules[i].decision, is_compound),
        ),
{
    law_first_match_decides(rules, hits, i, is_compound, None);
}

/// Whether a rule can approve a simple command in some environment.
pub open spec fn can_allow(rule: PolicyRule) -> bool {
    ||| rule.decision == PolicyRuleDecision::Allow
    ||| rule.when matches Some(WhenClause { then: PolicyRuleDecision::Allow, .. })
}

/// An approval comes from the first rule that matches, which says so itself or in
/// its `when` clause, and goes to a simple command.
pub proof fn law_allow_comes_from_the_matching_rule(
    rules: Seq<PolicyRule>,
    hits: Seq<bool>,
    is_compound: bool,
    env_value: Option<Seq<char>>,
)
    requires
        hits.len() == rules.len(),
        evaluate::rules_outcome(rules, hits, is_compound, env_value).decision == Some(
            PolicyRuleDecision::Allow,
        ),
    ensures
        !is_compound,
        exists|i: int| #[trigger]
            evaluate::first_hit_at(hits, i) && can_allow(rules[i]),
    decreases rules.len(),
{
    if hits[0] {
        assert(evaluate::first_hit_at(hits, 0));
    } else {
        let rest = hits.drop_first();
        law_allow_comes_from_the_matching_rule(rules.drop_first(), rest, is_compound, env_value);
        let i = choose|i: int| #[trigger]
            evaluate::first_hit_at(rest, i) && can_allow(rules.drop_first()[i]);
        assert forall|k: int| 0 <= k < i + 1 implies !(#[trigger] hits[k]) by {
            assert(k > 0 ==> !rest[k - 1]);
        }
        assert(hits[i + 1] == rest[i]);
        assert(evaluate::first_hit_at(hits, i + 1));
    }
}

/// Rules of which none can allow approve no command in any environment.
pub proof fn law_no_allowing_rule_approves_nothing(
    rules: Seq<PolicyRule>,
    hits: Seq<bool>,
    is_compound: bool,
    env_value: Option<Seq<char>>,
)
    requires
        hits.len() == rules.len(),
        forall|i: int| 0 <= i < rules.len() ==> !can_allow(#[trigger] rules[i]),
    ensures
        evaluate::rules_outcome(rules, hits, is_compound, env_value).decision != Some(
            PolicyRuleDecision::Allow,
        ),
{
    if evaluate::rules_outcome(rules, hits, is_compound, env_value).decision == Some(
        PolicyRuleDecision::Allow,
    ) {
        law_allow_comes_from_the_matching_rule(rules, hits, is_compound, env_value);
    }
}

/// Two rule lists one behind the other: the first decides where one of its rules
/// matches, and else the second does.
pub proof fn law_rule_lists_concatenate(
    rules: Seq<PolicyRule>,
    later_rules: Seq<PolicyRule>,
    tokens: Seq<Seq<char>>,
    is_compound: bool,
    matches: spec_fn(Seq<PolicyPatternToken>, Seq<Seq<char>>) -> bool,
    env: spec_fn(Seq<char>) -> Option<Seq<char>>,
)
    ensures
        ({
            let outcome = evaluate::outcome_for_tokens(rules, tokens, is_compound, matches, env);
            evaluate::outcome_for_tokens(rules + later_rules, tokens, is_compound, matches, env)
                == if outcome.matched {
                outcome
            } else {
                evaluate::outcome_for_tokens(later_rules, tokens, is_compound, matches, env)
            }
        }),
    decreases rules.len(),
{
    if rules.len() == 0 {
        assert(rules + later_rules == later_rules);
    } else {
        assert((rules + later_rules)[0] == rules[0]);
        assert((rules + later_rules).drop_first() == rules.drop_first() + later_rules);
        law_rule_lists_concatenate(
            rules.drop_first(),
            later_rules,
            tokens,
            is_compound,
            matches,
            env,
        );
    }
}

/// What follows the first logical segment is not matched: two commands whose
/// leading segments have the same tokens, and of which both or neither are
/// compound, have the same outcome.
pub proof fn law_tail_is_not_matched(
    rules: Seq<PolicyRule>,
    cmd1: Seq<char>,
    cmd2: Seq<char>,
    segments_of: spec_fn(Seq<char>) -> Seq<Seq<char>>,
    tokens_of: spec_fn(Seq<char>) -> Seq<Seq<char>>,
    matches: spec_fn(Seq<PolicyPatternToken>, Seq<Seq<char>>) -> bool,
    env: spec_fn(Seq<char>) -> Option<Seq<char>>,
)
    requires
        tokens_of(evaluate::leading_segment_of(cmd1, segments_of(cmd1))) == tokens_of(
            evaluate::leading_segment_of(cmd2, segments_of(cmd2)),
        ),
        evaluate::is_compound_command(segments_of(cmd1)) == evaluate::is_compound_command(
            segments_of(cmd2),
        ),
    ensures
        evaluate::outcome_for_command(rules, cmd1, segments_of, tokens_of, matches, env)
            == evaluate::outcome_for_command(
            rules,
            cmd2,
            segments_of,
            tokens_of,
            matches,
            env,
        ),
{
}

/// What follows the first logical segment counts only as a sign that the command
/// is compound: beside a command that is not compound and whose leading segment
/// has the same tokens, an approval becomes a prompt where the command is
/// compound, and nothing else changes.
pub proof fn law_tail_weakens_only_allow(
    rules: Seq<PolicyRule>,
    cmd1: Seq<char>,
    cmd2: Seq<char>,
    segments_of: spec_fn(Seq<char>) -> Seq<Seq<char>>,
    tokens_of: spec_fn(Seq<char>) -> Seq<Seq<char>>,
    matches: spec_fn(Seq<PolicyPatternToken>, Seq<Seq<char>>) -> bool,
    env: spec_fn(Seq<char>) -> Option<Seq<char>>,
)
    requires
        tokens_of(evaluate::leading_segment_of(cmd1, segments_of(cmd1))) == tokens_of(
            evaluate::leading_segment_of(cmd2, segments_of(cmd2)),
        ),
        !evaluate::is_compound_command(segments_of(cmd2)),
    ensures
        ({
            let first = evaluate::outcome_for_command(
                rules,
                cmd1,
                segments_of,
                tokens_of,
                matches,
                env,
            );
            let second = evaluate::outcome_for_command(
                rules,
                cmd2,
                segments_of,
                tokens_of,
                matches,
                env,
            );
            &&& first.matched == second.matched
            &&& first.justification == second.justification
            &&& first.decision == if evaluate::is_compound_command(segments_of(cmd1))
                && second.decision == Some(PolicyRuleDecision::Allow) {
                Some(PolicyRuleDecision::Prompt)
            } else {
                second.decision
            }
        }),
{
    lemma_compound_tokens(
        rules,
        tokens_of(evaluate::leading_segment_of(cmd1, segments_of(cmd1))),
        matches,
        env,
    );
}

/// For given tokens, that a command is compound turns an approval into a prompt
/// and changes nothing else.
proof fn lemma_compound_tokens(
    rules: Seq<PolicyRule>,
    tokens: Seq<Seq<char>>,
    matches: spec_fn(Seq<PolicyPatternToken>, Seq<Seq<char>>) -> bool,
    env: spec_fn(Seq<char>) -> Option<Seq<char>>,
)
    ensures
        ({
            let simple = evaluate::outcome_for_tokens(rules, tokens, false, matches, env);
            let compound = evaluate::outcome_for_tokens(rules, tokens, true, matches, env);
            &&& compound.matched == simple.matched
            &&& compound.justification == simple.justification
            &&& compound.decision == if simple.decision == Some(PolicyRuleDecision::Allow) {
                Some(PolicyRuleDecision::Prompt)
            } else {
                simple.decision
            }
        }),
    decreases rules.len(),
{
    if rules.len() > 0 && !matches(rules[0].pattern@, tokens) {
        lemma_compound_tokens(rules.drop_first(), tokens, matches, env);
    }
}

/// The first rule whose pattern matches the tokens of the command's first segment,
/// or of the whole command where it has none, decides where it has no `when` clause:
/// its decision, but a prompt where that would allow a command of two or more
/// segments, and its justification as it stands.
pub proof fn law_command_without_condition(
    rules: Seq<PolicyRule>,
    cmd: Seq<char>,
    segments_of: spec_fn(Seq<char>) -> Seq<Seq<char>>,
    tokens_of: spec_fn(Seq<char>) -> Seq<Seq<char>>,
    matches: spec_fn(Seq<PolicyPatternToken>, Seq<Seq<char>>) -> bool,
    env: spec_fn(Seq<char>) -> Option<Seq<char>>,
    tokens: Seq<Seq<char>>,
    i: int,
)
    requires
        tokens == tokens_of(
            if segments_of(cmd).len() == 0 {
                cmd
            } else {
                segments_of(cmd)[0]
            },
        ),
        0 <= i < rules.len(),
        matches(rules[i].pattern@, tokens),
        forall|k: int| 0 <= k < i ==> !matches((#[trigger] rules[k]).pattern@, tokens),
        rules[i].when is None,
    ensures
        ({
            let outcome = evaluate::outcome_for_command(
                rules,
                cmd,
                segments_of,
                tokens_of,
                matches,
                env,
            );
            &&& outcome.matched
            &&& outcome.decision == Some(
                if segments_of(cmd).len() >= 2 && rules[i].decision == PolicyRuleDecision::Allow {
                    PolicyRuleDecision::Prompt
                } else {
                    rules[i].decision
                },
            )
            &&& match rules[i].justification {
                Some(text) => outcome.justification == Some(text@),
                None => outcome.justification is None,
            }
        }),
{
    lemma_least_match_decides(
        rules,
        tokens,
        evaluate::is_compound_command(segments_of(cmd)),
        matches,
        env,
        i,
    );
}

/// Where that rule has a `when` clause and the environment gives its variable the
/// stated value, the decision of the clause takes the place of the rule's own,
/// whatever that is.
pub proof fn law_command_condition_met(
    rules: Seq<PolicyRule>,
    cmd: Seq<char>,
    segments_of: spec_fn(Seq<char>) -> Seq<Seq<char>>,
    tokens_of: spec_fn(Seq<char>) -> Seq<Seq<char>>,
    matches: spec_fn(Seq<PolicyPatternToken>, Seq<Seq<char>>) -> bool,
    env: spec_fn(Seq<char>) -> Option<Seq<char>>,
    tokens: Seq<Seq<char>>,
    i: int,
    name: String,
    value: String,
    override_decision: PolicyRuleDecision,
)
    requires
        tokens == tokens_of(
            if segments_of(cmd).len() == 0 {
                cmd
            } else {
                segments_of(cmd)[0]
            },
        ),
        0 <= i < rules.len(),
        matches(rules[i].pattern@, tokens),
        forall|k: int| 0 <= k < i ==> !matches((#[trigger] rules[k]).pattern@, tokens),
        rules[i].when == (Some(WhenClause { env: name, value, then: override_decision })),
        env(name@) == Some(value@),
    ensures
        ({
            let outcome = evaluate::outcome_for_command(
                rules,
                cmd,
                segments_of,
                tokens_of,
                matches,
                env,
            );
            &&& outcome.matched
            &&& outcome.decision == Some(
                if segments_of(cmd).len() >= 2 && override_decision == PolicyRuleDecision::Allow {
                    PolicyRuleDecision::Prompt
                } else {
                    override_decision
                },
            )
            &&& match rules[i].justification {
                Some(text) => outcome.justification == Some(text@),
                None => outcome.justification is None,
            }
        }),
{
    lemma_least_match_decides(
        rules,
        tokens,
        evaluate::is_compound_command(segments_of(cmd)),
        matches,
        env,
        i,
    );
}

/// Where that rule has a `when` clause and the environment gives its variable
/// another value or none, the rule's own decision stands.
pub proof fn law_command_condition_unmet(
    rules: Seq<PolicyRule>,
    cmd: Seq<char>,
    segments_of: spec_fn(Seq<char>) -> Seq<Seq<char>>,
    tokens_of: spec_fn(Seq<char>) -> Seq<Seq<char>>,
    matches: spec_fn(Seq<PolicyPatternToken>, Seq<Seq<char>>) -> bool,
    env: spec_fn(Seq<char>) -> Option<Seq<char>>,
    tokens: Seq<Seq<char>>,
    i: int,
    name: String,
    value: String,
    override_decision: PolicyRuleDecision,
)
    requires
        tokens == tokens_of(
            if segments_of(cmd).len() == 0 {
                cmd
            } else {
                segments_of(cmd)[0]
            },
        ),
        0 <= i < rules.len(),
        matches(rules[i].pattern@, tokens),
        forall|k: int| 0 <= k < i ==> !matches((#[trigger] rules[k]).pattern@, tokens),
        rules[i].when == (Some(WhenClause { env: name, value, then: override_decision })),
        env(name@) != Some(value@),
    ensures
        ({
            let outcome = evaluate::outcome_for_command(
                rules,
                cmd,
                segments_of,
                tokens_of,
                matches,
                env,
            );
            &&& outcome.matched
            &&& outcome.decision == Some(
                if segments_of(cmd).len() >= 2 && rules[i].decision == PolicyRuleDecision::Allow {
                    PolicyRuleDecision::Prompt
                } else {
                    rules[i].decision
                },
            )
            &&& match rules[i].justification {
                Some(text) => outcome.justification == Some(text@),
                None => outcome.justification is None,
            }
        }),
{
    lemma_least_match_decides(
        rules,
        tokens,
        evaluate::is_compound_command(segments_of(cmd)),
        matches,
        env,
        i,
    );
}

/// A command is matched exactly where some rule's pattern matches the tokens of its
/// first segment, or of the whole command where it has none, however many tokens
/// there are; an outcome without a match is empty.
pub proof fn law_command_matched_iff_some_rule_matches(
    rules: Seq<PolicyRule>,
    cmd: Seq<char>,
    segments_of: spec_fn(Seq<char>) -> Seq<Seq<char>>,
    tokens_of: spec_fn(Seq<char>) -> Seq<Seq<char>>,
    matches: spec_fn(Seq<PolicyPatternToken>, Seq<Seq<char>>) -> bool,
    env: spec_fn(Seq<char>) -> Option<Seq<char>>,
    tokens: Seq<Seq<char>>,
)
    requires
        tokens == tokens_of(
            if segments_of(cmd).len() == 0 {
                cmd
            } else {
                segments_of(cmd)[0]
            },
        ),
    ensures
        ({
            let outcome = evaluate::outcome_for_command(
                rules,
                cmd,
                segments_of,
                tokens_of,
                matches,
                env,
            );
            &&& outcome.matched <==> exists|i: int|
                0 <= i < rules.len() && matches((#[trigger] rules[i]).pattern@, tokens)
            &&& outcome.decision is Some <==> outcome.matched
            &&& !outcome.matched ==> outcome.justification is None
        }),
{
    lemma_matched_iff_some_matches(
        rules,
        tokens,
        evaluate::is_compound_command(segments_of(cmd)),
        matches,
        env,
    );
}

/// A command of two or more segments is never silently approved.
pub proof fn law_command_of_two_segments_is_never_allowed(
    rules: Seq<PolicyRule>,
    cmd: Seq<char>,
    segments_of: spec_fn(Seq<char>) -> Seq<Seq<char>>,
    tokens_of: spec_fn(Seq<char>) -> Seq<Seq<char>>,
    matches: spec_fn(Seq<PolicyPatternToken>, Seq<Seq<char>>) -> bool,
    env: spec_fn(Seq<char>) -> Option<Seq<char>>,
)
    requires
        segments_of(cmd).len() >= 2,
    ensures
        evaluate::outcome_for_command(
            rules,
            cmd,
            segments_of,
            tokens_of,
            matches,
            env,
        ).decision != Some(PolicyRuleDecision::Allow),
{
    let segments = segments_of(cmd);
    lemma_compound_tokens(
        rules,
        tokens_of(evaluate::leading_segment_of(cmd, segments)),
        matches,
        env,
    );
}

/// Appending segments to a command that has one leaves what is matched as it is:
/// whether a rule matched and its justification stay, and so does the decision, but
/// for an approval, which becomes a prompt.
pub proof fn law_appended_segments_weaken_only_allow(
    rules: Seq<PolicyRule>,
    cmd: Seq<char>,
    longer_cmd: Seq<char>,
    appended: Seq<Seq<char>>,
    segments_of: spec_fn(Seq<char>) -> Seq<Seq<char>>,
    tokens_of: spec_fn(Seq<char>) -> Seq<Seq<char>>,
    matches: spec_fn(Seq<PolicyPatternToken>, Seq<Seq<char>>) -> bool,
    env: spec_fn(Seq<char>) -> Option<Seq<char>>,
)
    requires
        segments_of(cmd).len() > 0,
        appended.len() > 0,
        segments_of(longer_cmd) == segments_of(cmd) + appended,
    ensures
        ({
            let shorter = evaluate::outcome_for_command(
                rules,
                cmd,
                segments_of,
                tokens_of,
                matches,
                env,
            );
            let longer = evaluate::outcome_for_command(
                rules,
                longer_cmd,
                segments_of,
                tokens_of,
                matches,
                env,
            );
            &&& longer.matched == shorter.matched
            &&& longer.justification == shorter.justification
            &&& shorter.decision == Some(PolicyRuleDecision::Allow) ==> longer.decision == Some(
                PolicyRuleDecision::Prompt,
            )
            &&& shorter.decision != Some(PolicyRuleDecision::Allow) ==> longer.decision
                == shorter.decision
        }),
{
    assert(segments_of(longer_cmd)[0] == segments_of(cmd)[0]);
    lemma_compound_tokens(rules, tokens_of(segments_of(cmd)[0]), matches, env);
}

/// Two rule lists one behind the other, for a command: the first decides where one
/// of its rules matches, and else the second does.
pub proof fn law_command_rule_lists_concatenate(
    rules: Seq<PolicyRule>,
    later_rules: Seq<PolicyRule>,
    cmd: Seq<char>,
    segments_of: spec_fn(Seq<char>) -> Seq<Seq<char>>,
    tokens_of: spec_fn(Seq<char>) -> Seq<Seq<char>>,
    matches: spec_fn(Seq<PolicyPatternToken>, Seq<Seq<char>>) -> bool,
    env: spec_fn(Seq<char>) -> Option<Seq<char>>,
)
    ensures
        ({
            let outcome = evaluate::outcome_for_command(
                rules,
                cmd,
                segments_of,
                tokens_of,
                matches,
                env,
            );
            evaluate::outcome_for_command(
                rules + later_rules,
                cmd,
                segments_of,
                tokens_of,
                matches,
                env,
            ) == if outcome.matched {
                outcome
            } else {
                evaluate::outcome_for_command(
                    later_rules,
                    cmd,
                    segments_of,
                    tokens_of,
                    matches,
                    env,
                )
            }
        }),
{
    let segments = segments_of(cmd);
    law_rule_lists_concatenate(
        rules,
        later_rules,
        tokens_of(evaluate::leading_segment_of(cmd, segments)),
        evaluate::is_compound_command(segments),
        matches,
        env,
    );
}

/// The environment counts only for the variables that `when` clauses name.
pub proof fn law_other_variables_do_not_matter(
    rules: Seq<PolicyRule>,
    cmd: Seq<char>,
    segments_of: spec_fn(Seq<char>) -> Seq<Seq<char>>,
    tokens_of: spec_fn(Seq<char>) -> Seq<Seq<char>>,
    matches: spec_fn(Seq<PolicyPatternToken>, Seq<Seq<char>>) -> bool,
    env: spec_fn(Seq<char>) -> Option<Seq<char>>,
    other_env: spec_fn(Seq<char>) -> Option<Seq<char>>,
)
    requires
        forall|i: int|
            0 <= i < rules.len() && (#[trigger] rules[i]).when is Some ==> env(
                rules[i].when->0.env@,
            ) == other_env(rules[i].when->0.env@),
    ensures
        evaluate::outcome_for_command(
            rules,
            cmd,
            segments_of,
            tokens_of,
            matches,
            env,
        ) == evaluate::outcome_for_command(
            rules,
            cmd,
            segments_of,
            tokens_of,
            matches,
            other_env,
        ),
    decreases rules.len(),
{
    if rules.len() > 0 {
        let rest = rules.drop_first();
        assert(env(rules[0].when->0.env@) == other_env(rules[0].when->0.env@) || rules[0].when is None);
        assert forall|i: int| 0 <= i < rest.len() && (#[trigger] rest[i]).when is Some implies env(
            rest[i].when->0.env@,
        ) == other_env(rest[i].when->0.env@) by {
            assert(rest[i] == rules[i + 1]);
        }
        law_other_variables_do_not_matter(
            rest,
            cmd,
            segments_of,
            tokens_of,
            matches,
            env,
            other_env,
        );
    }
}

/// For given tokens, the first rule that matches them decides.
proof fn lemma_least_match_decides(
    rules: Seq<PolicyRule>,
    tokens: Seq<Seq<char>>,
    is_compound: bool,
    matches: spec_fn(Seq<PolicyPatternToken>, Seq<Seq<char>>) -> bool,
    env: spec_fn(Seq<char>) -> Option<Seq<char>>,
    i: int,
)
    requires
        0 <= i < rules.len(),
        matches(rules[i].pattern@, tokens),
        forall|k: int| 0 <= k < i ==> !matches((#[trigger] rules[k]).pattern@, tokens),
    ensures
        evaluate::outcome_for_tokens(rules, tokens, is_compound, matches, env)
            == decision::match_of(rules[i], is_compound, evaluate::when_value(rules[i], env)),
    decreases i,
{
    if i > 0 {
        assert(!matches(rules[0].pattern@, tokens));
        let rest = rules.drop_first();
        assert forall|k: int| 0 <= k < i - 1 implies !matches(
            (#[trigger] rest[k]).pattern@,
            tokens,
        ) by {
            assert(rest[k] == rules[k + 1]);
        }
        lemma_least_match_decides(rest, tokens, is_compound, matches, env, i - 1);
    }
}

/// For given tokens, there is a match exactly where some rule matches them.
proof fn lemma_matched_iff_some_matches(
    rules: Seq<PolicyRule>,
    tokens: Seq<Seq<char>>,
    is_compound: bool,
    matches: spec_fn(Seq<PolicyPatternToken>, Seq<Seq<char>>) -> bool,
    env: spec_fn(Seq<char>) -> Option<Seq<char>>,
)
    ensures
        ({
            let outcome = evaluate::outcome_for_tokens(rules, tokens, is_compound, matches, env);
            &&& outcome.matched <==> exists|i: int|
                0 <= i < rules.len() && matches((#[trigger] rules[i]).pattern@, tokens)
            &&& outcome.decision is Some <==> outcome.matched
            &&& !outcome.matched ==> outcome.justification is None
        }),
    decreases rules.len(),
{
    if rules.len() > 0 && !matches(rules[0].pattern@, tokens) {
        let rest = rules.drop_first();
        lemma_matched_iff_some_matches(rest, tokens, is_compound, matches, env);
        if exists|i: int| 0 <= i < rest.len() && matches((#[trigger] rest[i]).pattern@, tokens) {
            let i = choose|i: int|
                0 <= i < rest.len() && matches((#[trigger] rest[i]).pattern@, tokens);
            assert(matches(rules[i + 1].pattern@, tokens));
        }
        if exists|i: int| 0 <= i < rules.len() && matches((#[trigger] rules[i]).pattern@, tokens) {
            let i = choose|i: int|
                0 <= i < rules.len() && matches((#[trigger] rules[i]).pattern@, tokens);
            assert(matches(rest[i - 1].pattern@, tokens));
        }
    }
}

/// Where the caller's functions are deterministic, what they reply determines the
/// outcome of an evaluation.
pub proof fn law_deterministic_replies<S, T, M, E>(
    logical_segments: S,
    split_tokens: T,
    pattern_matches: M,
    env_var: E,
    segments_of: spec_fn(Seq<char>) -> Seq<Seq<char>>,
    tokens_of: spec_fn(Seq<char>) -> Seq<Seq<char>>,
    matches: spec_fn(Seq<PolicyPatternToken>, Seq<Seq<char>>) -> bool,
    env: spec_fn(Seq<char>) -> Option<Seq<char>>,
    rules: Seq<PolicyRule>,
    cmd: &str,
    segments: Vec<String>,
    tokens: Vec<String>,
    hits: Seq<bool>,
    env_value: Option<String>,
) where
    S: Fn(&str) -> Vec<String>,
    T: Fn(&str) -> Vec<String>,
    M: Fn(&Vec<PolicyPatternToken>, &Vec<String>) -> bool,
    E: Fn(&str) -> Option<String>,

    requires
        evaluate::computed_by(
            logical_segments,
            split_tokens,
            pattern_matches,
            env_var,
            segments_of,
            tokens_of,
            matches,
            env,
        ),
        evaluate::replies_of(
            logical_segments,
            split_tokens,
            pattern_matches,
            env_var,
            rules,
            cmd,
            segments,
            tokens,
            hits,
            env_value,
        ),
    ensures
        evaluate::rules_outcome(
            rules,
            hits,
            evaluate::is_compound_command(segments.deep_view()),
            env_value.deep_view(),
        ) == evaluate::outcome_for_command(
            rules,
            cmd@,
            segments_of,
            tokens_of,
            matches,
            env,
        ),
{
    let is_compound = evaluate::is_compound_command(segments.deep_view());
    assert forall|i: int|
        #![trigger hits[i]]
        0 <= i < rules.len() && evaluate::none_before(hits, i) implies hits[i] == matches(
        rules[i].pattern@,
        tokens.deep_view(),
    ) by {}
    assert forall|i: int|
        #![trigger hits[i]]
        evaluate::first_hit_at(hits, i)
            && rules[i].when is Some implies env_value.deep_view() == evaluate::when_value(
        rules[i],
        env,
    ) by {}
    lemma_tokens_decide(
        rules,
        hits,
        tokens.deep_view(),
        is_compound,
        matches,
        env,
        env_value.deep_view(),
    );
}

/// Replies that agree with `matches` and `env` as far as they were asked for lead
/// to the outcome that `matches` and `env` lead to.
proof fn lemma_tokens_decide(
    rules: Seq<PolicyRule>,
    hits: Seq<bool>,
    tokens: Seq<Seq<char>>,
    is_compound: bool,
    matches: spec_fn(Seq<PolicyPatternToken>, Seq<Seq<char>>) -> bool,
    env: spec_fn(Seq<char>) -> Option<Seq<char>>,
    env_value: Option<Seq<char>>,
)
    requires
        hits.len() == rules.len(),
        forall|i: int|
            #![trigger hits[i]]
            0 <= i < rules.len() && evaluate::none_before(hits, i) ==> hits[i] == matches(
                rules[i].pattern@,
                tokens,
            ),
        forall|i: int|
            #![trigger hits[i]]
            evaluate::first_hit_at(hits, i) && rules[i].when is Some ==> env_value
                == evaluate::when_value(rules[i], env),
    ensures
        evaluate::rules_outcome(rules, hits, is_compound, env_value)
            == evaluate::outcome_for_tokens(rules, tokens, is_compound, matches, env),
    decreases rules.len(),
{
    if rules.len() > 0 {
        assert(hits[0] == matches(rules[0].pattern@, tokens));
        if !hits[0] {
            let rest = hits.drop_first();
            assert forall|i: int|
                #![trigger rest[i]]
                0 <= i < rest.len() && evaluate::none_before(
                    rest,
                    i,
                ) implies evaluate::none_before(hits, i + 1) && rest[i] == matches(
                rules.drop_first()[i].pattern@,
                tokens,
            ) by {
                assert forall|k: int| 0 <= k < i + 1 implies !(#[trigger] hits[k]) by {
                    assert(k > 0 ==> !rest[k - 1]);
                }
                assert(hits[i + 1] == rest[i]);
            }
            assert forall|i: int|
                #![trigger rest[i]]
                evaluate::first_hit_at(rest, i)
                    && rules.drop_first()[i].when is Some implies env_value
                == evaluate::when_value(rules.drop_first()[i], env) by {
                assert(hits[i + 1]);
                assert(evaluate::first_hit_at(hits, i + 1));
            }
            lemma_tokens_decide(
                rules.drop_first(),
                rest,
                tokens,
                is_compound,
                matches,
                env,
                env_value,
            );
        }
    }
}

} // verus!
