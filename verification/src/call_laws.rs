//! What holds of calls, stated over what goes in and what comes out.
//!
//! A law here takes calls as they were made: `call_ensures` of a function, its
//! arguments and a result says that the call can give that result. The functions
//! handed to an evaluation need not be deterministic; a law that needs a definite
//! reply asks for it only where the evaluation asks for one.
use crate::decision::{effective_decision, matched_result};
use crate::evaluate::{evaluate_policy_rules, first_matching_rule, leading_segment};
use crate::evaluate;
use crate::types::{
    PolicyPatternToken, PolicyRule, PolicyRuleDecision, PolicyRulesResult, WhenClause,
};
use vstd::prelude::*;

verus! {

/// Where `rules[i]` is the first rule whose pattern matches the tokens of the
/// command's first segment, or of the whole command where it has none, and has no
/// `when` clause, it decides: its decision, or a prompt where that would allow a
/// command of two or more segments, with its justification as it stands.
pub proof fn law_call_without_condition<S, T, M, E>(
    rules: &[PolicyRule],
    cmd: &str,
    logical_segments: S,
    split_tokens: T,
    pattern_matches: M,
    env_var: E,
    segments: Seq<Seq<char>>,
    tokens: Seq<Seq<char>>,
    i: int,
    result: PolicyRulesResult,
) where
    S: Fn(&str) -> Vec<String>,
    T: Fn(&str) -> Vec<String>,
    M: Fn(&Vec<PolicyPatternToken>, &Vec<String>) -> bool,
    E: Fn(&str) -> Option<String>,

    requires
        call_ensures(
            evaluate_policy_rules::<S, T, M, E>,
            (rules, cmd, logical_segments, split_tokens, pattern_matches, env_var),
            result,
        ),
        forall|reply: Vec<String>| #[trigger]
            call_ensures(logical_segments, (cmd,), reply) ==> reply.deep_view() == segments,
        forall|segment: &str, reply: Vec<String>| #[trigger]
            call_ensures(split_tokens, (segment,), reply) && segment@ == (if segments.len() == 0 {
                cmd@
            } else {
                segments[0]
            }) ==> reply.deep_view() == tokens,
        0 <= i < rules@.len(),
        forall|k: int, reply: Vec<String>, hit: bool|
            0 <= k <= i && reply.deep_view() == tokens && #[trigger] call_ensures(
                pattern_matches,
                (&rules@[k].pattern, &reply),
                hit,
            ) ==> hit == (k == i),
        rules@[i].when is None,
    ensures
        result.matched,
        result.decision == Some(
            if segments.len() >= 2 && rules@[i].decision == PolicyRuleDecision::Allow {
                PolicyRuleDecision::Prompt
            } else {
                rules@[i].decision
            },
        ),
        match rules@[i].justification {
            Some(text) => result.justification is Some && result.justification->0@ == text@,
            None => result.justification is None,
        },
{
}

/// Where the first matching rule has a `when` clause and its variable holds the
/// stated value, the decision of the clause takes the place of the rule's own,
/// whatever that is.
pub proof fn law_call_condition_met<S, T, M, E>(
    rules: &[PolicyRule],
    cmd: &str,
    logical_segments: S,
    split_tokens: T,
    pattern_matches: M,
    env_var: E,
    segments: Seq<Seq<char>>,
    tokens: Seq<Seq<char>>,
    i: int,
    name: String,
    value: String,
    override_decision: PolicyRuleDecision,
    result: PolicyRulesResult,
) where
    S: Fn(&str) -> Vec<String>,
    T: Fn(&str) -> Vec<String>,
    M: Fn(&Vec<PolicyPatternToken>, &Vec<String>) -> bool,
    E: Fn(&str) -> Option<String>,

    requires
        call_ensures(
            evaluate_policy_rules::<S, T, M, E>,
            (rules, cmd, logical_segments, split_tokens, pattern_matches, env_var),
            result,
        ),
        forall|reply: Vec<String>| #[trigger]
            call_ensures(logical_segments, (cmd,), reply) ==> reply.deep_view() == segments,
        forall|segment: &str, reply: Vec<String>| #[trigger]
            call_ensures(split_tokens, (segment,), reply) && segment@ == (if segments.len() == 0 {
                cmd@
            } else {
                segments[0]
            }) ==> reply.deep_view() == tokens,
        0 <= i < rules@.len(),
        forall|k: int, reply: Vec<String>, hit: bool|
            0 <= k <= i && reply.deep_view() == tokens && #[trigger] call_ensures(
                pattern_matches,
                (&rules@[k].pattern, &reply),
                hit,
            ) ==> hit == (k == i),
        rules@[i].when == (Some(WhenClause { env: name, value, then: override_decision })),
        forall|variable: &str, reply: Option<String>| #[trigger]
            call_ensures(env_var, (variable,), reply) && variable@ == name@ ==> reply is Some
                && reply->0@ == value@,
    ensures
        result.matched,
        result.decision == Some(
            if segments.len() >= 2 && override_decision == PolicyRuleDecision::Allow {
                PolicyRuleDecision::Prompt
            } else {
                override_decision
            },
        ),
        match rules@[i].justification {
            Some(text) => result.justification is Some && result.justification->0@ == text@,
            None => result.justification is None,
        },
{
}

/// Where the first matching rule has a `when` clause and its variable is missing,
/// is not Unicode or holds another value, the rule's own decision stands.
pub proof fn law_call_condition_unmet<S, T, M, E>(
    rules: &[PolicyRule],
    cmd: &str,
    logical_segments: S,
    split_tokens: T,
    pattern_matches: M,
    env_var: E,
    segments: Seq<Seq<char>>,
    tokens: Seq<Seq<char>>,
    i: int,
    name: String,
    value: String,
    override_decision: PolicyRuleDecision,
    result: PolicyRulesResult,
) where
    S: Fn(&str) -> Vec<String>,
    T: Fn(&str) -> Vec<String>,
    M: Fn(&Vec<PolicyPatternToken>, &Vec<String>) -> bool,
    E: Fn(&str) -> Option<String>,

    requires
        call_ensures(
            evaluate_policy_rules::<S, T, M, E>,
            (rules, cmd, logical_segments, split_tokens, pattern_matches, env_var),
            result,
        ),
        forall|reply: Vec<String>| #[trigger]
            call_ensures(logical_segments, (cmd,), reply) ==> reply.deep_view() == segments,
        forall|segment: &str, reply: Vec<String>| #[trigger]
            call_ensures(split_tokens, (segment,), reply) && segment@ == (if segments.len() == 0 {
                cmd@
            } else {
                segments[0]
            }) ==> reply.deep_view() == tokens,
        0 <= i < rules@.len(),
        forall|k: int, reply: Vec<String>, hit: bool|
            0 <= k <= i && reply.deep_view() == tokens && #[trigger] call_ensures(
                pattern_matches,
                (&rules@[k].pattern, &reply),
                hit,
            ) ==> hit == (k == i),
        rules@[i].when == (Some(WhenClause { env: name, value, then: override_decision })),
        forall|variable: &str, reply: Option<String>| #[trigger]
            call_ensures(env_var, (variable,), reply) && variable@ == name@ ==> reply is None
                || reply->0@ != value@,
    ensures
        result.matched,
        result.decision == Some(
            if segments.len() >= 2 && rules@[i].decision == PolicyRuleDecision::Allow {
                PolicyRuleDecision::Prompt
            } else {
                rules@[i].decision
            },
        ),
        match rules@[i].justification {
            Some(text) => result.justification is Some && result.justification->0@ == text@,
            None => result.justification is None,
        },
{
}

/// Where no rule matches the tokens of the command's first segment, or of the whole
/// command where it has none, nothing is decided.
pub proof fn law_call_no_match<S, T, M, E>(
    rules: &[PolicyRule],
    cmd: &str,
    logical_segments: S,
    split_tokens: T,
    pattern_matches: M,
    env_var: E,
    segments: Seq<Seq<char>>,
    tokens: Seq<Seq<char>>,
    result: PolicyRulesResult,
) where
    S: Fn(&str) -> Vec<String>,
    T: Fn(&str) -> Vec<String>,
    M: Fn(&Vec<PolicyPatternToken>, &Vec<String>) -> bool,
    E: Fn(&str) -> Option<String>,

    requires
        call_ensures(
            evaluate_policy_rules::<S, T, M, E>,
            (rules, cmd, logical_segments, split_tokens, pattern_matches, env_var),
            result,
        ),
        forall|reply: Vec<String>| #[trigger]
            call_ensures(logical_segments, (cmd,), reply) ==> reply.deep_view() == segments,
        forall|segment: &str, reply: Vec<String>| #[trigger]
            call_ensures(split_tokens, (segment,), reply) && segment@ == (if segments.len() == 0 {
                cmd@
            } else {
                segments[0]
            }) ==> reply.deep_view() == tokens,
        forall|k: int, reply: Vec<String>, hit: bool|
            0 <= k < rules@.len() && reply.deep_view() == tokens && #[trigger] call_ensures(
                pattern_matches,
                (&rules@[k].pattern, &reply),
                hit,
            ) ==> !hit,
    ensures
        !result.matched,
        result.decision is None,
        result.justification is None,
{
}

/// A command that is always cut into two or more segments is never silently
/// approved.
pub proof fn law_compound_call_never_allows<S, T, M, E>(
    rules: &[PolicyRule],
    cmd: &str,
    logical_segments: S,
    split_tokens: T,
    pattern_matches: M,
    env_var: E,
    result: PolicyRulesResult,
) where
    S: Fn(&str) -> Vec<String>,
    T: Fn(&str) -> Vec<String>,
    M: Fn(&Vec<PolicyPatternToken>, &Vec<String>) -> bool,
    E: Fn(&str) -> Option<String>,

    requires
        call_ensures(
            evaluate_policy_rules::<S, T, M, E>,
            (rules, cmd, logical_segments, split_tokens, pattern_matches, env_var),
            result,
        ),
        forall|segments: Vec<String>| #[trigger]
            call_ensures(logical_segments, (cmd,), segments) ==> segments@.len() >= 2,
    ensures
        result.decision != Some(PolicyRuleDecision::Allow),
{
}

/// For a command that is always cut into at most one segment, a decision is one
/// that a matching rule states, in its own name or in its `when` clause. An approval
/// is not weakened.
pub proof fn law_simple_call_invents_no_decision<S, T, M, E>(
    rules: &[PolicyRule],
    cmd: &str,
    logical_segments: S,
    split_tokens: T,
    pattern_matches: M,
    env_var: E,
    result: PolicyRulesResult,
) where
    S: Fn(&str) -> Vec<String>,
    T: Fn(&str) -> Vec<String>,
    M: Fn(&Vec<PolicyPatternToken>, &Vec<String>) -> bool,
    E: Fn(&str) -> Option<String>,

    requires
        call_ensures(
            evaluate_policy_rules::<S, T, M, E>,
            (rules, cmd, logical_segments, split_tokens, pattern_matches, env_var),
            result,
        ),
        forall|segments: Vec<String>| #[trigger]
            call_ensures(logical_segments, (cmd,), segments) ==> segments@.len() <= 1,
        result.matched,
    ensures
        exists|i: int, tokens: Vec<String>|
            {
                &&& 0 <= i < rules@.len()
                &&& #[trigger] call_ensures(pattern_matches, (&rules@[i].pattern, &tokens), true)
                &&& {
                    ||| result.decision == Some(rules@[i].decision)
                    ||| rules@[i].when matches Some(WhenClause { then: override_decision, .. })
                        && result.decision == Some(override_decision)
                }
            },
{
}

/// A rule whose pattern matches whatever the tokens are is enough for a match,
/// wherever it stands in the list.
pub proof fn law_sure_hit_matches<S, T, M, E>(
    rules: &[PolicyRule],
    cmd: &str,
    logical_segments: S,
    split_tokens: T,
    pattern_matches: M,
    env_var: E,
    i: int,
    result: PolicyRulesResult,
) where
    S: Fn(&str) -> Vec<String>,
    T: Fn(&str) -> Vec<String>,
    M: Fn(&Vec<PolicyPatternToken>, &Vec<String>) -> bool,
    E: Fn(&str) -> Option<String>,

    requires
        call_ensures(
            evaluate_policy_rules::<S, T, M, E>,
            (rules, cmd, logical_segments, split_tokens, pattern_matches, env_var),
            result,
        ),
        0 <= i < rules@.len(),
        forall|tokens: Vec<String>, hit: bool| #[trigger]
            call_ensures(pattern_matches, (&rules@[i].pattern, &tokens), hit) ==> hit,
    ensures
        result.matched,
        result.decision is Some,
{
}

/// Rules whose patterns match no tokens that the first segment can have lead to no
/// match.
pub proof fn law_no_hit_on_first_segment_is_no_match<S, T, M, E>(
    rules: &[PolicyRule],
    cmd: &str,
    logical_segments: S,
    split_tokens: T,
    pattern_matches: M,
    env_var: E,
    result: PolicyRulesResult,
) where
    S: Fn(&str) -> Vec<String>,
    T: Fn(&str) -> Vec<String>,
    M: Fn(&Vec<PolicyPatternToken>, &Vec<String>) -> bool,
    E: Fn(&str) -> Option<String>,

    requires
        call_ensures(
            evaluate_policy_rules::<S, T, M, E>,
            (rules, cmd, logical_segments, split_tokens, pattern_matches, env_var),
            result,
        ),
        forall|k: int, segments: Vec<String>, segment: &str, tokens: Vec<String>, hit: bool|
            #![trigger call_ensures(logical_segments, (cmd,), segments), call_ensures(split_tokens, (segment,), tokens), call_ensures(pattern_matches, (&rules@[k].pattern, &tokens), hit)]
            0 <= k < rules@.len() && call_ensures(logical_segments, (cmd,), segments) && segment@
                == (if segments@.len() == 0 {
                cmd@
            } else {
                segments@[0]@
            }) && call_ensures(split_tokens, (segment,), tokens) && call_ensures(
                pattern_matches,
                (&rules@[k].pattern, &tokens),
                hit,
            ) ==> !hit,
    ensures
        !result.matched,
        result.decision is None,
        result.justification is None,
{
}

/// A match goes back to one way of cutting the command and one way of splitting its
/// first segment, under which the rule whose justification is reported matched and
/// none before it did.
pub proof fn law_match_is_traceable<S, T, M, E>(
    rules: &[PolicyRule],
    cmd: &str,
    logical_segments: S,
    split_tokens: T,
    pattern_matches: M,
    env_var: E,
    result: PolicyRulesResult,
) where
    S: Fn(&str) -> Vec<String>,
    T: Fn(&str) -> Vec<String>,
    M: Fn(&Vec<PolicyPatternToken>, &Vec<String>) -> bool,
    E: Fn(&str) -> Option<String>,

    requires
        call_ensures(
            evaluate_policy_rules::<S, T, M, E>,
            (rules, cmd, logical_segments, split_tokens, pattern_matches, env_var),
            result,
        ),
        result.matched,
    ensures
        exists|segments: Vec<String>, segment: &str, tokens: Vec<String>, i: int|
            #![trigger call_ensures(logical_segments, (cmd,), segments), call_ensures(split_tokens, (segment,), tokens), call_ensures(pattern_matches, (&rules@[i].pattern, &tokens), true)]
            {
                &&& call_ensures(logical_segments, (cmd,), segments)
                &&& segments@.len() == 0 ==> segment@ == cmd@
                &&& segments@.len() > 0 ==> segment@ == segments@[0]@
                &&& call_ensures(split_tokens, (segment,), tokens)
                &&& 0 <= i < rules@.len()
                &&& call_ensures(pattern_matches, (&rules@[i].pattern, &tokens), true)
                &&& forall|k: int|
                    #![trigger rules@[k]]
                    0 <= k < i ==> call_ensures(
                        pattern_matches,
                        (&rules@[k].pattern, &tokens),
                        false,
                    )
                &&& match rules@[i].justification {
                    Some(text) => result.justification is Some && result.justification->0@
                        == text@,
                    None => result.justification is None,
                }
            },
{
}

/// An approval goes back to one way of cutting the command into at most one segment
/// and to the first rule that matched there: it allows in its own name, or its `when`
/// clause does and the variable was read as the stated value.
pub proof fn law_approval_is_traceable<S, T, M, E>(
    rules: &[PolicyRule],
    cmd: &str,
    logical_segments: S,
    split_tokens: T,
    pattern_matches: M,
    env_var: E,
    result: PolicyRulesResult,
) where
    S: Fn(&str) -> Vec<String>,
    T: Fn(&str) -> Vec<String>,
    M: Fn(&Vec<PolicyPatternToken>, &Vec<String>) -> bool,
    E: Fn(&str) -> Option<String>,

    requires
        call_ensures(
            evaluate_policy_rules::<S, T, M, E>,
            (rules, cmd, logical_segments, split_tokens, pattern_matches, env_var),
            result,
        ),
        result.decision == Some(PolicyRuleDecision::Allow),
    ensures
        exists|segments: Vec<String>, segment: &str, tokens: Vec<String>, i: int|
            #![trigger call_ensures(logical_segments, (cmd,), segments), call_ensures(split_tokens, (segment,), tokens), call_ensures(pattern_matches, (&rules@[i].pattern, &tokens), true)]
            {
                &&& call_ensures(logical_segments, (cmd,), segments)
                &&& segments@.len() == 0 ==> segment@ == cmd@
                &&& segments@.len() > 0 ==> segment@ == segments@[0]@
                &&& call_ensures(split_tokens, (segment,), tokens)
                &&& 0 <= i < rules@.len()
                &&& call_ensures(pattern_matches, (&rules@[i].pattern, &tokens), true)
                &&& forall|k: int|
                    #![trigger rules@[k]]
                    0 <= k < i ==> call_ensures(
                        pattern_matches,
                        (&rules@[k].pattern, &tokens),
                        false,
                    )
                &&& segments@.len() <= 1
                &&& {
                    ||| rules@[i].decision == PolicyRuleDecision::Allow
                    ||| rules@[i].when matches Some(WhenClause {
                        env,
                        value,
                        then: override_decision,
                    }) && override_decision == PolicyRuleDecision::Allow && exists|
                        name: &str,
                        reply: Option<String>,
                    |
                        name@ == env@ && #[trigger] call_ensures(env_var, (name,), reply)
                            && reply is Some && reply->0@ == value@
                }
            },
{
}

/// Functions that accept every argument can be handed over for every rule list and
/// every command.
pub proof fn law_total_functions_are_enough<S, T, M, E>(
    rules: &[PolicyRule],
    cmd: &str,
    logical_segments: S,
    split_tokens: T,
    pattern_matches: M,
    env_var: E,
) where
    S: Fn(&str) -> Vec<String>,
    T: Fn(&str) -> Vec<String>,
    M: Fn(&Vec<PolicyPatternToken>, &Vec<String>) -> bool,
    E: Fn(&str) -> Option<String>,

    requires
        forall|line: &str| call_requires(logical_segments, (line,)),
        forall|segment: &str| call_requires(split_tokens, (segment,)),
        forall|pattern: &Vec<PolicyPatternToken>, tokens: &Vec<String>|
            call_requires(pattern_matches, (pattern, tokens)),
        forall|name: &str| call_requires(env_var, (name,)),
    ensures
        call_requires(
            evaluate_policy_rules::<S, T, M, E>,
            (rules, cmd, logical_segments, split_tokens, pattern_matches, env_var),
        ),
{
}

/// An evaluation asks for the segments of the command, for the tokens of the first
/// segment or of the whole command where there is none, for the patterns in order
/// against those tokens and no further than the first that matches, and for the
/// variable of the `when` clause of that rule: functions that accept these questions
/// are enough.
pub proof fn law_no_other_question_is_asked<S, T, M, E>(
    rules: &[PolicyRule],
    cmd: &str,
    logical_segments: S,
    split_tokens: T,
    pattern_matches: M,
    env_var: E,
) where
    S: Fn(&str) -> Vec<String>,
    T: Fn(&str) -> Vec<String>,
    M: Fn(&Vec<PolicyPatternToken>, &Vec<String>) -> bool,
    E: Fn(&str) -> Option<String>,

    requires
        call_requires(logical_segments, (cmd,)),
        forall|segments: Vec<String>, segment: &str|
            #![trigger call_ensures(logical_segments, (cmd,), segments), segment@]
            call_ensures(logical_segments, (cmd,), segments) && segment@ == (if segments@.len()
                == 0 {
                cmd@
            } else {
                segments@[0]@
            }) ==> call_requires(split_tokens, (segment,)),
        forall|segments: Vec<String>, segment: &str, tokens: Vec<String>, i: int|
            #![trigger call_ensures(logical_segments, (cmd,), segments), call_ensures(split_tokens, (segment,), tokens), call_requires(pattern_matches, (&rules@[i].pattern, &tokens))]
            call_ensures(logical_segments, (cmd,), segments) && segment@ == (if segments@.len()
                == 0 {
                cmd@
            } else {
                segments@[0]@
            }) && call_ensures(split_tokens, (segment,), tokens) && 0 <= i < rules@.len() && (
            forall|k: int|
                #![trigger rules@[k]]
                0 <= k < i ==> call_ensures(pattern_matches, (&rules@[k].pattern, &tokens), false))
                ==> call_requires(pattern_matches, (&rules@[i].pattern, &tokens)),
        forall|segments: Vec<String>, segment: &str, tokens: Vec<String>, i: int, name: &str|
            #![trigger call_ensures(logical_segments, (cmd,), segments), call_ensures(split_tokens, (segment,), tokens), call_ensures(pattern_matches, (&rules@[i].pattern, &tokens), true), call_requires(env_var, (name,))]
            call_ensures(logical_segments, (cmd,), segments) && segment@ == (if segments@.len()
                == 0 {
                cmd@
            } else {
                segments@[0]@
            }) && call_ensures(split_tokens, (segment,), tokens) && 0 <= i < rules@.len() && (
            forall|k: int|
                #![trigger rules@[k]]
                0 <= k < i ==> call_ensures(pattern_matches, (&rules@[k].pattern, &tokens), false))
                && call_ensures(pattern_matches, (&rules@[i].pattern, &tokens), true)
                && rules@[i].when is Some && name@ == rules@[i].when->0.env@ ==> call_requires(
                env_var,
                (name,),
            ),
    ensures
        call_requires(
            evaluate_policy_rules::<S, T, M, E>,
            (rules, cmd, logical_segments, split_tokens, pattern_matches, env_var),
        ),
{
    assert(forall|segments: Vec<String>|
        #![trigger segments.deep_view()]
        segments.deep_view().len() == segments@.len() && (segments@.len() > 0
            ==> segments.deep_view()[0] == segments@[0]@));
    assert forall|tokens: Vec<String>, i: int|
        evaluate::possible_tokens(logical_segments, split_tokens, cmd, tokens) && 0 <= i
            < rules@.len() && #[trigger] evaluate::misses_before(
            pattern_matches,
            rules@,
            tokens,
            i,
        ) implies call_requires(pattern_matches, (&rules@[i].pattern, &tokens)) by {
        let segments = choose|segments: Vec<String>| #[trigger]
            evaluate::tokenized_as(logical_segments, split_tokens, cmd, segments, tokens);
        let segment = choose|segment: &str|
            segment@ == evaluate::leading_segment_of(cmd@, segments.deep_view())
                && #[trigger] call_ensures(split_tokens, (segment,), tokens);
    }
    assert forall|tokens: Vec<String>, i: int, name: &str|
        #![trigger evaluate::misses_before(pattern_matches, rules@, tokens, i), name@]
        evaluate::possible_tokens(logical_segments, split_tokens, cmd, tokens) && 0 <= i
            < rules@.len() && evaluate::misses_before(pattern_matches, rules@, tokens, i)
            && call_ensures(pattern_matches, (&rules@[i].pattern, &tokens), true)
            && rules@[i].when is Some && name@
            == rules@[i].when->0.env@ implies call_requires(env_var, (name,)) by {
        let segments = choose|segments: Vec<String>| #[trigger]
            evaluate::tokenized_as(logical_segments, split_tokens, cmd, segments, tokens);
        let segment = choose|segment: &str|
            segment@ == evaluate::leading_segment_of(cmd@, segments.deep_view())
                && #[trigger] call_ensures(split_tokens, (segment,), tokens);
    }
    assert(evaluate::can_be_asked(
        logical_segments,
        split_tokens,
        pattern_matches,
        env_var,
        rules@,
        cmd,
    ));
}

/// The text that rules are matched against is the first segment, however many
/// follow it, and the whole command where there is none.
pub proof fn law_leading_segment_is_the_first(
    cmd: &str,
    segments: &Vec<String>,
    segment: &str,
)
    requires
        call_ensures(leading_segment, (cmd, segments), segment),
    ensures
        segments@.len() == 0 ==> segment@ == cmd@,
        segments@.len() > 0 ==> segment@ == segments@[0]@,
{
}

/// Appending further segments to a list that is not empty leaves the text that
/// rules are matched against as it is, also where the command is another one.
pub proof fn law_appended_segments_keep_leading_segment(
    cmd1: &str,
    cmd2: &str,
    segments: &Vec<String>,
    longer: &Vec<String>,
    segment1: &str,
    segment2: &str,
)
    requires
        segments@.len() > 0,
        segments@.is_prefix_of(longer@),
        call_ensures(leading_segment, (cmd1, segments), segment1),
        call_ensures(leading_segment, (cmd2, longer), segment2),
    ensures
        segment1@ == segment2@,
{
    assert(longer@[0] == segments@[0]);
}

/// Where the matcher says yes to `rules[i]` and no to each rule before it, that
/// rule is found; where it says no to all of them, none is.
pub proof fn law_least_hit_is_found<M>(
    rules: &[PolicyRule],
    tokens: &Vec<String>,
    pattern_matches: M,
    i: int,
    found: Option<usize>,
) where M: Fn(&Vec<PolicyPatternToken>, &Vec<String>) -> bool
    requires
        call_ensures(first_matching_rule::<M>, (rules, tokens, pattern_matches), found),
        0 <= i <= rules@.len(),
        forall|k: int, hit: bool|
            0 <= k <= i && k < rules@.len() && #[trigger] call_ensures(
                pattern_matches,
                (&rules@[k].pattern, tokens),
                hit,
            ) ==> hit == (k == i),
    ensures
        i < rules@.len() ==> found is Some && found->0 == i,
        i == rules@.len() ==> found is None,
{
    if i < rules@.len() {
        let _ = rules@[i];
    }
}

/// A rule without a `when` clause decides by itself: its decision for a simple
/// command, and for a compound one the same but for a prompt in place of an
/// approval, whatever the environment.
pub proof fn law_decision_without_condition(
    rule: &PolicyRule,
    is_compound: bool,
    env_value: &Option<String>,
    decision: PolicyRuleDecision,
)
    requires
        call_ensures(effective_decision, (rule, is_compound, env_value), decision),
        rule.when is None,
    ensures
        !is_compound ==> decision == rule.decision,
        is_compound && rule.decision == PolicyRuleDecision::Allow ==> decision
            == PolicyRuleDecision::Prompt,
        is_compound && rule.decision != PolicyRuleDecision::Allow ==> decision == rule.decision,
{
}

/// A rule with a `when` clause decides as one without, whose decision is that of
/// the clause where the variable holds the stated value, and else its own.
pub proof fn law_condition_picks_the_decision(
    rule: &PolicyRule,
    name: String,
    value: String,
    override_decision: PolicyRuleDecision,
    plain: &PolicyRule,
    is_compound: bool,
    env_value: &Option<String>,
    other_value: &Option<String>,
    decision: PolicyRuleDecision,
    plain_decision: PolicyRuleDecision,
)
    requires
        rule.when == (Some(WhenClause { env: name, value, then: override_decision })),
        plain.when is None,
        env_value is Some && env_value->0@ == value@ ==> plain.decision == override_decision,
        env_value is None || env_value->0@ != value@ ==> plain.decision == rule.decision,
        call_ensures(effective_decision, (rule, is_compound, env_value), decision),
        call_ensures(effective_decision, (plain, is_compound, other_value), plain_decision),
    ensures
        decision == plain_decision,
{
}

/// For one rule and one environment, that a command is compound turns an approval
/// into a prompt and changes no other decision.
pub proof fn law_compound_decision_weakens_only_allow(
    rule: &PolicyRule,
    env_value: &Option<String>,
    simple: PolicyRuleDecision,
    compound: PolicyRuleDecision,
)
    requires
        call_ensures(effective_decision, (rule, false, env_value), simple),
        call_ensures(effective_decision, (rule, true, env_value), compound),
    ensures
        compound != PolicyRuleDecision::Allow,
        simple == PolicyRuleDecision::Allow ==> compound == PolicyRuleDecision::Prompt,
        simple != PolicyRuleDecision::Allow ==> compound == simple,
{
}

/// A matched rule is reported as such, with the justification that it carries:
/// the same text, and none exactly where the rule has none, whatever its decision,
/// its `when` clause, the environment and the shape of the command.
pub proof fn law_justification_is_passed_on(
    rule: &PolicyRule,
    is_compound: bool,
    env_value: &Option<String>,
    result: PolicyRulesResult,
)
    requires
        call_ensures(matched_result, (rule, is_compound, env_value), result),
    ensures
        result.matched,
        result.justification is Some <==> rule.justification is Some,
        rule.justification is Some ==> result.justification->0@ == rule.justification->0@,
{
}

/// A matched rule is reported with its effective decision.
pub proof fn law_matched_result_has_effective_decision(
    rule: &PolicyRule,
    is_compound: bool,
    env_value: &Option<String>,
    result: PolicyRulesResult,
    decision: PolicyRuleDecision,
)
    requires
        call_ensures(matched_result, (rule, is_compound, env_value), result),
        call_ensures(effective_decision, (rule, is_compound, env_value), decision),
    ensures
        result.decision == Some(decision),
{
}

/// The default result says that nothing matched and decides nothing.
pub proof fn law_default_decides_nothing(result: PolicyRulesResult)
    requires
        call_ensures(<PolicyRulesResult as Default>::default, (), result),
    ensures
        !result.matched,
        result.decision is None,
        result.justification is None,
{
}

} // verus!
