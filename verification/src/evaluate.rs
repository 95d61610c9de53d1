//! The walk over a rule list for one command.
//!
//! Four things are left to the caller, who hands them over as functions: cutting
//! a command line into logical segments, splitting a segment into tokens,
//! matching a pattern against tokens, and reading an environment variable. What
//! they reply is taken as it comes; nothing is assumed of it.
use crate::decision::matched_result;
use crate::{decision, laws, types};
use crate::types::{
    PolicyPatternToken, PolicyRule, PolicyRuleDecision, PolicyRulesResult, RulesOutcome,
    WhenClause,
};
use vstd::prelude::*;

verus! {

/// The part of `cmd` that rules are matched against: its first logical segment,
/// or all of it where it has none.
pub open spec fn leading_segment_of(cmd: Seq<char>, segments: Seq<Seq<char>>) -> Seq<char> {
    if segments.len() > 0 {
        segments[0]
    } else {
        cmd
    }
}

/// Picks the part of `cmd` that rules are matched against.
pub fn leading_segment<'a>(cmd: &'a str, segments: &'a Vec<String>) -> (segment: &'a str)
    ensures
        segment@ == leading_segment_of(cmd@, segments.deep_view()),
        segments@.len() == 0 ==> segment@ == cmd@,
        segments@.len() > 0 ==> segment@ == segments@[0]@,
{
    if segments.len() > 0 {
        segments[0].as_str()
    } else {
        cmd
    }
}

/// Whether a command with these logical segments is compound.
pub open spec fn is_compound_command(segments: Seq<Seq<char>>) -> bool {
    segments.len() > 1
}

/// None of the first `n` entries of `hits` is `true`.
pub open spec fn none_before(hits: Seq<bool>, n: int) -> bool {
    forall|k: int| 0 <= k < n ==> !(#[trigger] hits[k])
}

/// Position `i` holds the first `true` of `hits`.
pub open spec fn first_hit_at(hits: Seq<bool>, i: int) -> bool {
    &&& 0 <= i < hits.len()
    &&& hits[i]
    &&& none_before(hits, i)
}

/// The outcome of `rules` where `hits[i]` says whether the pattern of `rules[i]`
/// matches: that of the first rule that matches, and none where no rule does.
/// `env_value` is what the variable of that rule's `when` clause reads as.
pub open spec fn rules_outcome(
    rules: Seq<PolicyRule>,
    hits: Seq<bool>,
    is_compound: bool,
    env_value: Option<Seq<char>>,
) -> RulesOutcome
    decreases rules.len(),
{
    if rules.len() == 0 {
        types::no_match()
    } else if hits[0] {
        decision::match_of(rules[0], is_compound, env_value)
    } else {
        rules_outcome(rules.drop_first(), hits.drop_first(), is_compound, env_value)
    }
}

/// The caller's functions can reply `segments` for `cmd`, and then `tokens` for
/// its leading segment.
pub open spec fn tokenized_as<S, T>(
    logical_segments: S,
    split_tokens: T,
    cmd: &str,
    segments: Vec<String>,
    tokens: Vec<String>,
) -> bool where S: Fn(&str) -> Vec<String>, T: Fn(&str) -> Vec<String> {
    &&& call_ensures(logical_segments, (cmd,), segments)
    &&& exists|segment: &str|
        segment@ == leading_segment_of(cmd@, segments.deep_view()) && #[trigger] call_ensures(
            split_tokens,
            (segment,),
            tokens,
        )
}

/// `tokens` is what rules can come to be matched against for `cmd`.
pub open spec fn possible_tokens<S, T>(
    logical_segments: S,
    split_tokens: T,
    cmd: &str,
    tokens: Vec<String>,
) -> bool where S: Fn(&str) -> Vec<String>, T: Fn(&str) -> Vec<String> {
    exists|segments: Vec<String>| #[trigger]
        tokenized_as(logical_segments, split_tokens, cmd, segments, tokens)
}

/// `pattern_matches` can say no to each of the first `n` rules.
pub open spec fn misses_before<M>(
    pattern_matches: M,
    rules: Seq<PolicyRule>,
    tokens: Vec<String>,
    n: int,
) -> bool where M: Fn(&Vec<PolicyPatternToken>, &Vec<String>) -> bool {
    forall|k: int|
        #![trigger rules[k]]
        0 <= k < n ==> call_ensures(pattern_matches, (&rules[k].pattern, &tokens), false)
}

/// The caller's functions accept what an evaluation of `rules` against `cmd` asks
/// of them, which is no more than this:
///
/// - the logical segments of the command;
/// - the tokens of its leading segment;
/// - whether a rule's pattern matches those tokens, where none of the rules before
///   it did;
/// - the variable of a rule's `when` clause, where that rule is the first that
///   matched.
pub open spec fn can_be_asked<S, T, M, E>(
    logical_segments: S,
    split_tokens: T,
    pattern_matches: M,
    env_var: E,
    rules: Seq<PolicyRule>,
    cmd: &str,
) -> bool where
    S: Fn(&str) -> Vec<String>,
    T: Fn(&str) -> Vec<String>,
    M: Fn(&Vec<PolicyPatternToken>, &Vec<String>) -> bool,
    E: Fn(&str) -> Option<String>,
 {
    &&& call_requires(logical_segments, (cmd,))
    &&& forall|segments: Vec<String>, segment: &str|
        #![trigger call_ensures(logical_segments, (cmd,), segments), segment@]
        call_ensures(logical_segments, (cmd,), segments) && segment@ == leading_segment_of(
            cmd@,
            segments.deep_view(),
        ) ==> call_requires(split_tokens, (segment,))
    &&& forall|tokens: Vec<String>, i: int|
        possible_tokens(logical_segments, split_tokens, cmd, tokens) && 0 <= i < rules.len()
            && #[trigger] misses_before(pattern_matches, rules, tokens, i) ==> call_requires(
            pattern_matches,
            (&rules[i].pattern, &tokens),
        )
    &&& forall|tokens: Vec<String>, i: int, name: &str|
        #![trigger misses_before(pattern_matches, rules, tokens, i), name@]
        possible_tokens(logical_segments, split_tokens, cmd, tokens) && 0 <= i < rules.len()
            && misses_before(pattern_matches, rules, tokens, i) && call_ensures(
            pattern_matches,
            (&rules[i].pattern, &tokens),
            true,
        ) && rules[i].when is Some && name@ == rules[i].when->0.env@ ==> call_requires(
            env_var,
            (name,),
        )
}

/// What the caller's functions replied during one evaluation of `rules` against
/// `cmd`:
///
/// - `segments` for the command;
/// - `tokens` for its leading segment, and for nothing else of the command;
/// - `hits[i]` for the pattern of `rules[i]` against those tokens, rule by rule
///   until one matches; what `hits` holds behind that one is no reply;
/// - `env_value` for the variable of the `when` clause of the rule that matched,
///   where it has such a clause.
pub open spec fn replies_of<S, T, M, E>(
    logical_segments: S,
    split_tokens: T,
    pattern_matches: M,
    env_var: E,
    rules: Seq<PolicyRule>,
    cmd: &str,
    segments: Vec<String>,
    tokens: Vec<String>,
    hits: Seq<bool>,
    env_value: Option<String>,
) -> bool where
    S: Fn(&str) -> Vec<String>,
    T: Fn(&str) -> Vec<String>,
    M: Fn(&Vec<PolicyPatternToken>, &Vec<String>) -> bool,
    E: Fn(&str) -> Option<String>,
 {
    &&& tokenized_as(logical_segments, split_tokens, cmd, segments, tokens)
    &&& hits.len() == rules.len()
    &&& forall|i: int|
        #![trigger hits[i]]
        0 <= i < rules.len() && none_before(hits, i) ==> call_ensures(
            pattern_matches,
            (&rules[i].pattern, &tokens),
            hits[i],
        )
    &&& forall|i: int|
        #![trigger hits[i]]
        first_hit_at(hits, i) ==> (rules[i].when matches Some(when) ==> exists|name: &str|
            name@ == when.env@ && #[trigger] call_ensures(env_var, (name,), env_value))
}

/// The caller's functions are deterministic, and what they compute is
/// `segments_of`, `tokens_of`, `matches` and `env`.
pub open spec fn computed_by<S, T, M, E>(
    logical_segments: S,
    split_tokens: T,
    pattern_matches: M,
    env_var: E,
    segments_of: spec_fn(Seq<char>) -> Seq<Seq<char>>,
    tokens_of: spec_fn(Seq<char>) -> Seq<Seq<char>>,
    matches: spec_fn(Seq<PolicyPatternToken>, Seq<Seq<char>>) -> bool,
    env: spec_fn(Seq<char>) -> Option<Seq<char>>,
) -> bool where
    S: Fn(&str) -> Vec<String>,
    T: Fn(&str) -> Vec<String>,
    M: Fn(&Vec<PolicyPatternToken>, &Vec<String>) -> bool,
    E: Fn(&str) -> Option<String>,
 {
    &&& forall|cmd: &str, segments: Vec<String>| #[trigger]
        call_ensures(logical_segments, (cmd,), segments) ==> segments.deep_view() == segments_of(
            cmd@,
        )
    &&& forall|segment: &str, tokens: Vec<String>| #[trigger]
        call_ensures(split_tokens, (segment,), tokens) ==> tokens.deep_view() == tokens_of(segment@)
    &&& forall|pattern: &Vec<PolicyPatternToken>, tokens: &Vec<String>, hit: bool| #[trigger]
        call_ensures(pattern_matches, (pattern, tokens), hit) ==> hit == matches(
            pattern@,
            tokens.deep_view(),
        )
    &&& forall|name: &str, value: Option<String>| #[trigger]
        call_ensures(env_var, (name,), value) ==> value.deep_view() == env(name@)
}

/// What the variable of the rule's `when` clause reads as in `env`.
pub open spec fn when_value(
    rule: PolicyRule,
    env: spec_fn(Seq<char>) -> Option<Seq<char>>,
) -> Option<Seq<char>> {
    match rule.when {
        Some(when) => env(when.env@),
        None => None,
    }
}

/// The outcome of `rules` for a leading segment with these tokens: that of the
/// first rule whose pattern matches them.
pub open spec fn outcome_for_tokens(
    rules: Seq<PolicyRule>,
    tokens: Seq<Seq<char>>,
    is_compound: bool,
    matches: spec_fn(Seq<PolicyPatternToken>, Seq<Seq<char>>) -> bool,
    env: spec_fn(Seq<char>) -> Option<Seq<char>>,
) -> RulesOutcome
    decreases rules.len(),
{
    if rules.len() == 0 {
        types::no_match()
    } else if matches(rules[0].pattern@, tokens) {
        decision::match_of(rules[0], is_compound, when_value(rules[0], env))
    } else {
        outcome_for_tokens(rules.drop_first(), tokens, is_compound, matches, env)
    }
}

/// The outcome of `rules` for the command line `cmd`.
pub open spec fn outcome_for_command(
    rules: Seq<PolicyRule>,
    cmd: Seq<char>,
    segments_of: spec_fn(Seq<char>) -> Seq<Seq<char>>,
    tokens_of: spec_fn(Seq<char>) -> Seq<Seq<char>>,
    matches: spec_fn(Seq<PolicyPatternToken>, Seq<Seq<char>>) -> bool,
    env: spec_fn(Seq<char>) -> Option<Seq<char>>,
) -> RulesOutcome {
    let segments = segments_of(cmd);
    let tokens = tokens_of(leading_segment_of(cmd, segments));
    outcome_for_tokens(rules, tokens, is_compound_command(segments), matches, env)
}

/// Finds the first rule whose pattern `pattern_matches` says matches `tokens`,
/// asking rule by rule and of no rule behind one that matched.
pub fn first_matching_rule<M>(
    rules: &[PolicyRule],
    tokens: &Vec<String>,
    pattern_matches: M,
) -> (found: Option<usize>) where M: Fn(&Vec<PolicyPatternToken>, &Vec<String>) -> bool
    requires
        forall|i: int|
            0 <= i < rules@.len() && #[trigger] misses_before(pattern_matches, rules@, *tokens, i)
                ==> call_requires(pattern_matches, (&rules@[i].pattern, tokens)),
    ensures
        match found {
            Some(i) => {
                &&& i < rules@.len()
                &&& misses_before(pattern_matches, rules@, *tokens, i as int)
                &&& call_ensures(pattern_matches, (&rules@[i as int].pattern, tokens), true)
            },
            None => misses_before(pattern_matches, rules@, *tokens, rules@.len() as int),
        },
        found is Some ==> call_ensures(
            pattern_matches,
            (&rules@[found->0 as int].pattern, tokens),
            true,
        ),
        forall|k: int|
            #![trigger rules@[k]]
            0 <= k < (if found is Some {
                found->0 as int
            } else {
                rules@.len() as int
            }) ==> call_ensures(pattern_matches, (&rules@[k].pattern, tokens), false),
{
    let mut i: usize = 0;
    while i < rules.len()
        invariant
            i <= rules.len(),
            forall|i: int|
                0 <= i < rules@.len() && #[trigger] misses_before(
                    pattern_matches,
                    rules@,
                    *tokens,
                    i,
                ) ==> call_requires(pattern_matches, (&rules@[i].pattern, tokens)),
            misses_before(pattern_matches, rules@, *tokens, i as int),
        decreases rules.len() - i,
    {
        if pattern_matches(&rules[i].pattern, tokens) {
            return Some(i);
        }
        i += 1;
    }
    None
}

/// Evaluates `rules` against the command line `cmd`.
///
/// The first rule whose pattern matches the tokens of the command's first logical
/// segment decides. Where the command is compound (more than one segment) and
/// that rule would allow it, the result is a prompt, so that the user reviews the
/// whole chain. Where no rule matches, the result is the default one.
///
/// `env_var` gives the value of an environment variable, and `None` for one that
/// is missing or not Unicode; it is asked only for the `when` clause of the rule
/// that matched.
///
/// The first clause of the contract holds whatever the functions reply, also
/// where they reply differently when asked again. The second says what comes out
/// where they are deterministic. The third says that a compound command is never
/// silently approved. The fourth traces the result back to single replies.
pub fn evaluate_policy_rules<S, T, M, E>(
    rules: &[PolicyRule],
    cmd: &str,
    logical_segments: S,
    split_tokens: T,
    pattern_matches: M,
    env_var: E,
) -> (result: PolicyRulesResult) where
    S: Fn(&str) -> Vec<String>,
    T: Fn(&str) -> Vec<String>,
    M: Fn(&Vec<PolicyPatternToken>, &Vec<String>) -> bool,
    E: Fn(&str) -> Option<String>,

    requires
        can_be_asked(logical_segments, split_tokens, pattern_matches, env_var, rules@, cmd),
    ensures
        exists|segments: Vec<String>, tokens: Vec<String>, hits: Seq<bool>, env_value: Option<String>|
            #[trigger] replies_of(
                logical_segments,
                split_tokens,
                pattern_matches,
                env_var,
                rules@,
                cmd,
                segments,
                tokens,
                hits,
                env_value,
            ) && result@ == rules_outcome(
                rules@,
                hits,
                is_compound_command(segments.deep_view()),
                env_value.deep_view(),
            ),
        forall|
            segments_of: spec_fn(Seq<char>) -> Seq<Seq<char>>,
            tokens_of: spec_fn(Seq<char>) -> Seq<Seq<char>>,
            matches: spec_fn(Seq<PolicyPatternToken>, Seq<Seq<char>>) -> bool,
            env: spec_fn(Seq<char>) -> Option<Seq<char>>,
        | #[trigger]
            computed_by(
                logical_segments,
                split_tokens,
                pattern_matches,
                env_var,
                segments_of,
                tokens_of,
                matches,
                env,
            ) ==> result@ == outcome_for_command(
                rules@,
                cmd@,
                segments_of,
                tokens_of,
                matches,
                env,
            ),
        (forall|segments: Vec<String>| #[trigger]
            call_ensures(logical_segments, (cmd,), segments) ==> is_compound_command(
                segments.deep_view(),
            )) ==> result.decision != Some(PolicyRuleDecision::Allow),
        exists|segments: Vec<String>, segment: &str, tokens: Vec<String>|
            #![trigger call_ensures(logical_segments, (cmd,), segments), call_ensures(split_tokens, (segment,), tokens)]
            {
                &&& call_ensures(logical_segments, (cmd,), segments)
                &&& segments@.len() == 0 ==> segment@ == cmd@
                &&& segments@.len() > 0 ==> segment@ == segments@[0]@
                &&& call_ensures(split_tokens, (segment,), tokens)
                &&& !result.matched ==> {
                    &&& result.decision is None
                    &&& result.justification is None
                    &&& forall|k: int|
                        #![trigger rules@[k]]
                        0 <= k < rules@.len() ==> call_ensures(
                            pattern_matches,
                            (&rules@[k].pattern, &tokens),
                            false,
                        )
                }
                &&& result.matched ==> exists|i: int|
                    {
                        &&& 0 <= i < rules@.len()
                        &&& #[trigger] call_ensures(
                            pattern_matches,
                            (&rules@[i].pattern, &tokens),
                            true,
                        )
                        &&& forall|k: int|
                            #![trigger rules@[k]]
                            0 <= k < i ==> call_ensures(
                                pattern_matches,
                                (&rules@[k].pattern, &tokens),
                                false,
                            )
                        &&& match rules@[i].justification {
                            Some(text) => result.justification is Some
                                && result.justification->0@ == text@,
                            None => result.justification is None,
                        }
                        &&& match rules@[i].when {
                            Some(WhenClause { env, value, then: override_decision }) => exists|
                                name: &str,
                                reply: Option<String>,
                            |
                                {
                                    let base = if reply is Some && reply->0@ == value@ {
                                        override_decision
                                    } else {
                                        rules@[i].decision
                                    };
                                    &&& name@ == env@
                                    &&& #[trigger] call_ensures(env_var, (name,), reply)
                                    &&& result.decision == Some(
                                        if segments@.len() >= 2 && base
                                            == PolicyRuleDecision::Allow {
                                            PolicyRuleDecision::Prompt
                                        } else {
                                            base
                                        },
                                    )
                                },
                            None => result.decision == Some(
                                if segments@.len() >= 2 && rules@[i].decision
                                    == PolicyRuleDecision::Allow {
                                    PolicyRuleDecision::Prompt
                                } else {
                                    rules@[i].decision
                                },
                            ),
                        }
                    }
            },
{
    let segments = logical_segments(cmd);
    let first_segment = leading_segment(cmd, &segments);
    let is_compound = segments.len() > 1;
    let tokens = split_tokens(first_segment);

    assert(tokenized_as(logical_segments, split_tokens, cmd, segments, tokens));
    let found = first_matching_rule(rules, &tokens, pattern_matches);
    let env_value = match found {
        Some(i) => match &rules[i].when {
            Some(when) => env_var(when.env.as_str()),
            None => None,
        },
        None => None,
    };
    let result = match found {
        Some(i) => matched_result(&rules[i], is_compound, &env_value),
        None => PolicyRulesResult::default(),
    };
    proof {
        let hits = Seq::new(rules@.len(), |k: int| found matches Some(i) && k == i);
        match found {
            Some(i) => {
                assert(first_hit_at(hits, i as int));
                laws::law_first_match_decides(
                    rules@,
                    hits,
                    i as int,
                    is_compound,
                    env_value.deep_view(),
                );
            },
            None => {
                laws::law_no_match_is_default(
                    rules@,
                    hits,
                    is_compound,
                    env_value.deep_view(),
                );
            },
        }
        assert forall|k: int|
            #![trigger hits[k]]
            0 <= k < rules@.len() && none_before(hits, k) implies call_ensures(
            pattern_matches,
            (&rules@[k].pattern, &tokens),
            hits[k],
        ) by {
            if found is Some && k > found->0 {
                assert(hits[found->0 as int]);
            }
        }
        if is_compound {
            laws::law_compound_is_never_allowed(rules@, hits, env_value.deep_view());
        }
        assert(replies_of(
            logical_segments,
            split_tokens,
            pattern_matches,
            env_var,
            rules@,
            cmd,
            segments,
            tokens,
            hits,
            env_value,
        ));
        assert forall|
            segments_of: spec_fn(Seq<char>) -> Seq<Seq<char>>,
            tokens_of: spec_fn(Seq<char>) -> Seq<Seq<char>>,
            matches: spec_fn(Seq<PolicyPatternToken>, Seq<Seq<char>>) -> bool,
            env: spec_fn(Seq<char>) -> Option<Seq<char>>,
        | #[trigger]
            computed_by(
                logical_segments,
                split_tokens,
                pattern_matches,
                env_var,
                segments_of,
                tokens_of,
                matches,
                env,
            ) implies result@ == outcome_for_command(
            rules@,
            cmd@,
            segments_of,
            tokens_of,
            matches,
            env,
        ) by {
            laws::law_deterministic_replies(
                logical_segments,
                split_tokens,
                pattern_matches,
                env_var,
                segments_of,
                tokens_of,
                matches,
                env,
                rules@,
                cmd,
                segments,
                tokens,
                hits,
                env_value,
            );
        }
    }
    result
}

} // verus!
