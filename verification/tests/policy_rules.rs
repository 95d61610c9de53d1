//! Evaluation of rule lists against command lines.
//!
//! The shell parser is stood in for by the segments and tokens that a test
//! states for its command, the pattern matcher by a comparison word by word from
//! the front, and the environment by one stated reading.
use std::cell::{Cell, RefCell};

use policy_rules::{
    effective_decision, evaluate_policy_rules, first_matching_rule, leading_segment,
    matched_result, PolicyPatternToken, PolicyRule, PolicyRuleDecision, PolicyRulesResult,
    WhenClause,
};

fn single(s: &str) -> PolicyPatternToken {
    PolicyPatternToken::Single(s.to_string())
}

fn alts(v: &[&str]) -> PolicyPatternToken {
    PolicyPatternToken::Alts(v.iter().map(|s| s.to_string()).collect())
}

fn rule_with_pattern(
    pattern: Vec<PolicyPatternToken>,
    decision: PolicyRuleDecision,
) -> PolicyRule {
    PolicyRule {
        pattern,
        decision,
        justification: None,
        when: None,
    }
}

fn strings(words: &[&str]) -> Vec<String> {
    words.iter().map(|s| s.to_string()).collect()
}

fn words_match(pattern: &Vec<PolicyPatternToken>, tokens: &Vec<String>) -> bool {
    pattern.len() <= tokens.len()
        && pattern.iter().zip(tokens).all(|(p, t)| match p {
            PolicyPatternToken::Single(word) => word == t,
            PolicyPatternToken::Alts(words) => words.contains(t),
        })
}

/// Evaluates `rules` against `cmd`, which has the given logical segments and
/// whose leading segment has the given tokens, where each environment variable
/// reads as `env_value`.
fn evaluate(
    rules: &[PolicyRule],
    cmd: &str,
    segments: &[&str],
    tokens: &[&str],
    env_value: Option<&str>,
) -> PolicyRulesResult {
    evaluate_policy_rules(
        rules,
        cmd,
        |line: &str| {
            assert_eq!(line, cmd);
            strings(segments)
        },
        |segment: &str| {
            assert_eq!(segment, segments.first().copied().unwrap_or(cmd));
            strings(tokens)
        },
        words_match,
        |_name: &str| env_value.map(str::to_string),
    )
}

/// Evaluates `rules` against a simple command without quotes.
fn evaluate_simple(rules: &[PolicyRule], cmd: &str, env_value: Option<&str>) -> PolicyRulesResult {
    let tokens: Vec<&str> = cmd.split(' ').collect();
    evaluate(rules, cmd, &[cmd], &tokens, env_value)
}

fn when(env: &str, value: &str, decision: PolicyRuleDecision) -> Option<WhenClause> {
    Some(WhenClause {
        env: env.to_string(),
        value: value.to_string(),
        then: decision,
    })
}

#[test]
fn evaluate_policy_rules_matches_single_token_pattern() {
    let rules = vec![rule_with_pattern(
        vec![single("git"), single("push")],
        PolicyRuleDecision::Prompt,
    )];
    let result = evaluate_simple(&rules, "git push origin main", None);
    assert!(result.matched);
    assert_eq!(result.decision, Some(PolicyRuleDecision::Prompt));
}

#[test]
fn evaluate_policy_rules_alts_match() {
    let rules = vec![rule_with_pattern(
        vec![single("git"), single("push"), alts(&["--force", "-f"])],
        PolicyRuleDecision::Block,
    )];
    let result = evaluate_simple(&rules, "git push -f origin", None);
    assert!(result.matched);
    assert_eq!(result.decision, Some(PolicyRuleDecision::Block));
}

#[test]
fn evaluate_policy_rules_when_clause_overrides_on_env_match() {
    let rules = vec![PolicyRule {
        pattern: vec![single("rm")],
        decision: PolicyRuleDecision::Prompt,
        justification: None,
        when: when("AEGIS_TEST_ENV_VAR_UNIQUE", "true", PolicyRuleDecision::Allow),
    }];
    let result = evaluate_simple(&rules, "rm -rf build", Some("true"));
    assert!(result.matched);
    // env matches → use `then` (Allow)
    assert_eq!(result.decision, Some(PolicyRuleDecision::Allow));
}

#[test]
fn evaluate_policy_rules_when_clause_uses_base_on_env_mismatch() {
    let rules = vec![PolicyRule {
        pattern: vec![single("rm")],
        decision: PolicyRuleDecision::Prompt,
        justification: None,
        when: when("AEGIS_TEST_ENV_VAR_ABSENT", "true", PolicyRuleDecision::Allow),
    }];
    let result = evaluate_simple(&rules, "rm -rf build", None);
    assert!(result.matched);
    // env does not match → use base decision (Prompt)
    assert_eq!(result.decision, Some(PolicyRuleDecision::Prompt));
}

#[test]
fn evaluate_policy_rules_when_missing_env_empty_value_does_not_match() {
    let rules = vec![PolicyRule {
        pattern: vec![single("ls")],
        decision: PolicyRuleDecision::Block,
        justification: None,
        when: when("AEGIS_TEST_ABSENT_EMPTY", "", PolicyRuleDecision::Allow),
    }];
    let result = evaluate_simple(&rules, "ls", None);
    assert!(result.matched);
    // absent env → condition not met → base decision (Block)
    assert_eq!(result.decision, Some(PolicyRuleDecision::Block));
}

#[test]
fn evaluate_policy_rules_no_match_returns_default() {
    let rules = vec![rule_with_pattern(
        vec![single("git"), single("push")],
        PolicyRuleDecision::Prompt,
    )];
    let result = evaluate_simple(&rules, "echo hello", None);
    assert!(!result.matched);
    assert_eq!(result.decision, None);
}

#[test]
fn compound_command_allow_rule_downgrades_to_prompt() {
    let rules = vec![rule_with_pattern(
        vec![single("git"), single("status")],
        PolicyRuleDecision::Allow,
    )];
    // Compound command: the git status part matches but the tail is dangerous.
    let result = evaluate(
        &rules,
        "git status && terraform destroy",
        &["git status", "terraform destroy"],
        &["git", "status"],
        None,
    );
    assert!(result.matched);
    // Allow must be downgraded to Prompt for compound commands.
    assert_eq!(result.decision, Some(PolicyRuleDecision::Prompt));
}

#[test]
fn compound_command_block_rule_stays_block() {
    let rules = vec![rule_with_pattern(
        vec![single("git")],
        PolicyRuleDecision::Block,
    )];
    let result = evaluate(
        &rules,
        "git status && terraform destroy",
        &["git status", "terraform destroy"],
        &["git", "status"],
        None,
    );
    assert!(result.matched);
    assert_eq!(result.decision, Some(PolicyRuleDecision::Block));
}

#[test]
fn quoted_args_tokenized_correctly() {
    let rules = vec![rule_with_pattern(
        vec![single("git"), single("commit")],
        PolicyRuleDecision::Prompt,
    )];
    // The quoted message is one token.
    let cmd = r#"git commit -m "feat: add feature""#;
    let result = evaluate(
        &rules,
        cmd,
        &[cmd],
        &["git", "commit", "-m", "feat: add feature"],
        None,
    );
    assert!(result.matched);
}

#[test]
fn empty_rule_list_never_matches() {
    let result = evaluate_simple(&[], "terraform destroy -target=module.prod.api", None);
    assert!(!result.matched);
    assert_eq!(result.decision, None);
    assert_eq!(result.justification, None);
}

#[test]
fn allow_rule_approves_simple_command() {
    let rules = vec![rule_with_pattern(
        vec![single("terraform")],
        PolicyRuleDecision::Allow,
    )];
    let result = evaluate_simple(&rules, "terraform destroy -target=module.prod.api", None);
    assert!(result.matched);
    assert_eq!(result.decision, Some(PolicyRuleDecision::Allow));
}

#[test]
fn first_of_two_matching_rules_decides() {
    let rules = vec![
        rule_with_pattern(vec![single("ls")], PolicyRuleDecision::Allow),
        rule_with_pattern(vec![single("git")], PolicyRuleDecision::Block),
        rule_with_pattern(vec![single("git"), single("status")], PolicyRuleDecision::Allow),
    ];
    let result = evaluate_simple(&rules, "git status", None);
    assert_eq!(result.decision, Some(PolicyRuleDecision::Block));
    // The same without the miss in front and without the rule behind.
    let result = evaluate_simple(&rules[1..2], "git status", None);
    assert_eq!(result.decision, Some(PolicyRuleDecision::Block));
    // In the other order the other one decides.
    let result = evaluate_simple(&rules[2..], "git status", None);
    assert_eq!(result.decision, Some(PolicyRuleDecision::Allow));
}

#[test]
fn justification_of_matching_rule_is_passed_on() {
    let mut rules = vec![
        rule_with_pattern(vec![single("ls")], PolicyRuleDecision::Allow),
        rule_with_pattern(vec![single("rm")], PolicyRuleDecision::Block),
    ];
    rules[0].justification = Some("listing is harmless".to_string());
    rules[1].justification = Some("deletes files".to_string());
    let result = evaluate_simple(&rules, "rm -rf build", None);
    assert_eq!(result.justification, Some("deletes files".to_string()));
    let result = evaluate_simple(&rules, "echo hello", None);
    assert_eq!(result.justification, None);
}

#[test]
fn when_clause_with_other_value_keeps_rule_decision() {
    let rules = vec![PolicyRule {
        pattern: vec![single("rm")],
        decision: PolicyRuleDecision::Block,
        justification: None,
        when: when("CI", "true", PolicyRuleDecision::Prompt),
    }];
    let result = evaluate_simple(&rules, "rm -rf build", Some("TRUE"));
    assert_eq!(result.decision, Some(PolicyRuleDecision::Block));
    let result = evaluate_simple(&rules, "rm -rf build", Some(""));
    assert_eq!(result.decision, Some(PolicyRuleDecision::Block));
}

#[test]
fn when_clause_on_empty_value_is_met_by_empty_variable() {
    let rules = vec![PolicyRule {
        pattern: vec![single("ls")],
        decision: PolicyRuleDecision::Block,
        justification: None,
        when: when("CI", "", PolicyRuleDecision::Allow),
    }];
    let result = evaluate_simple(&rules, "ls", Some(""));
    assert_eq!(result.decision, Some(PolicyRuleDecision::Allow));
}

#[test]
fn when_clause_allow_is_downgraded_for_compound_command() {
    let rules = vec![PolicyRule {
        pattern: vec![single("rm")],
        decision: PolicyRuleDecision::Block,
        justification: None,
        when: when("CI", "true", PolicyRuleDecision::Allow),
    }];
    let result = evaluate(
        &rules,
        "rm a; rm b",
        &["rm a", "rm b"],
        &["rm", "a"],
        Some("true"),
    );
    assert_eq!(result.decision, Some(PolicyRuleDecision::Prompt));
}

#[test]
fn command_without_segments_is_matched_as_a_whole() {
    let rules = vec![rule_with_pattern(
        vec![single("ls")],
        PolicyRuleDecision::Allow,
    )];
    let result = evaluate(&rules, "ls -l", &[], &["ls", "-l"], None);
    assert!(result.matched);
    // No segment is no compound command.
    assert_eq!(result.decision, Some(PolicyRuleDecision::Allow));
}

#[test]
fn tail_is_not_matched() {
    let rules = vec![rule_with_pattern(
        vec![single("terraform")],
        PolicyRuleDecision::Block,
    )];
    let status = evaluate(
        &rules,
        "git status && terraform destroy",
        &["git status", "terraform destroy"],
        &["git", "status"],
        None,
    );
    let echo = evaluate(
        &rules,
        "git status; echo hello",
        &["git status", "echo hello"],
        &["git", "status"],
        None,
    );
    assert!(!status.matched);
    assert!(!echo.matched);
}

#[test]
fn matcher_is_asked_in_order_up_to_the_first_match() {
    let rules = vec![
        rule_with_pattern(vec![single("a")], PolicyRuleDecision::Allow),
        rule_with_pattern(vec![single("b")], PolicyRuleDecision::Prompt),
        rule_with_pattern(vec![single("c")], PolicyRuleDecision::Block),
    ];
    let asked: RefCell<Vec<String>> = RefCell::new(Vec::new());
    let found = first_matching_rule(
        &rules,
        &strings(&["b"]),
        |pattern: &Vec<PolicyPatternToken>, tokens: &Vec<String>| {
            if let PolicyPatternToken::Single(word) = &pattern[0] {
                asked.borrow_mut().push(word.clone());
            }
            words_match(pattern, tokens)
        },
    );
    assert_eq!(found, Some(1));
    assert_eq!(asked.into_inner(), strings(&["a", "b"]));
    assert_eq!(first_matching_rule(&rules, &strings(&["d"]), words_match), None);
}

#[test]
fn environment_is_read_only_for_the_matching_rule() {
    let mut rules = vec![
        rule_with_pattern(vec![single("a")], PolicyRuleDecision::Prompt),
        rule_with_pattern(vec![single("b")], PolicyRuleDecision::Prompt),
        rule_with_pattern(vec![single("c")], PolicyRuleDecision::Prompt),
    ];
    rules[0].when = when("FIRST", "1", PolicyRuleDecision::Allow);
    rules[1].when = when("SECOND", "2", PolicyRuleDecision::Block);
    let reads = Cell::new(0);
    let run = |word: &str| {
        evaluate_policy_rules(
            &rules,
            word,
            |line: &str| strings(&[line]),
            |segment: &str| strings(&[segment]),
            words_match,
            |name: &str| {
                reads.set(reads.get() + 1);
                assert_eq!(name, "SECOND");
                Some("2".to_string())
            },
        )
    };
    assert_eq!(run("b").decision, Some(PolicyRuleDecision::Block));
    assert_eq!(reads.get(), 1);
    assert_eq!(run("c").decision, Some(PolicyRuleDecision::Prompt));
    assert_eq!(run("d").decision, None);
    assert_eq!(reads.get(), 1);
}

#[test]
fn only_allow_is_weakened_for_compound_commands() {
    let allow = rule_with_pattern(vec![], PolicyRuleDecision::Allow);
    let prompt = rule_with_pattern(vec![], PolicyRuleDecision::Prompt);
    let block = rule_with_pattern(vec![], PolicyRuleDecision::Block);
    assert_eq!(effective_decision(&allow, false, &None), PolicyRuleDecision::Allow);
    assert_eq!(effective_decision(&allow, true, &None), PolicyRuleDecision::Prompt);
    assert_eq!(effective_decision(&prompt, false, &None), PolicyRuleDecision::Prompt);
    assert_eq!(effective_decision(&prompt, true, &None), PolicyRuleDecision::Prompt);
    assert_eq!(effective_decision(&block, false, &None), PolicyRuleDecision::Block);
    assert_eq!(effective_decision(&block, true, &None), PolicyRuleDecision::Block);
}

#[test]
fn rule_without_when_clause_ignores_the_environment() {
    let rule = rule_with_pattern(vec![single("ls")], PolicyRuleDecision::Block);
    let result = matched_result(&rule, false, &Some("true".to_string()));
    assert!(result.matched);
    assert_eq!(result.decision, Some(PolicyRuleDecision::Block));
    assert_eq!(result.justification, None);
}

#[test]
fn leading_segment_is_the_first_or_the_command() {
    let segments = strings(&["git status", "ls"]);
    assert_eq!(leading_segment("git status && ls", &segments), "git status");
    assert_eq!(leading_segment("git status", &Vec::new()), "git status");
}

#[test]
fn default_result_is_no_match() {
    let result = PolicyRulesResult::default();
    assert!(!result.matched);
    assert_eq!(result.decision, None);
    assert_eq!(result.justification, None);
}

#[test]
fn rules_that_cannot_allow_approve_nothing() {
    let rules = vec![PolicyRule {
        pattern: vec![single("terraform")],
        decision: PolicyRuleDecision::Prompt,
        justification: None,
        when: when("CI", "true", PolicyRuleDecision::Block),
    }];
    for env_value in [None, Some(""), Some("true")] {
        for cmd in ["terraform destroy", "ls"] {
            let result = evaluate_simple(&rules, cmd, env_value);
            assert_ne!(result.decision, Some(PolicyRuleDecision::Allow));
        }
    }
}

#[test]
fn same_replies_give_the_same_result() {
    let mut rules = vec![rule_with_pattern(
        vec![single("git"), alts(&["pull", "push"])],
        PolicyRuleDecision::Prompt,
    )];
    rules[0].justification = Some("talks to a remote".to_string());
    let once = evaluate_simple(&rules, "git push", None);
    let again = evaluate_simple(&rules, "git push", None);
    assert!(once.matched);
    assert_eq!(once.matched, again.matched);
    assert_eq!(once.decision, Some(PolicyRuleDecision::Prompt));
    assert_eq!(again.decision, Some(PolicyRuleDecision::Prompt));
    assert_eq!(once.justification, Some("talks to a remote".to_string()));
    assert_eq!(again.justification, Some("talks to a remote".to_string()));
}

#[test]
fn tail_turns_allow_into_prompt_and_keeps_the_rest() {
    let mut allow = rule_with_pattern(vec![single("git")], PolicyRuleDecision::Allow);
    allow.justification = Some("read only".to_string());
    let mut block = rule_with_pattern(vec![single("git")], PolicyRuleDecision::Block);
    block.justification = Some("frozen".to_string());
    for (rule, decision, weakened) in [
        (allow, PolicyRuleDecision::Allow, PolicyRuleDecision::Prompt),
        (block, PolicyRuleDecision::Block, PolicyRuleDecision::Block),
    ] {
        let rules = vec![rule];
        let tokens = ["git", "status"];
        // Without a segment, with one, and with two.
        let whole = evaluate(&rules, "git status", &[], &tokens, None);
        let simple = evaluate(&rules, "git status", &["git status"], &tokens, None);
        let compound = evaluate(
            &rules,
            "git status && ls",
            &["git status", "ls"],
            &tokens,
            None,
        );
        assert!(whole.matched && simple.matched && compound.matched);
        assert_eq!(whole.decision, Some(decision));
        assert_eq!(simple.decision, Some(decision));
        assert_eq!(compound.decision, Some(weakened));
        assert_eq!(whole.justification, simple.justification);
        assert_eq!(compound.justification, simple.justification);
    }
}

#[test]
fn appended_rules_decide_only_where_the_first_do_not() {
    let both = vec![
        rule_with_pattern(vec![single("git")], PolicyRuleDecision::Prompt),
        rule_with_pattern(vec![alts(&["git", "rm"])], PolicyRuleDecision::Block),
    ];
    assert_eq!(
        evaluate_simple(&both[..1], "git status", None).decision,
        Some(PolicyRuleDecision::Prompt)
    );
    assert_eq!(
        evaluate_simple(&both, "git status", None).decision,
        Some(PolicyRuleDecision::Prompt)
    );
    assert_eq!(evaluate_simple(&both[..1], "rm a", None).decision, None);
    assert_eq!(
        evaluate_simple(&both[1..], "rm a", None).decision,
        Some(PolicyRuleDecision::Block)
    );
    assert_eq!(
        evaluate_simple(&both, "rm a", None).decision,
        Some(PolicyRuleDecision::Block)
    );
}
