//! Rules, decisions and results, as plain values.
use vstd::prelude::*;

verus! {

/// What a rule says about a command it matches.
#[derive(Clone, Copy, Debug, PartialEq, Eq, Structural)]
pub enum PolicyRuleDecision {
    /// Run the command without asking.
    Allow,
    /// Ask the user first.
    Prompt,
    /// Refuse the command.
    Block,
}

/// One position of a rule's pattern.
#[derive(Debug)]
pub enum PolicyPatternToken {
    /// A single word.
    Single(String),
    /// Any one of several words.
    Alts(Vec<String>),
}

/// A condition on one environment variable, and the decision that replaces the
/// rule's own where the variable holds `value`.
#[derive(Debug)]
pub struct WhenClause {
    pub env: String,
    pub value: String,
    pub then: PolicyRuleDecision,
}

/// One `[[rules]]` entry, with the parts that evaluation reads.
#[derive(Debug)]
pub struct PolicyRule {
    pub pattern: Vec<PolicyPatternToken>,
    pub decision: PolicyRuleDecision,
    pub justification: Option<String>,
    pub when: Option<WhenClause>,
}

/// What the rules as a whole say about one command.
#[derive(Debug)]
pub struct PolicyRulesResult {
    /// Whether some rule matched.
    pub matched: bool,
    /// The decision of the rule that matched, if one did.
    pub decision: Option<PolicyRuleDecision>,
    /// The justification that the rule carries, if one matched and carries one.
    pub justification: Option<String>,
}

/// The mathematical reading of a [`PolicyRulesResult`].
pub struct RulesOutcome {
    pub matched: bool,
    pub decision: Option<PolicyRuleDecision>,
    pub justification: Option<Seq<char>>,
}

impl View for PolicyRulesResult {
    type V = RulesOutcome;

    open spec fn view(&self) -> RulesOutcome {
        RulesOutcome {
            matched: self.matched,
            decision: self.decision,
            justification: self.justification.deep_view(),
        }
    }
}

/// The outcome where no rule matched.
pub open spec fn no_match() -> RulesOutcome {
    RulesOutcome { matched: false, decision: None, justification: None }
}

impl Default for PolicyRulesResult {
    /// The result where no rule matched.
    fn default() -> (result: Self)
        ensures
            result@ == no_match(),
            !result.matched,
            result.decision is None,
            result.justification is None,
    {
        PolicyRulesResult { matched: false, decision: None, justification: None }
    }
}

} // verus!
