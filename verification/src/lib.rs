//! Runtime evaluation of typed `[[rules]]` entries against a raw command line.
//!
//! * [`types`]: rules, decisions and results, as plain values.
//! * [`decision`]: the decision that one matched rule leads to.
//! * [`evaluate`]: the walk over a rule list for one command.
//! * [`laws`]: what holds of every evaluation.
//! * [`call_laws`]: what holds of calls, over what goes in and what comes out.
pub mod call_laws;
pub mod decision;
pub mod evaluate;
pub mod laws;
pub mod types;

pub use decision::{effective_decision, matched_result};
pub use evaluate::{evaluate_policy_rules, first_matching_rule, leading_segment};
pub use types::{
    PolicyPatternToken, PolicyRule, PolicyRuleDecision, PolicyRulesResult, WhenClause,
};
