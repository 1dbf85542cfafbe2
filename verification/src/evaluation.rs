//! The results of an evaluation: the rules that fired and the decision they lead to.
use vstd::prelude::*;

use crate::decision::Decision;

verus! {

/// One rule that fired, with its decision and the guidance shown to the user.
#[derive(Debug, Clone)]
pub struct RuleHit {
    pub rule_id: String,
    pub decision: Decision,
    pub explanation: String,
    pub recommended_next_step: String,
}

/// The mathematical content of a `RuleHit`.
pub struct RuleHitView {
    pub rule_id: Seq<char>,
    pub decision: Decision,
    pub explanation: Seq<char>,
    pub recommended_next_step: Seq<char>,
}

impl View for RuleHit {
    type V = RuleHitView;

    open spec fn view(&self) -> RuleHitView {
        RuleHitView {
            rule_id: self.rule_id@,
            decision: self.decision,
            explanation: self.explanation@,
            recommended_next_step: self.recommended_next_step@,
        }
    }
}

/// The outcome of evaluating an intent: the deciding rule and every rule that fired,
/// STOP hits first, then REVIEW, then READY.
#[derive(Debug, Clone)]
pub struct Evaluation {
    pub decision: Decision,
    pub triggered_rule_id: String,
    pub explanation: String,
    pub recommended_next_step: String,
    pub rule_hits: Vec<RuleHit>,
}

/// The mathematical content of an `Evaluation`.
pub struct EvaluationView {
    pub decision: Decision,
    pub triggered_rule_id: Seq<char>,
    pub explanation: Seq<char>,
    pub recommended_next_step: Seq<char>,
    pub rule_hits: Seq<RuleHitView>,
}

impl View for Evaluation {
    type V = EvaluationView;

    open spec fn view(&self) -> EvaluationView {
        EvaluationView {
            decision: self.decision,
            triggered_rule_id: self.triggered_rule_id@,
            explanation: self.explanation@,
            recommended_next_step: self.recommended_next_step@,
            rule_hits: self.rule_hits@.map_values(|h: RuleHit| h@),
        }
    }
}

} // verus!
