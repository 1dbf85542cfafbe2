//! The evaluation engine: collects rule hits and applies STOP > REVIEW > READY precedence.
use vstd::prelude::*;

use crate::decision::Decision;
use crate::evaluation::{Evaluation, EvaluationView, RuleHit, RuleHitView};
use crate::intent::Intent;
use crate::registries::Registries;
use crate::rules::approval::{approval_rules, spec_approval_hits};
use crate::rules::security::{security_rules, spec_security_hits};
use crate::rules::signature::{signature_rules, spec_signature_hits};
use crate::rules::token_swap::{spec_token_swap_hits, token_swap_rules};
use crate::rules::transfer::{spec_transfer_hits, transfer_rules};
use crate::rules::RuleKind;

verus! {

/// The views of a sequence of hits.
pub open spec fn views(h: Seq<RuleHit>) -> Seq<RuleHitView> {
    h.map_values(|x: RuleHit| x@)
}

/// The hits of `h` whose decision is `d`, in their order in `h`.
pub open spec fn with_decision(h: Seq<RuleHitView>, d: Decision) -> Seq<RuleHitView>
    decreases h.len(),
{
    if h.len() == 0 {
        Seq::empty()
    } else if h.last().decision == d {
        with_decision(h.drop_last(), d).push(h.last())
    } else {
        with_decision(h.drop_last(), d)
    }
}

/// `h` stably ordered by decision priority: STOP hits, then REVIEW, then READY, each group
/// in its original order.
pub open spec fn precedence_order(h: Seq<RuleHitView>) -> Seq<RuleHitView> {
    with_decision(h, Decision::Stop) + with_decision(h, Decision::Review) + with_decision(
        h,
        Decision::Ready,
    )
}

/// Every rule that fires for the intent, in rule-group order: security, transfer,
/// token and swap, signature, approval.
pub open spec fn collected_rules(i: Intent, r: Registries) -> Seq<RuleKind> {
    spec_security_hits(i) + spec_transfer_hits(i, r) + spec_token_swap_hits(i, r)
        + spec_signature_hits(i, r) + spec_approval_hits(i)
}

/// The fired rules, or READY_INTENT_MATCH alone when none fired.
pub open spec fn rules_or_ready(rules: Seq<RuleKind>) -> Seq<RuleKind> {
    if rules.len() == 0 {
        seq![RuleKind::ReadyIntentMatch]
    } else {
        rules
    }
}

/// The hits that the rules produce.
pub open spec fn hits_of(rules: Seq<RuleKind>) -> Seq<RuleHitView> {
    rules.map_values(|k: RuleKind| k.spec_hit())
}

/// The rule hits of an evaluation, in precedence order.
pub open spec fn spec_rule_hits(i: Intent, r: Registries) -> Seq<RuleHitView> {
    precedence_order(hits_of(rules_or_ready(collected_rules(i, r))))
}

/// `evaluate`: the first hit in precedence order decides; every hit is reported.
pub open spec fn spec_evaluate(i: Intent, r: Registries) -> EvaluationView {
    let hits = spec_rule_hits(i, r);
    EvaluationView {
        decision: hits[0].decision,
        triggered_rule_id: hits[0].rule_id,
        explanation: hits[0].explanation,
        recommended_next_step: hits[0].recommended_next_step,
        rule_hits: hits,
    }
}

pub proof fn lemma_with_decision_len(h: Seq<RuleHitView>)
    ensures
        with_decision(h, Decision::Stop).len() + with_decision(h, Decision::Review).len()
            + with_decision(h, Decision::Ready).len() == h.len(),
    decreases h.len(),
{
    if h.len() > 0 {
        lemma_with_decision_len(h.drop_last());
    }
}

impl RuleHit {
    /// A copy of the hit, field for field.
    pub fn duplicate(&self) -> (r: RuleHit)
        ensures
            r@ == self@,
    {
        RuleHit {
            rule_id: self.rule_id.clone(),
            decision: self.decision,
            explanation: self.explanation.clone(),
            recommended_next_step: self.recommended_next_step.clone(),
        }
    }
}

/// Appends to `out` copies of the hits of `hits` with decision `d`, in order.
fn append_with_decision(hits: &Vec<RuleHit>, d: Decision, out: &mut Vec<RuleHit>)
    ensures
        views(final(out)@) == views(old(out)@) + with_decision(views(hits@), d),
{
    let ghost start = views(out@);
    let mut k: usize = 0;
    assert(views(hits@).subrange(0, 0) =~= Seq::<RuleHitView>::empty());
    assert(views(out@) =~= start + with_decision(views(hits@).subrange(0, 0), d));
    while k < hits.len()
        invariant
            k <= hits@.len(),
            views(out@) == start + with_decision(views(hits@).subrange(0, k as int), d),
        decreases hits@.len() - k,
    {
        let ghost before = out@;
        assert(views(hits@).subrange(0, k + 1).drop_last() =~= views(hits@).subrange(0, k as int));
        assert(views(hits@).subrange(0, k + 1).last() == hits@[k as int]@);
        if hits[k].decision == d {
            out.push(hits[k].duplicate());
            assert(views(out@) =~= views(before).push(hits@[k as int]@));
        }
        k = k + 1;
    }
    assert(views(hits@).subrange(0, k as int) =~= views(hits@));
}

/// Orders the hits stably by decision priority: STOP, then REVIEW, then READY.
pub fn sort_rule_hits(hits: &mut Vec<RuleHit>)
    ensures
        views(final(hits)@) == precedence_order(views(old(hits)@)),
{
    let mut sorted: Vec<RuleHit> = Vec::new();
    assert(views(sorted@) =~= Seq::<RuleHitView>::empty());
    append_with_decision(hits, Decision::Stop, &mut sorted);
    append_with_decision(hits, Decision::Review, &mut sorted);
    append_with_decision(hits, Decision::Ready, &mut sorted);
    assert(views(sorted@) =~= precedence_order(views(hits@)));
    *hits = sorted;
}

/// The hits that the rules produce, in order.
fn to_hits(rules: &Vec<RuleKind>) -> (r: Vec<RuleHit>)
    ensures
        views(r@) == hits_of(rules@),
{
    let mut r: Vec<RuleHit> = Vec::new();
    let mut k: usize = 0;
    while k < rules.len()
        invariant
            k <= rules@.len(),
            views(r@) == hits_of(rules@.subrange(0, k as int)),
        decreases rules@.len() - k,
    {
        let ghost before = r@;
        let h = rules[k].to_hit();
        r.push(h);
        assert(views(r@) =~= views(before).push(h@));
        assert(rules@.subrange(0, k + 1) =~= rules@.subrange(0, k as int).push(rules@[k as int]));
        assert(hits_of(rules@.subrange(0, k + 1)) =~= hits_of(rules@.subrange(0, k as int)).push(rules@[k as int].spec_hit()));
        k = k + 1;
    }
    assert(rules@.subrange(0, k as int) =~= rules@);
    r
}

/// Evaluates an intent against the registries: runs every rule group, adds
/// READY_INTENT_MATCH when nothing fired, orders the hits by precedence and lets the first
/// decide.
pub fn evaluate(intent: &Intent, registries: &Registries) -> (e: Evaluation)
    ensures
        e@ == spec_evaluate(*intent, *registries),
{
    let mut rules: Vec<RuleKind> = Vec::new();
    security_rules(intent, &mut rules);
    transfer_rules(intent, registries, &mut rules);
    token_swap_rules(intent, registries, &mut rules);
    signature_rules(intent, registries, &mut rules);
    approval_rules(intent, &mut rules);
    assert(rules@ =~= collected_rules(*intent, *registries));
    if rules.len() == 0 {
        rules.push(RuleKind::ReadyIntentMatch);
        assert(rules@ =~= seq![RuleKind::ReadyIntentMatch]);
    }
    let mut hits = to_hits(&rules);
    sort_rule_hits(&mut hits);
    proof {
        lemma_with_decision_len(hits_of(rules@));
        assert(rules@.len() >= 1);
        assert(hits_of(rules@).len() == rules@.len());
        assert(views(hits@).len() == hits@.len());
    }
    let top = hits[0].duplicate();
    let e = Evaluation {
        decision: top.decision,
        triggered_rule_id: top.rule_id,
        explanation: top.explanation,
        recommended_next_step: top.recommended_next_step,
        rule_hits: hits,
    };
    assert(e@.rule_hits =~= views(e.rule_hits@));
    e
}

} // verus!
