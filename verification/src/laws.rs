//! Properties of the engine that hold for every intent and every registry.
use vstd::prelude::*;

use crate::decision::Decision;
use crate::engine::{
    collected_rules, hits_of, lemma_with_decision_len, rules_or_ready,
    spec_evaluate, spec_rule_hits, with_decision,
};
use crate::evaluation::RuleHitView;
use crate::intent::{ActionType, Intent};
use crate::registries::Registries;
use crate::rules::approval::{spec_approval_hits, spec_is_unlimited_scope};
use crate::rules::security::{intent_is_sensitive, spec_security_hits};
use crate::rules::signature::{spec_signature_hits, untrusted_or_missing};
use crate::rules::token_swap::{
    asset_hits, destination_network_hits, source_network_hits,
    spec_token_swap_hits, swap_hits, symbol_hits,
};
use crate::rules::transfer::{
    address_mismatch_hits, empty_destination_hits, spec_transfer_hits, tag_hits,
};
use crate::rules::RuleKind;
use crate::text::{opt_view, trimmed_nonempty};

verus! {

/// Every member of `with_decision(h, d)` has decision `d` and is a member of `h`.
proof fn lemma_with_decision_members(h: Seq<RuleHitView>, d: Decision)
    ensures
        forall|j: int|
            0 <= j < with_decision(h, d).len() ==> (#[trigger] with_decision(h, d)[j]).decision
                == d && h.contains(with_decision(h, d)[j]),
    decreases h.len(),
{
    if h.len() > 0 {
        lemma_with_decision_members(h.drop_last(), d);
        let w = with_decision(h.drop_last(), d);
        assert forall|j: int| 0 <= j < with_decision(h, d).len() implies (
        #[trigger] with_decision(h, d)[j]).decision == d && h.contains(with_decision(h, d)[j]) by {
            if j < w.len() {
                assert(with_decision(h, d)[j] == w[j]);
                let x = w[j];
                assert(h.drop_last().contains(x));
                let m = choose|m: int| 0 <= m < h.drop_last().len() && h.drop_last()[m] == x;
                assert(h[m] == x);
            } else {
                assert(with_decision(h, d)[j] == h.last());
                assert(h[h.len() - 1] == h.last());
            }
        }
    }
}

/// A member of `h` with decision `d` is a member of `with_decision(h, d)`.
proof fn lemma_with_decision_keeps(h: Seq<RuleHitView>, d: Decision, k: int)
    requires
        0 <= k < h.len(),
        h[k].decision == d,
    ensures
        with_decision(h, d).contains(h[k]),
    decreases h.len(),
{
    if k < h.len() - 1 {
        lemma_with_decision_keeps(h.drop_last(), d, k);
        let w = with_decision(h.drop_last(), d);
        let m = choose|m: int| 0 <= m < w.len() && w[m] == h.drop_last()[k];
        if h.last().decision == d {
            assert(with_decision(h, d)[m] == h[k]);
        } else {
            assert(with_decision(h, d)[m] == h[k]);
        }
    } else {
        let w = with_decision(h, d);
        assert(w[w.len() - 1] == h[k]);
    }
}

/// When the first member of `h` has decision `d`, it is also first in `with_decision(h, d)`.
proof fn lemma_with_decision_first(h: Seq<RuleHitView>, d: Decision)
    requires
        h.len() > 0,
        h[0].decision == d,
    ensures
        with_decision(h, d).len() > 0,
        with_decision(h, d)[0] == h[0],
    decreases h.len(),
{
    if h.len() > 1 {
        lemma_with_decision_first(h.drop_last(), d);
        assert(h.drop_last()[0] == h[0]);
        if h.last().decision == d {
            assert(with_decision(h, d)[0] == with_decision(h.drop_last(), d)[0]);
        }
    } else {
        assert(h.drop_last() =~= Seq::<RuleHitView>::empty());
        assert(with_decision(h.drop_last(), d) =~= Seq::<RuleHitView>::empty());
    }
}

/// `with_decision` of a concatenation is the concatenation of the parts.
proof fn lemma_with_decision_concat(a: Seq<RuleHitView>, b: Seq<RuleHitView>, d: Decision)
    ensures
        with_decision(a + b, d) == with_decision(a, d) + with_decision(b, d),
    decreases b.len(),
{
    if b.len() == 0 {
        assert(a + b =~= a);
        assert(with_decision(a, d) + with_decision(b, d) =~= with_decision(a, d));
    } else {
        lemma_with_decision_concat(a, b.drop_last(), d);
        assert((a + b).drop_last() =~= a + b.drop_last());
        assert((a + b).last() == b.last());
        if b.last().decision == d {
            assert(with_decision(a, d) + with_decision(b.drop_last(), d).push(b.last()) =~= (
            with_decision(a, d) + with_decision(b.drop_last(), d)).push(b.last()));
        }
    }
}

/// Selecting a decision again keeps everything; selecting another keeps nothing.
proof fn lemma_with_decision_twice(h: Seq<RuleHitView>, d: Decision, e: Decision)
    ensures
        with_decision(with_decision(h, d), e) == if d == e {
            with_decision(h, d)
        } else {
            Seq::<RuleHitView>::empty()
        },
    decreases h.len(),
{
    if h.len() > 0 {
        lemma_with_decision_twice(h.drop_last(), d, e);
        if h.last().decision == d {
            assert(with_decision(h, d).drop_last() =~= with_decision(h.drop_last(), d));
        }
    }
}

/// The rule hits of an evaluation, ordered by precedence, lose and gain nothing: for each
/// decision they hold exactly the hits of that decision that fired, in the order in which
/// they fired.
pub proof fn law_precedence_keeps_hits_in_order(i: Intent, r: Registries, d: Decision)
    ensures
        with_decision(spec_evaluate(i, r).rule_hits, d) == with_decision(
            hits_of(rules_or_ready(collected_rules(i, r))),
            d,
        ),
{
    let h = hits_of(rules_or_ready(collected_rules(i, r)));
    let s = with_decision(h, Decision::Stop);
    let v = with_decision(h, Decision::Review);
    let y = with_decision(h, Decision::Ready);
    lemma_with_decision_concat(s + v, y, d);
    lemma_with_decision_concat(s, v, d);
    lemma_with_decision_twice(h, Decision::Stop, d);
    lemma_with_decision_twice(h, Decision::Review, d);
    lemma_with_decision_twice(h, Decision::Ready, d);
    if d == Decision::Stop {
        assert(with_decision(s, d) + with_decision(v, d) + with_decision(y, d) =~= s);
    } else if d == Decision::Review {
        assert(with_decision(s, d) + with_decision(v, d) + with_decision(y, d) =~= v);
    } else {
        assert(with_decision(s, d) + with_decision(v, d) + with_decision(y, d) =~= y);
    }
}

/// Rule hits come STOP first, then REVIEW, then READY, and the decision is that of the
/// first hit: no hit outranks the decision.
pub proof fn law_hits_ordered_by_precedence(i: Intent, r: Registries)
    ensures
        spec_evaluate(i, r).rule_hits.len() > 0,
        spec_evaluate(i, r).decision == spec_evaluate(i, r).rule_hits[0].decision,
        forall|a: int, b: int|
            0 <= a < b < spec_evaluate(i, r).rule_hits.len() ==> (#[trigger] spec_evaluate(
                i,
                r,
            ).rule_hits[a]).decision.spec_priority() >= (#[trigger] spec_evaluate(
                i,
                r,
            ).rule_hits[b]).decision.spec_priority(),
        forall|k: int|
            0 <= k < spec_evaluate(i, r).rule_hits.len() ==> (#[trigger] spec_evaluate(
                i,
                r,
            ).rule_hits[k]).decision.spec_priority() <= spec_evaluate(i, r).decision.spec_priority(),
{
    let h = hits_of(rules_or_ready(collected_rules(i, r)));
    let s = with_decision(h, Decision::Stop);
    let v = with_decision(h, Decision::Review);
    let y = with_decision(h, Decision::Ready);
    lemma_with_decision_len(h);
    lemma_with_decision_members(h, Decision::Stop);
    lemma_with_decision_members(h, Decision::Review);
    lemma_with_decision_members(h, Decision::Ready);
    let hits = spec_evaluate(i, r).rule_hits;
    assert(hits == s + v + y);
    assert forall|k: int| 0 <= k < hits.len() implies (#[trigger] hits[k]).decision.spec_priority()
        == (if k < s.len() {
        2u8
    } else if k < s.len() + v.len() {
        1u8
    } else {
        0u8
    }) by {
        if k < s.len() {
            assert(hits[k] == s[k]);
        } else if k < s.len() + v.len() {
            assert(hits[k] == v[k - s.len()]);
        } else {
            assert(hits[k] == y[k - s.len() - v.len()]);
        }
    }
}

/// The rule group a rule belongs to: security 0, transfer 1, token and swap 2, signature 3,
/// approval 4; READY_INTENT_MATCH, which no group fires, 5.
pub open spec fn rule_group(k: RuleKind) -> int {
    match k {
        RuleKind::SecuritySeedOrPrivateKeyRequest => 0,
        RuleKind::TransferEmptyDestinationAddress => 1,
        RuleKind::TransferDestinationAddressMismatch => 1,
        RuleKind::TransferMissingDestinationTag => 1,
        RuleKind::TransferDestinationTagMismatch => 1,
        RuleKind::SignUnexpectedAirdropInteraction => 3,
        RuleKind::ApprovalMissingScope => 4,
        RuleKind::ApprovalUnlimitedAllowance => 4,
        RuleKind::ReadyIntentMatch => 5,
        _ => 2,
    }
}

/// Each fired rule belongs to the group whose part of the collection holds it.
proof fn lemma_collected_segments(i: Intent, r: Registries, j: int)
    requires
        0 <= j < collected_rules(i, r).len(),
    ensures
        rule_group(collected_rules(i, r)[j]) != 5,
        rule_group(collected_rules(i, r)[j]) == 1 ==> exists|m: int|
            0 <= m < spec_transfer_hits(i, r).len() && spec_transfer_hits(i, r)[m]
                == collected_rules(i, r)[j],
        rule_group(collected_rules(i, r)[j]) == 2 ==> exists|m: int|
            0 <= m < spec_token_swap_hits(i, r).len() && spec_token_swap_hits(i, r)[m]
                == collected_rules(i, r)[j],
{
    let c = collected_rules(i, r);
    let a = spec_security_hits(i);
    let b = spec_transfer_hits(i, r);
    let t = spec_token_swap_hits(i, r);
    let g = spec_signature_hits(i, r);
    let p = spec_approval_hits(i);
    let n1 = a.len() as int;
    let n2 = n1 + b.len();
    let n3 = n2 + t.len();
    let n4 = n3 + g.len();
    if j < n1 {
        assert(c[j] == a[j]);
    } else if j < n2 {
        assert(c[j] == b[j - n1]);
        let b1 = empty_destination_hits(i);
        let b2 = address_mismatch_hits(i, r);
        let b3 = tag_hits(i, r);
        let m = j - n1;
        if m < b1.len() {
            assert(b[m] == b1[m]);
        } else if m < b1.len() + b2.len() {
            assert(b[m] == b2[m - b1.len()]);
        } else {
            assert(b[m] == b3[m - b1.len() - b2.len()]);
        }
    } else if j < n3 {
        assert(c[j] == t[j - n2]);
        let t1 = asset_hits(i, r);
        let t2 = swap_hits(i);
        let m = j - n2;
        if m < t1.len() {
            assert(t[m] == t1[m]);
            lemma_asset_hits_group(i, r, m);
        } else {
            assert(t[m] == t2[m - t1.len()]);
        }
    } else if j < n4 {
        assert(c[j] == g[j - n3]);
    } else {
        assert(c[j] == p[j - n4]);
    }
}

/// No rule group fires READY_INTENT_MATCH: every rule it fires stops or asks for review.
proof fn lemma_collected_never_ready(i: Intent, r: Registries)
    ensures
        forall|j: int|
            0 <= j < collected_rules(i, r).len() ==> (#[trigger] collected_rules(i, r)[j]).spec_decision()
                != Decision::Ready,
{
    assert forall|j: int| 0 <= j < collected_rules(i, r).len() implies (#[trigger] collected_rules(
        i,
        r,
    )[j]).spec_decision() != Decision::Ready by {
        lemma_collected_segments(i, r, j);
    }
}

/// The asset checks fire token rules only.
proof fn lemma_asset_hits_group(i: Intent, r: Registries, j: int)
    requires
        0 <= j < asset_hits(i, r).len(),
    ensures
        rule_group(asset_hits(i, r)[j]) == 2,
{
    let h = asset_hits(i, r);
    match crate::validators::network::spec_norm(opt_view(i.asset_identifier)) {
        Some(id) => match crate::registries::lookup(r.tokens@, id) {
            Some(token) => {
                let s = symbol_hits(i, token);
                let rest = if i.action_type.moves_asset() {
                    source_network_hits(i, r, token) + destination_network_hits(i, r, token)
                } else {
                    seq![]
                };
                assert(h == s + rest);
                if j < s.len() {
                    assert(h[j] == s[j]);
                } else {
                    assert(h[j] == rest[j - s.len()]);
                    if i.action_type.moves_asset() {
                        let src = source_network_hits(i, r, token);
                        let dst = destination_network_hits(i, r, token);
                        if j - s.len() < src.len() {
                            assert(rest[j - s.len()] == src[j - s.len()]);
                        } else {
                            assert(rest[j - s.len()] == dst[j - s.len() - src.len()]);
                        }
                    }
                }
            },
            None => {},
        },
        None => {},
    }
}

/// The decision is READY exactly when no rule fired; then READY_INTENT_MATCH is the only hit.
pub proof fn law_ready_only_when_nothing_fires(i: Intent, r: Registries)
    ensures
        (spec_evaluate(i, r).decision == Decision::Ready) <==> collected_rules(i, r).len() == 0,
        collected_rules(i, r).len() == 0 ==> spec_evaluate(i, r).rule_hits == seq![
            RuleKind::ReadyIntentMatch.spec_hit(),
        ],
{
    let c = collected_rules(i, r);
    law_hits_ordered_by_precedence(i, r);
    if c.len() == 0 {
        let h = hits_of(rules_or_ready(c));
        assert(h =~= seq![RuleKind::ReadyIntentMatch.spec_hit()]);
        assert(h.last().decision == Decision::Ready);
        assert(h.drop_last() =~= Seq::<RuleHitView>::empty());
        assert(with_decision(h.drop_last(), Decision::Stop) =~= Seq::<RuleHitView>::empty());
        assert(with_decision(h.drop_last(), Decision::Review) =~= Seq::<RuleHitView>::empty());
        assert(with_decision(h.drop_last(), Decision::Ready) =~= Seq::<RuleHitView>::empty());
        assert(with_decision(h, Decision::Stop) =~= Seq::<RuleHitView>::empty());
        assert(with_decision(h, Decision::Review) =~= Seq::<RuleHitView>::empty());
        assert(with_decision(h, Decision::Ready) =~= h);
        assert(spec_rule_hits(i, r) =~= h);
    } else {
        lemma_collected_never_ready(i, r);
        let h = hits_of(c);
        assert(h[0] == c[0].spec_hit());
        if c[0].spec_decision() == Decision::Stop {
            lemma_with_decision_first(h, Decision::Stop);
            lemma_with_decision_len(h);
            assert(spec_rule_hits(i, r)[0] == with_decision(h, Decision::Stop)[0]);
        } else {
            lemma_with_decision_keeps(h, Decision::Review, 0);
            lemma_with_decision_len(h);
            lemma_with_decision_members(h, Decision::Stop);
            lemma_with_decision_members(h, Decision::Review);
            let s = with_decision(h, Decision::Stop);
            let v = with_decision(h, Decision::Review);
            if s.len() > 0 {
                assert(spec_rule_hits(i, r)[0] == s[0]);
            } else {
                assert(v.len() > 0);
                assert(spec_rule_hits(i, r)[0] == v[0]);
            }
        }
    }
}

/// When any rule that fired stops, the evaluation stops.
pub proof fn law_any_stop_rule_stops(i: Intent, r: Registries, k: int)
    requires
        0 <= k < collected_rules(i, r).len(),
        collected_rules(i, r)[k].spec_decision() == Decision::Stop,
    ensures
        spec_evaluate(i, r).decision == Decision::Stop,
        spec_evaluate(i, r).rule_hits.contains(collected_rules(i, r)[k].spec_hit()),
{
    let c = collected_rules(i, r);
    let h = hits_of(c);
    assert(rules_or_ready(c) == c);
    assert(h[k] == c[k].spec_hit());
    lemma_with_decision_keeps(h, Decision::Stop, k);
    lemma_with_decision_members(h, Decision::Stop);
    let s = with_decision(h, Decision::Stop);
    assert(s.len() > 0);
    assert(spec_rule_hits(i, r)[0] == s[0]);
    let m = choose|m: int| 0 <= m < s.len() && s[m] == h[k];
    assert(spec_rule_hits(i, r)[m] == s[m]);
}

/// A request for a seed phrase or private key, in any text field, always stops, and the
/// security rule is the one that decides.
pub proof fn law_sensitive_request_stops_first(i: Intent, r: Registries)
    requires
        intent_is_sensitive(i),
    ensures
        spec_evaluate(i, r).decision == Decision::Stop,
        spec_evaluate(i, r).triggered_rule_id == "SECURITY_SEED_OR_PRIVATE_KEY_REQUEST"@,
{
    let c = collected_rules(i, r);
    let h = hits_of(c);
    assert(c[0] == RuleKind::SecuritySeedOrPrivateKeyRequest);
    assert(rules_or_ready(c) == c);
    assert(h[0] == c[0].spec_hit());
    lemma_with_decision_first(h, Decision::Stop);
    assert(spec_rule_hits(i, r)[0] == h[0]);
}

/// A SEND or SWAP without a destination address always stops.
pub proof fn law_empty_destination_stops(i: Intent, r: Registries)
    requires
        i.action_type.moves_asset(),
        trimmed_nonempty(opt_view(i.destination_address)) is None,
    ensures
        spec_evaluate(i, r).decision == Decision::Stop,
{
    let k = spec_security_hits(i).len() as int;
    assert(collected_rules(i, r)[k] == RuleKind::TransferEmptyDestinationAddress);
    law_any_stop_rule_stops(i, r, k);
}

/// An approval whose scope is missing, blank, unknown or unlimited always stops.
pub proof fn law_unbounded_approval_stops(i: Intent, r: Registries)
    requires
        i.action_type == ActionType::Approve,
        match trimmed_nonempty(opt_view(i.approval_amount_or_scope)) {
            None => true,
            Some(scope) => crate::rules::approval::spec_is_unknown_scope(scope)
                || spec_is_unlimited_scope(scope),
        },
    ensures
        spec_evaluate(i, r).decision == Decision::Stop,
{
    let c = collected_rules(i, r);
    let k = c.len() - 1;
    assert(spec_approval_hits(i).len() == 1);
    assert(c[k] == spec_approval_hits(i)[0]);
    law_any_stop_rule_stops(i, r, k);
}

/// Signing for an unsolicited asset against a missing, unknown or untrusted contract
/// always stops.
pub proof fn law_unsolicited_signature_stops(i: Intent, r: Registries)
    requires
        i.action_type == ActionType::Sign,
        i.asset_was_unsolicited,
        untrusted_or_missing(trimmed_nonempty(opt_view(i.contract_address)), r),
    ensures
        spec_evaluate(i, r).decision == Decision::Stop,
{
    let c = collected_rules(i, r);
    let k = (spec_security_hits(i).len() + spec_transfer_hits(i, r).len() + spec_token_swap_hits(i, r).len()) as int;
    assert(spec_approval_hits(i).len() == 0);
    assert(c[k] == RuleKind::SignUnexpectedAirdropInteraction);
    law_any_stop_rule_stops(i, r, k);
}

/// On a SEND to a destination that expects a tag or memo (from the deposit registry where
/// the destination is a registered deposit account, else as the intent states it), a
/// missing, blank or different entered tag always stops.
pub proof fn law_wrong_destination_tag_stops(i: Intent, r: Registries, expected: Seq<char>)
    requires
        i.action_type == ActionType::Send,
        trimmed_nonempty(crate::validators::address::spec_resolved_expected_tag(i, r)) == Some(
            expected,
        ),
        match opt_view(i.entered_destination_tag_or_memo) {
            None => true,
            Some(entered) => crate::text::trim(entered) != expected,
        },
    ensures
        spec_evaluate(i, r).decision == Decision::Stop,
{
    let k = spec_security_hits(i).len() + empty_destination_hits(i).len() + address_mismatch_hits(
        i,
        r,
    ).len();
    assert(tag_hits(i, r).len() == 1);
    assert(collected_rules(i, r)[k as int] == tag_hits(i, r)[0]);
    law_any_stop_rule_stops(i, r, k as int);
}


/// A request for a seed phrase, mnemonic, recovery phrase or private key in any text field
/// of the intent, in any ASCII case, stops the evaluation with
/// SECURITY_SEED_OR_PRIVATE_KEY_REQUEST.
pub proof fn law_secret_phrase_in_any_field_stops(
    i: Intent,
    r: Registries,
    value: Seq<char>,
    phrase: Seq<char>,
)
    requires
        opt_view(i.source_network) == Some(value) || opt_view(i.destination_network) == Some(value)
            || opt_view(i.asset_symbol) == Some(value) || opt_view(i.asset_identifier) == Some(value)
            || opt_view(i.destination_address) == Some(value) || opt_view(
            i.expected_destination_address,
        ) == Some(value) || opt_view(i.entered_destination_tag_or_memo) == Some(value) || opt_view(
            i.expected_destination_tag_or_memo,
        ) == Some(value) || opt_view(i.contract_address) == Some(value) || opt_view(
            i.approval_amount_or_scope,
        ) == Some(value) || opt_view(i.transaction_origin) == Some(value),
        phrase == "seed phrase"@ || phrase == "seed-phrase"@ || phrase == "mnemonic"@ || phrase
            == "recovery phrase"@ || phrase == "private key"@ || phrase == "private-key"@ || phrase
            == "privkey"@,
        crate::text::contains(crate::text::lower(value), phrase),
    ensures
        spec_evaluate(i, r).decision == Decision::Stop,
        spec_evaluate(i, r).triggered_rule_id == "SECURITY_SEED_OR_PRIVATE_KEY_REQUEST"@,
{
    assert(crate::rules::security::spec_contains_sensitive_request(value));
    assert(intent_is_sensitive(i));
    law_sensitive_request_stops_first(i, r);
}

/// An approval whose trimmed scope is not `unknown` and, ASCII lower-cased, mentions
/// `unlimited`, `infinite` or `max` stops, with APPROVAL_UNLIMITED_ALLOWANCE among the hits:
/// the keywords are found in any ASCII case.
pub proof fn law_unlimited_keyword_stops(i: Intent, r: Registries, scope: Seq<char>)
    requires
        i.action_type == ActionType::Approve,
        opt_view(i.approval_amount_or_scope) == Some(scope),
        crate::text::trim(scope).len() > 0,
        crate::text::lower(crate::text::trim(scope)) != "unknown"@,
        crate::text::contains(crate::text::lower(crate::text::trim(scope)), "unlimited"@)
            || crate::text::contains(crate::text::lower(crate::text::trim(scope)), "infinite"@)
            || crate::text::contains(crate::text::lower(crate::text::trim(scope)), "max"@),
    ensures
        spec_evaluate(i, r).decision == Decision::Stop,
        exists|j: int|
            0 <= j < spec_evaluate(i, r).rule_hits.len() && (#[trigger] spec_evaluate(
                i,
                r,
            ).rule_hits[j]).rule_id == "APPROVAL_UNLIMITED_ALLOWANCE"@ && spec_evaluate(
                i,
                r,
            ).rule_hits[j].decision == Decision::Stop,
{
    let c = collected_rules(i, r);
    let k = c.len() - 1;
    assert(spec_approval_hits(i) == seq![RuleKind::ApprovalUnlimitedAllowance]);
    assert(c[k] == spec_approval_hits(i)[0]);
    law_any_stop_rule_stops(i, r, k);
    let hits = spec_evaluate(i, r).rule_hits;
    let j = choose|j: int| 0 <= j < hits.len() && hits[j] == RuleKind::ApprovalUnlimitedAllowance.spec_hit();
    assert(hits[j].rule_id == "APPROVAL_UNLIMITED_ALLOWANCE"@);
}

/// On a SEND whose trimmed destination address is not a deposit account on the intent's
/// destination or source network, the tag or memo that the intent expects is the one that
/// counts: an entered tag that, trimmed, is not blank and differs from it stops, with
/// TRANSFER_DESTINATION_TAG_MISMATCH among the hits.
pub proof fn law_stated_tag_mismatch_stops(
    i: Intent,
    r: Registries,
    address: Seq<char>,
    expected: Seq<char>,
    entered: Seq<char>,
)
    requires
        i.action_type == ActionType::Send,
        opt_view(i.destination_address) == Some(address),
        crate::text::trim(address).len() > 0,
        match opt_view(i.destination_network) {
            Some(n) => !crate::validators::address::deposit_on_network(crate::text::trim(address), n, r),
            None => true,
        },
        match opt_view(i.source_network) {
            Some(n) => !crate::validators::address::deposit_on_network(crate::text::trim(address), n, r),
            None => true,
        },
        opt_view(i.expected_destination_tag_or_memo) == Some(expected),
        crate::text::trim(expected).len() > 0,
        opt_view(i.entered_destination_tag_or_memo) == Some(entered),
        crate::text::trim(entered).len() > 0,
        crate::text::trim(entered) != crate::text::trim(expected),
    ensures
        spec_evaluate(i, r).decision == Decision::Stop,
        exists|j: int|
            0 <= j < spec_evaluate(i, r).rule_hits.len() && (#[trigger] spec_evaluate(
                i,
                r,
            ).rule_hits[j]).rule_id == "TRANSFER_DESTINATION_TAG_MISMATCH"@ && spec_evaluate(
                i,
                r,
            ).rule_hits[j].decision == Decision::Stop,
{
    crate::text::law_trim_idempotent(expected);
    assert(crate::validators::address::spec_resolved_expected_tag(i, r) == Some(
        crate::text::trim(expected),
    ));
    assert(tag_hits(i, r) == seq![RuleKind::TransferDestinationTagMismatch]);
    let k = spec_security_hits(i).len() + empty_destination_hits(i).len() + address_mismatch_hits(
        i,
        r,
    ).len();
    assert(collected_rules(i, r)[k as int] == tag_hits(i, r)[0]);
    law_any_stop_rule_stops(i, r, k as int);
    let hits = spec_evaluate(i, r).rule_hits;
    let j = choose|j: int|
        0 <= j < hits.len() && hits[j] == RuleKind::TransferDestinationTagMismatch.spec_hit();
    assert(hits[j].rule_id == "TRANSFER_DESTINATION_TAG_MISMATCH"@);
}

/// TRANSFER_DESTINATION_ADDRESS_MISMATCH is the identifier of the address mismatch rule alone.
proof fn lemma_only_address_mismatch_id(k: RuleKind)
    ensures
        k.spec_rule_id() == "TRANSFER_DESTINATION_ADDRESS_MISMATCH"@ ==> k == RuleKind::TransferDestinationAddressMismatch,
{
    reveal_strlit("TRANSFER_DESTINATION_ADDRESS_MISMATCH");
    match k {
        RuleKind::SecuritySeedOrPrivateKeyRequest => {
            reveal_strlit("SECURITY_SEED_OR_PRIVATE_KEY_REQUEST");
            assert(k.spec_rule_id().len() != "TRANSFER_DESTINATION_ADDRESS_MISMATCH"@.len());
        },
        RuleKind::TransferEmptyDestinationAddress => {
            reveal_strlit("TRANSFER_EMPTY_DESTINATION_ADDRESS");
            assert(k.spec_rule_id().len() != "TRANSFER_DESTINATION_ADDRESS_MISMATCH"@.len());
        },
        RuleKind::TransferDestinationAddressMismatch => {},
        RuleKind::TransferMissingDestinationTag => {
            reveal_strlit("TRANSFER_MISSING_DESTINATION_TAG");
            assert(k.spec_rule_id().len() != "TRANSFER_DESTINATION_ADDRESS_MISMATCH"@.len());
        },
        RuleKind::TransferDestinationTagMismatch => {
            reveal_strlit("TRANSFER_DESTINATION_TAG_MISMATCH");
            assert(k.spec_rule_id().len() != "TRANSFER_DESTINATION_ADDRESS_MISMATCH"@.len());
        },
        RuleKind::TokenAssetSymbolMismatch => {
            reveal_strlit("TOKEN_ASSET_SYMBOL_MISMATCH");
            assert(k.spec_rule_id().len() != "TRANSFER_DESTINATION_ADDRESS_MISMATCH"@.len());
        },
        RuleKind::TokenUnknownSourceNetwork => {
            reveal_strlit("TOKEN_UNKNOWN_SOURCE_NETWORK");
            assert(k.spec_rule_id().len() != "TRANSFER_DESTINATION_ADDRESS_MISMATCH"@.len());
        },
        RuleKind::TokenMissingSourceNetwork => {
            reveal_strlit("TOKEN_UNKNOWN_SOURCE_NETWORK");
            assert(k.spec_rule_id().len() != "TRANSFER_DESTINATION_ADDRESS_MISMATCH"@.len());
        },
        RuleKind::TokenUnsupportedSourceNetwork => {
            reveal_strlit("TOKEN_UNSUPPORTED_SOURCE_NETWORK");
            assert(k.spec_rule_id().len() != "TRANSFER_DESTINATION_ADDRESS_MISMATCH"@.len());
        },
        RuleKind::TokenUnknownDestinationNetwork => {
            reveal_strlit("TOKEN_UNKNOWN_DESTINATION_NETWORK");
            assert(k.spec_rule_id().len() != "TRANSFER_DESTINATION_ADDRESS_MISMATCH"@.len());
        },
        RuleKind::TokenUnsupportedDestinationNetwork => {
            reveal_strlit("TOKEN_UNSUPPORTED_DESTINATION_NETWORK");
            assert(k.spec_rule_id()[1] != "TRANSFER_DESTINATION_ADDRESS_MISMATCH"@[1]);
        },
        RuleKind::TokenUnknownFamiliarSymbol => {
            reveal_strlit("TOKEN_UNKNOWN_FAMILIAR_SYMBOL");
            assert(k.spec_rule_id().len() != "TRANSFER_DESTINATION_ADDRESS_MISMATCH"@.len());
        },
        RuleKind::TokenMissingAssetIdentifier => {
            reveal_strlit("TOKEN_MISSING_ASSET_IDENTIFIER");
            assert(k.spec_rule_id().len() != "TRANSFER_DESTINATION_ADDRESS_MISMATCH"@.len());
        },
        RuleKind::SwapInvalidSlippage => {
            reveal_strlit("SWAP_INVALID_SLIPPAGE");
            assert(k.spec_rule_id().len() != "TRANSFER_DESTINATION_ADDRESS_MISMATCH"@.len());
        },
        RuleKind::SwapSlippageReview => {
            reveal_strlit("SWAP_SLIPPAGE_REVIEW");
            assert(k.spec_rule_id().len() != "TRANSFER_DESTINATION_ADDRESS_MISMATCH"@.len());
        },
        RuleKind::SwapSlippageStop => {
            reveal_strlit("SWAP_SLIPPAGE_STOP");
            assert(k.spec_rule_id().len() != "TRANSFER_DESTINATION_ADDRESS_MISMATCH"@.len());
        },
        RuleKind::SwapMissingSlippage => {
            reveal_strlit("SWAP_MISSING_SLIPPAGE");
            assert(k.spec_rule_id().len() != "TRANSFER_DESTINATION_ADDRESS_MISMATCH"@.len());
        },
        RuleKind::SignUnexpectedAirdropInteraction => {
            reveal_strlit("SIGN_UNEXPECTED_AIRDROP_INTERACTION");
            assert(k.spec_rule_id().len() != "TRANSFER_DESTINATION_ADDRESS_MISMATCH"@.len());
        },
        RuleKind::ApprovalMissingScope => {
            reveal_strlit("APPROVAL_MISSING_SCOPE");
            assert(k.spec_rule_id().len() != "TRANSFER_DESTINATION_ADDRESS_MISMATCH"@.len());
        },
        RuleKind::ApprovalUnlimitedAllowance => {
            reveal_strlit("APPROVAL_UNLIMITED_ALLOWANCE");
            assert(k.spec_rule_id().len() != "TRANSFER_DESTINATION_ADDRESS_MISMATCH"@.len());
        },
        RuleKind::ReadyIntentMatch => {
            reveal_strlit("READY_INTENT_MATCH");
            assert(k.spec_rule_id().len() != "TRANSFER_DESTINATION_ADDRESS_MISMATCH"@.len());
        },
    }
}

/// TOKEN_UNKNOWN_SOURCE_NETWORK is the identifier of the two source network rules alone.
proof fn lemma_only_source_network_id(k: RuleKind)
    ensures
        k.spec_rule_id() == "TOKEN_UNKNOWN_SOURCE_NETWORK"@ ==> k == RuleKind::TokenUnknownSourceNetwork || k == RuleKind::TokenMissingSourceNetwork,
{
    reveal_strlit("TOKEN_UNKNOWN_SOURCE_NETWORK");
    match k {
        RuleKind::SecuritySeedOrPrivateKeyRequest => {
            reveal_strlit("SECURITY_SEED_OR_PRIVATE_KEY_REQUEST");
            assert(k.spec_rule_id().len() != "TOKEN_UNKNOWN_SOURCE_NETWORK"@.len());
        },
        RuleKind::TransferEmptyDestinationAddress => {
            reveal_strlit("TRANSFER_EMPTY_DESTINATION_ADDRESS");
            assert(k.spec_rule_id().len() != "TOKEN_UNKNOWN_SOURCE_NETWORK"@.len());
        },
        RuleKind::TransferDestinationAddressMismatch => {
            reveal_strlit("TRANSFER_DESTINATION_ADDRESS_MISMATCH");
            assert(k.spec_rule_id().len() != "TOKEN_UNKNOWN_SOURCE_NETWORK"@.len());
        },
        RuleKind::TransferMissingDestinationTag => {
            reveal_strlit("TRANSFER_MISSING_DESTINATION_TAG");
            assert(k.spec_rule_id().len() != "TOKEN_UNKNOWN_SOURCE_NETWORK"@.len());
        },
        RuleKind::TransferDestinationTagMismatch => {
            reveal_strlit("TRANSFER_DESTINATION_TAG_MISMATCH");
            assert(k.spec_rule_id().len() != "TOKEN_UNKNOWN_SOURCE_NETWORK"@.len());
        },
        RuleKind::TokenAssetSymbolMismatch => {
            reveal_strlit("TOKEN_ASSET_SYMBOL_MISMATCH");
            assert(k.spec_rule_id().len() != "TOKEN_UNKNOWN_SOURCE_NETWORK"@.len());
        },
        RuleKind::TokenUnknownSourceNetwork => {},
        RuleKind::TokenMissingSourceNetwork => {},
        RuleKind::TokenUnsupportedSourceNetwork => {
            reveal_strlit("TOKEN_UNSUPPORTED_SOURCE_NETWORK");
            assert(k.spec_rule_id().len() != "TOKEN_UNKNOWN_SOURCE_NETWORK"@.len());
        },
        RuleKind::TokenUnknownDestinationNetwork => {
            reveal_strlit("TOKEN_UNKNOWN_DESTINATION_NETWORK");
            assert(k.spec_rule_id().len() != "TOKEN_UNKNOWN_SOURCE_NETWORK"@.len());
        },
        RuleKind::TokenUnsupportedDestinationNetwork => {
            reveal_strlit("TOKEN_UNSUPPORTED_DESTINATION_NETWORK");
            assert(k.spec_rule_id().len() != "TOKEN_UNKNOWN_SOURCE_NETWORK"@.len());
        },
        RuleKind::TokenUnknownFamiliarSymbol => {
            reveal_strlit("TOKEN_UNKNOWN_FAMILIAR_SYMBOL");
            assert(k.spec_rule_id().len() != "TOKEN_UNKNOWN_SOURCE_NETWORK"@.len());
        },
        RuleKind::TokenMissingAssetIdentifier => {
            reveal_strlit("TOKEN_MISSING_ASSET_IDENTIFIER");
            assert(k.spec_rule_id().len() != "TOKEN_UNKNOWN_SOURCE_NETWORK"@.len());
        },
        RuleKind::SwapInvalidSlippage => {
            reveal_strlit("SWAP_INVALID_SLIPPAGE");
            assert(k.spec_rule_id().len() != "TOKEN_UNKNOWN_SOURCE_NETWORK"@.len());
        },
        RuleKind::SwapSlippageReview => {
            reveal_strlit("SWAP_SLIPPAGE_REVIEW");
            assert(k.spec_rule_id().len() != "TOKEN_UNKNOWN_SOURCE_NETWORK"@.len());
        },
        RuleKind::SwapSlippageStop => {
            reveal_strlit("SWAP_SLIPPAGE_STOP");
            assert(k.spec_rule_id().len() != "TOKEN_UNKNOWN_SOURCE_NETWORK"@.len());
        },
        RuleKind::SwapMissingSlippage => {
            reveal_strlit("SWAP_MISSING_SLIPPAGE");
            assert(k.spec_rule_id().len() != "TOKEN_UNKNOWN_SOURCE_NETWORK"@.len());
        },
        RuleKind::SignUnexpectedAirdropInteraction => {
            reveal_strlit("SIGN_UNEXPECTED_AIRDROP_INTERACTION");
            assert(k.spec_rule_id().len() != "TOKEN_UNKNOWN_SOURCE_NETWORK"@.len());
        },
        RuleKind::ApprovalMissingScope => {
            reveal_strlit("APPROVAL_MISSING_SCOPE");
            assert(k.spec_rule_id().len() != "TOKEN_UNKNOWN_SOURCE_NETWORK"@.len());
        },
        RuleKind::ApprovalUnlimitedAllowance => {
            reveal_strlit("APPROVAL_UNLIMITED_ALLOWANCE");
            assert(k.spec_rule_id()[0] != "TOKEN_UNKNOWN_SOURCE_NETWORK"@[0]);
        },
        RuleKind::ReadyIntentMatch => {
            reveal_strlit("READY_INTENT_MATCH");
            assert(k.spec_rule_id().len() != "TOKEN_UNKNOWN_SOURCE_NETWORK"@.len());
        },
    }
}

/// Every reported hit is the hit of a rule that fired, or of READY_INTENT_MATCH when none did.
proof fn lemma_reported_hit_fired(i: Intent, r: Registries, j: int)
    requires
        0 <= j < spec_evaluate(i, r).rule_hits.len(),
    ensures
        exists|m: int|
            0 <= m < rules_or_ready(collected_rules(i, r)).len() && spec_evaluate(i, r).rule_hits[j]
                == (#[trigger] rules_or_ready(collected_rules(i, r))[m]).spec_hit(),
{
    let ror = rules_or_ready(collected_rules(i, r));
    let h = hits_of(ror);
    let s = with_decision(h, Decision::Stop);
    let v = with_decision(h, Decision::Review);
    let y = with_decision(h, Decision::Ready);
    lemma_with_decision_members(h, Decision::Stop);
    lemma_with_decision_members(h, Decision::Review);
    lemma_with_decision_members(h, Decision::Ready);
    let hits = spec_evaluate(i, r).rule_hits;
    let x = hits[j];
    if j < s.len() {
        assert(x == s[j]);
        assert(h.contains(s[j]));
    } else if j < s.len() + v.len() {
        assert(x == v[j - s.len()]);
        assert(h.contains(v[j - s.len()]));
    } else {
        assert(x == y[j - s.len() - v.len()]);
        assert(h.contains(y[j - s.len() - v.len()]));
    }
    let m = choose|m: int| 0 <= m < h.len() && h[m] == x;
    assert(h[m] == ror[m].spec_hit());
}

/// A source network rule among the asset checks means that the source network is given or
/// that the destination network is missing.
proof fn lemma_asset_source_rule(i: Intent, r: Registries, j: int)
    requires
        0 <= j < asset_hits(i, r).len(),
        asset_hits(i, r)[j] == RuleKind::TokenUnknownSourceNetwork || asset_hits(i, r)[j]
            == RuleKind::TokenMissingSourceNetwork,
    ensures
        trimmed_nonempty(opt_view(i.source_network)) is Some || trimmed_nonempty(
            opt_view(i.destination_network),
        ) is None,
{
    let h = asset_hits(i, r);
    match crate::validators::network::spec_norm(opt_view(i.asset_identifier)) {
        Some(id) => match crate::registries::lookup(r.tokens@, id) {
            Some(token) => {
                let s = symbol_hits(i, token);
                let rest = if i.action_type.moves_asset() {
                    source_network_hits(i, r, token) + destination_network_hits(i, r, token)
                } else {
                    seq![]
                };
                assert(h == s + rest);
                if j >= s.len() {
                    assert(h[j] == rest[j - s.len()]);
                    if i.action_type.moves_asset() {
                        let src = source_network_hits(i, r, token);
                        let dst = destination_network_hits(i, r, token);
                        if j - s.len() >= src.len() {
                            assert(rest[j - s.len()] == dst[j - s.len() - src.len()]);
                        }
                    }
                }
            },
            None => {},
        },
        None => {},
    }
}

/// On a network whose addresses ignore ASCII case (ethereum, base, bnb-smart-chain, as the
/// destination network names it, else the source network), entered and expected destination
/// addresses that agree once trimmed and ASCII lower-cased never raise
/// TRANSFER_DESTINATION_ADDRESS_MISMATCH.
pub proof fn law_evm_addresses_ignore_case(
    i: Intent,
    r: Registries,
    network_id: Seq<char>,
    entered: Seq<char>,
    expected: Seq<char>,
)
    requires
        network_id == "ethereum"@ || network_id == "base"@ || network_id == "bnb-smart-chain"@,
        match opt_view(i.destination_network) {
            Some(n) => crate::validators::network::spec_canonical_network_id(n, r) == Some(network_id),
            None => false,
        } || (match opt_view(i.destination_network) {
            Some(n) => crate::validators::network::spec_canonical_network_id(n, r) is None,
            None => true,
        } && match opt_view(i.source_network) {
            Some(n) => crate::validators::network::spec_canonical_network_id(n, r) == Some(network_id),
            None => false,
        }),
        opt_view(i.destination_address) == Some(entered),
        opt_view(i.expected_destination_address) == Some(expected),
        crate::text::lower(crate::text::trim(entered)) == crate::text::lower(
            crate::text::trim(expected),
        ),
    ensures
        forall|j: int|
            0 <= j < spec_evaluate(i, r).rule_hits.len() ==> (#[trigger] spec_evaluate(
                i,
                r,
            ).rule_hits[j]).rule_id != "TRANSFER_DESTINATION_ADDRESS_MISMATCH"@,
{
    let c = collected_rules(i, r);
    assert(crate::validators::address::spec_context_network_id(i, r) == Some(network_id));
    assert(address_mismatch_hits(i, r) == Seq::<RuleKind>::empty());
    assert forall|j: int| 0 <= j < spec_evaluate(i, r).rule_hits.len() implies (
    #[trigger] spec_evaluate(i, r).rule_hits[j]).rule_id != "TRANSFER_DESTINATION_ADDRESS_MISMATCH"@ by {
        lemma_reported_hit_fired(i, r, j);
        let ror = rules_or_ready(c);
        let m = choose|m: int|
            0 <= m < ror.len() && spec_evaluate(i, r).rule_hits[j] == (#[trigger] ror[m]).spec_hit();
        lemma_only_address_mismatch_id(ror[m]);
        if ror[m] == RuleKind::TransferDestinationAddressMismatch {
            assert(c.len() > 0);
            lemma_collected_segments(i, r, m);
            let t = spec_transfer_hits(i, r);
            let q = choose|q: int| 0 <= q < t.len() && t[q] == c[m];
            let b1 = empty_destination_hits(i);
            assert(t == b1 + address_mismatch_hits(i, r) + tag_hits(i, r));
            if q < b1.len() {
                assert(t[q] == b1[q]);
            } else {
                assert(t[q] == tag_hits(i, r)[q - b1.len()]);
            }
        }
    }
}

/// On a SEND or SWAP whose source network is missing or blank, a destination network that
/// is given means TOKEN_UNKNOWN_SOURCE_NETWORK is never raised: the source network is only
/// demanded when the destination network is missing too.
pub proof fn law_missing_source_allowed_with_destination(i: Intent, r: Registries)
    requires
        i.action_type.moves_asset(),
        match opt_view(i.source_network) {
            Some(s) => crate::text::trim(s).len() == 0,
            None => true,
        },
        match opt_view(i.destination_network) {
            Some(d) => crate::text::trim(d).len() > 0,
            None => false,
        },
    ensures
        forall|j: int|
            0 <= j < spec_evaluate(i, r).rule_hits.len() ==> (#[trigger] spec_evaluate(
                i,
                r,
            ).rule_hits[j]).rule_id != "TOKEN_UNKNOWN_SOURCE_NETWORK"@,
{
    let c = collected_rules(i, r);
    assert forall|j: int| 0 <= j < spec_evaluate(i, r).rule_hits.len() implies (
    #[trigger] spec_evaluate(i, r).rule_hits[j]).rule_id != "TOKEN_UNKNOWN_SOURCE_NETWORK"@ by {
        lemma_reported_hit_fired(i, r, j);
        let ror = rules_or_ready(c);
        let m = choose|m: int|
            0 <= m < ror.len() && spec_evaluate(i, r).rule_hits[j] == (#[trigger] ror[m]).spec_hit();
        lemma_only_source_network_id(ror[m]);
        if ror[m] == RuleKind::TokenUnknownSourceNetwork || ror[m] == RuleKind::TokenMissingSourceNetwork {
            assert(c.len() > 0);
            lemma_collected_segments(i, r, m);
            let t = spec_token_swap_hits(i, r);
            let q = choose|q: int| 0 <= q < t.len() && t[q] == c[m];
            let a = asset_hits(i, r);
            assert(t == a + swap_hits(i));
            if q < a.len() {
                assert(t[q] == a[q]);
                lemma_asset_source_rule(i, r, q);
            } else {
                assert(t[q] == swap_hits(i)[q - a.len()]);
            }
        }
    }
}


/// On a SEND or SWAP of a registered token whose source and destination networks are both
/// missing or blank, the evaluation stops with TOKEN_UNKNOWN_SOURCE_NETWORK among the hits.
pub proof fn law_missing_source_and_destination_stops(i: Intent, r: Registries, id: Seq<char>)
    requires
        i.action_type.moves_asset(),
        crate::validators::network::spec_norm(opt_view(i.asset_identifier)) == Some(id),
        crate::registries::lookup(r.tokens@, id) is Some,
        match opt_view(i.source_network) {
            Some(s) => crate::text::trim(s).len() == 0,
            None => true,
        },
        match opt_view(i.destination_network) {
            Some(d) => crate::text::trim(d).len() == 0,
            None => true,
        },
    ensures
        spec_evaluate(i, r).decision == Decision::Stop,
        exists|j: int|
            0 <= j < spec_evaluate(i, r).rule_hits.len() && (#[trigger] spec_evaluate(
                i,
                r,
            ).rule_hits[j]).rule_id == "TOKEN_UNKNOWN_SOURCE_NETWORK"@ && spec_evaluate(
                i,
                r,
            ).rule_hits[j].decision == Decision::Stop,
{
    let token = crate::registries::lookup(r.tokens@, id)->Some_0;
    let sym = symbol_hits(i, token);
    assert(source_network_hits(i, r, token) == seq![RuleKind::TokenMissingSourceNetwork]);
    let a = asset_hits(i, r);
    assert(a == sym + (source_network_hits(i, r, token) + destination_network_hits(i, r, token)));
    assert(a[sym.len() as int] == RuleKind::TokenMissingSourceNetwork);
    let t = spec_token_swap_hits(i, r);
    assert(t[sym.len() as int] == a[sym.len() as int]);
    let k = spec_security_hits(i).len() + spec_transfer_hits(i, r).len() + sym.len();
    assert(collected_rules(i, r)[k as int] == t[sym.len() as int]);
    law_any_stop_rule_stops(i, r, k as int);
    let hits = spec_evaluate(i, r).rule_hits;
    let j = choose|j: int|
        0 <= j < hits.len() && hits[j] == RuleKind::TokenMissingSourceNetwork.spec_hit();
    assert(hits[j].rule_id == "TOKEN_UNKNOWN_SOURCE_NETWORK"@);
}


/// Entered and expected destination addresses that differ once trimmed stop the evaluation
/// with TRANSFER_DESTINATION_ADDRESS_MISMATCH, unless the intent takes place on ethereum,
/// base or bnb-smart-chain and they differ in ASCII case alone.
pub proof fn law_address_mismatch_stops(
    i: Intent,
    r: Registries,
    entered: Seq<char>,
    expected: Seq<char>,
)
    requires
        opt_view(i.destination_address) == Some(entered),
        opt_view(i.expected_destination_address) == Some(expected),
        crate::text::lower(crate::text::trim(entered)) != crate::text::lower(
            crate::text::trim(expected),
        ) || (crate::text::trim(entered) != crate::text::trim(expected)
            && crate::validators::address::spec_context_network_id(i, r) != Some("ethereum"@)
            && crate::validators::address::spec_context_network_id(i, r) != Some("base"@)
            && crate::validators::address::spec_context_network_id(i, r) != Some(
            "bnb-smart-chain"@,
        )),
    ensures
        spec_evaluate(i, r).decision == Decision::Stop,
        exists|j: int|
            0 <= j < spec_evaluate(i, r).rule_hits.len() && (#[trigger] spec_evaluate(
                i,
                r,
            ).rule_hits[j]).rule_id == "TRANSFER_DESTINATION_ADDRESS_MISMATCH"@ && spec_evaluate(
                i,
                r,
            ).rule_hits[j].decision == Decision::Stop,
{
    assert(address_mismatch_hits(i, r) == seq![RuleKind::TransferDestinationAddressMismatch]);
    let k = spec_security_hits(i).len() + empty_destination_hits(i).len();
    assert(collected_rules(i, r)[k as int] == address_mismatch_hits(i, r)[0]);
    law_any_stop_rule_stops(i, r, k as int);
    let hits = spec_evaluate(i, r).rule_hits;
    let j = choose|j: int|
        0 <= j < hits.len() && hits[j] == RuleKind::TransferDestinationAddressMismatch.spec_hit();
    assert(hits[j].rule_id == "TRANSFER_DESTINATION_ADDRESS_MISMATCH"@);
}

/// An approval whose scope is missing, blank, or `unknown` in any ASCII case stops with
/// APPROVAL_MISSING_SCOPE among the hits.
pub proof fn law_undetermined_scope_stops(i: Intent, r: Registries)
    requires
        i.action_type == ActionType::Approve,
        match opt_view(i.approval_amount_or_scope) {
            Some(scope) => crate::text::trim(scope).len() == 0 || crate::text::lower(
                crate::text::trim(scope),
            ) == "unknown"@,
            None => true,
        },
    ensures
        spec_evaluate(i, r).decision == Decision::Stop,
        exists|j: int|
            0 <= j < spec_evaluate(i, r).rule_hits.len() && (#[trigger] spec_evaluate(
                i,
                r,
            ).rule_hits[j]).rule_id == "APPROVAL_MISSING_SCOPE"@ && spec_evaluate(
                i,
                r,
            ).rule_hits[j].decision == Decision::Stop,
{
    let c = collected_rules(i, r);
    let k = c.len() - 1;
    assert(spec_approval_hits(i) == seq![RuleKind::ApprovalMissingScope]);
    assert(c[k] == spec_approval_hits(i)[0]);
    law_any_stop_rule_stops(i, r, k);
    let hits = spec_evaluate(i, r).rule_hits;
    let j = choose|j: int| 0 <= j < hits.len() && hits[j] == RuleKind::ApprovalMissingScope.spec_hit();
    assert(hits[j].rule_id == "APPROVAL_MISSING_SCOPE"@);
}

} // verus!
