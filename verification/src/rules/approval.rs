//! Token approvals: missing scope and unlimited allowances.
use vstd::prelude::*;

use crate::intent::{ActionType, Intent};
use crate::rules::RuleKind;
use crate::text::{contains, contains_str, lower, lower_chars, opt_view, trimmed_nonempty, trimmed_nonempty_exec};
use crate::validators::allowance::{is_uint256_max, spec_is_uint256_max};

verus! {

/// The approval scope grants an unlimited allowance: it mentions unlimited, infinite, max,
/// maximum, uint256::max or u256::max (ignoring ASCII case), or is the uint256 maximum.
pub open spec fn spec_is_unlimited_scope(scope: Seq<char>) -> bool {
    let s = lower(scope);
    ||| contains(s, "unlimited"@)
    ||| contains(s, "infinite"@)
    ||| contains(s, "max"@)
    ||| contains(s, "maximum"@)
    ||| contains(s, "uint256::max"@)
    ||| contains(s, "u256::max"@)
    ||| spec_is_uint256_max(scope)
}

/// The approval scope is stated as `unknown` (ignoring ASCII case).
pub open spec fn spec_is_unknown_scope(scope: Seq<char>) -> bool {
    lower(scope) == "unknown"@
}

/// The hits of the approval rules: a missing, blank or `unknown` scope leaves the approval
/// undetermined; otherwise an unlimited scope stops.
pub open spec fn spec_approval_hits(i: Intent) -> Seq<RuleKind> {
    if i.action_type == ActionType::Approve {
        match trimmed_nonempty(opt_view(i.approval_amount_or_scope)) {
            None => seq![RuleKind::ApprovalMissingScope],
            Some(scope) => if spec_is_unknown_scope(scope) {
                seq![RuleKind::ApprovalMissingScope]
            } else if spec_is_unlimited_scope(scope) {
                seq![RuleKind::ApprovalUnlimitedAllowance]
            } else {
                seq![]
            },
        }
    } else {
        seq![]
    }
}

/// Adds a STOP hit for an approval whose scope is missing, blank, unknown or unlimited.
pub fn approval_rules(intent: &Intent, hits: &mut Vec<RuleKind>)
    ensures
        final(hits)@ == old(hits)@ + spec_approval_hits(*intent),
{
    if intent.action_type == ActionType::Approve {
        let scope = trimmed_nonempty_exec(&intent.approval_amount_or_scope);
        match scope {
            None => {
                hits.push(RuleKind::ApprovalMissingScope);
                return;
            },
            Some(scope) => {
                let s = lower_chars(&scope);
                if crate::text::chars_equal_str(&s, "unknown") {
                    hits.push(RuleKind::ApprovalMissingScope);
                    return;
                }
                if contains_str(&s, "unlimited") || contains_str(&s, "infinite") || contains_str(
                    &s,
                    "max",
                ) || contains_str(&s, "maximum") || contains_str(&s, "uint256::max")
                    || contains_str(&s, "u256::max") || is_uint256_max(&scope) {
                    hits.push(RuleKind::ApprovalUnlimitedAllowance);
                    return;
                }
            },
        }
    }
    assert(hits@ =~= hits@ + seq![]);
}

} // verus!
