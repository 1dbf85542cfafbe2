//! Transfers: destination address presence and agreement, destination tag or memo.
use vstd::prelude::*;

use crate::intent::{ActionType, Intent};
use crate::registries::Registries;
use crate::rules::RuleKind;
use crate::text::{chars_equal, chars_of, opt_view, trim, trim_chars, trimmed_nonempty};
use crate::validators::address::{
    destination_addresses_match, resolved_expected_tag, spec_destination_addresses_match,
    spec_resolved_expected_tag,
};

verus! {

/// Missing destination address on a SEND or SWAP.
pub open spec fn empty_destination_hits(i: Intent) -> Seq<RuleKind> {
    if i.action_type.moves_asset() && trimmed_nonempty(opt_view(i.destination_address)) is None {
        seq![RuleKind::TransferEmptyDestinationAddress]
    } else {
        seq![]
    }
}

/// Entered and expected destination addresses that disagree.
pub open spec fn address_mismatch_hits(i: Intent, r: Registries) -> Seq<RuleKind> {
    match (opt_view(i.destination_address), opt_view(i.expected_destination_address)) {
        (Some(a), Some(e)) => if !spec_destination_addresses_match(i, a, e, r) {
            seq![RuleKind::TransferDestinationAddressMismatch]
        } else {
            seq![]
        },
        _ => seq![],
    }
}

/// On a SEND to a destination that expects a tag or memo: the entered tag is missing,
/// blank, or different once trimmed.
pub open spec fn tag_hits(i: Intent, r: Registries) -> Seq<RuleKind> {
    if i.action_type == ActionType::Send {
        match trimmed_nonempty(spec_resolved_expected_tag(i, r)) {
            Some(expected) => match opt_view(i.entered_destination_tag_or_memo) {
                None => seq![RuleKind::TransferMissingDestinationTag],
                Some(entered) => if trim(entered).len() == 0 {
                    seq![RuleKind::TransferMissingDestinationTag]
                } else if trim(entered) != expected {
                    seq![RuleKind::TransferDestinationTagMismatch]
                } else {
                    seq![]
                },
            },
            None => seq![],
        }
    } else {
        seq![]
    }
}

/// The hits of the transfer rules.
pub open spec fn spec_transfer_hits(i: Intent, r: Registries) -> Seq<RuleKind> {
    empty_destination_hits(i) + address_mismatch_hits(i, r) + tag_hits(i, r)
}

/// Adds the hits of the transfer rules.
pub fn transfer_rules(intent: &Intent, registries: &Registries, hits: &mut Vec<RuleKind>)
    ensures
        final(hits)@ == old(hits)@ + spec_transfer_hits(*intent, *registries),
{
    let ghost start = hits@;
    if intent.action_type == ActionType::Send || intent.action_type == ActionType::Swap {
        let has_destination = crate::text::trimmed_nonempty_exec(&intent.destination_address).is_some();
        if !has_destination {
            hits.push(RuleKind::TransferEmptyDestinationAddress);
        }
    }
    assert(hits@ =~= start + empty_destination_hits(*intent));
    let ghost after_first = hits@;
    match (&intent.destination_address, &intent.expected_destination_address) {
        (Some(a), Some(e)) => {
            if !destination_addresses_match(intent, &chars_of(a.as_str()), &chars_of(e.as_str()), registries) {
                hits.push(RuleKind::TransferDestinationAddressMismatch);
            }
        },
        _ => {},
    }
    assert(hits@ =~= after_first + address_mismatch_hits(*intent, *registries));
    let ghost after_second = hits@;
    if intent.action_type == ActionType::Send {
        let expected = match resolved_expected_tag(intent, registries) {
            Some(v) => {
                let t = trim_chars(&v);
                if t.len() > 0 {
                    Some(t)
                } else {
                    None
                }
            },
            None => None,
        };
        match expected {
            Some(expected_tag) => match &intent.entered_destination_tag_or_memo {
                None => hits.push(RuleKind::TransferMissingDestinationTag),
                Some(entered) => {
                    let entered_tag = trim_chars(&chars_of(entered.as_str()));
                    if entered_tag.len() == 0 {
                        hits.push(RuleKind::TransferMissingDestinationTag);
                    } else if !chars_equal(&entered_tag, &expected_tag) {
                        hits.push(RuleKind::TransferDestinationTagMismatch);
                    }
                },
            },
            None => {},
        }
    }
    assert(hits@ =~= after_second + tag_hits(*intent, *registries));
}

} // verus!
