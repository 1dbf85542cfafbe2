//! Signatures that touch unsolicited assets or unexpected airdrop contracts.
use vstd::prelude::*;

use crate::intent::{ActionType, Intent};
use crate::registries::{find_key_exec, lookup, Registries};
use crate::rules::RuleKind;
use crate::text::{opt_view, trimmed_nonempty, trimmed_nonempty_exec};

verus! {

/// A contract address that is missing, unknown to the registry or not trusted.
pub open spec fn untrusted_or_missing(address: Option<Seq<char>>, r: Registries) -> bool {
    match address {
        None => true,
        Some(a) => match lookup(r.contracts@, a) {
            Some(profile) => !profile.trusted,
            None => true,
        },
    }
}

/// The hits of the signature rules.
pub open spec fn spec_signature_hits(i: Intent, r: Registries) -> Seq<RuleKind> {
    if i.action_type == ActionType::Sign && i.asset_was_unsolicited && untrusted_or_missing(
        trimmed_nonempty(opt_view(i.contract_address)),
        r,
    ) {
        seq![RuleKind::SignUnexpectedAirdropInteraction]
    } else {
        seq![]
    }
}

/// Adds a STOP hit when an unsolicited-asset signature touches a contract that is missing,
/// unknown or untrusted.
pub fn signature_rules(intent: &Intent, registries: &Registries, hits: &mut Vec<RuleKind>)
    ensures
        final(hits)@ == old(hits)@ + spec_signature_hits(*intent, *registries),
{
    if intent.action_type == ActionType::Sign && intent.asset_was_unsolicited {
        let contract_address = trimmed_nonempty_exec(&intent.contract_address);
        let is_untrusted_or_missing = match contract_address {
            None => true,
            Some(address) => match find_key_exec(&registries.contracts, &address) {
                Some(k) => !registries.contracts[k].1.trusted,
                None => true,
            },
        };
        if is_untrusted_or_missing {
            hits.push(RuleKind::SignUnexpectedAirdropInteraction);
            return;
        }
    }
    assert(hits@ =~= hits@ + seq![]);
}

} // verus!
