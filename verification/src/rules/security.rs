//! Requests that seek a seed phrase or a private key.
use vstd::prelude::*;

use crate::intent::Intent;
use crate::rules::RuleKind;
use crate::text::{chars_of, contains, contains_str, lower, lower_chars, opt_view};

verus! {

/// The text, ASCII lower-cased, mentions a seed phrase, mnemonic, recovery phrase or
/// private key.
pub open spec fn spec_contains_sensitive_request(value: Seq<char>) -> bool {
    let l = lower(value);
    ||| contains(l, "seed phrase"@)
    ||| contains(l, "seed-phrase"@)
    ||| contains(l, "mnemonic"@)
    ||| contains(l, "recovery phrase"@)
    ||| contains(l, "private key"@)
    ||| contains(l, "private-key"@)
    ||| contains(l, "privkey"@)
}

/// An optional field is present and mentions a sensitive request.
pub open spec fn field_is_sensitive(o: Option<Seq<char>>) -> bool {
    match o {
        Some(v) => spec_contains_sensitive_request(v),
        None => false,
    }
}

/// Some text field of the intent mentions a sensitive request.
pub open spec fn intent_is_sensitive(i: Intent) -> bool {
    ||| field_is_sensitive(opt_view(i.source_network))
    ||| field_is_sensitive(opt_view(i.destination_network))
    ||| field_is_sensitive(opt_view(i.asset_symbol))
    ||| field_is_sensitive(opt_view(i.asset_identifier))
    ||| field_is_sensitive(opt_view(i.destination_address))
    ||| field_is_sensitive(opt_view(i.expected_destination_address))
    ||| field_is_sensitive(opt_view(i.entered_destination_tag_or_memo))
    ||| field_is_sensitive(opt_view(i.expected_destination_tag_or_memo))
    ||| field_is_sensitive(opt_view(i.contract_address))
    ||| field_is_sensitive(opt_view(i.approval_amount_or_scope))
    ||| field_is_sensitive(opt_view(i.transaction_origin))
}

/// The hits of the security rules.
pub open spec fn spec_security_hits(i: Intent) -> Seq<RuleKind> {
    if intent_is_sensitive(i) {
        seq![RuleKind::SecuritySeedOrPrivateKeyRequest]
    } else {
        seq![]
    }
}

/// Whether the text mentions a seed phrase, mnemonic, recovery phrase or private key.
pub fn contains_sensitive_request(value: &str) -> (r: bool)
    ensures
        r == spec_contains_sensitive_request(value@),
{
    let lowered = lower_chars(&chars_of(value));
    contains_str(&lowered, "seed phrase") || contains_str(&lowered, "seed-phrase") || contains_str(
        &lowered,
        "mnemonic",
    ) || contains_str(&lowered, "recovery phrase") || contains_str(&lowered, "private key")
        || contains_str(&lowered, "private-key") || contains_str(&lowered, "privkey")
}

fn field_sensitive(o: &Option<String>) -> (r: bool)
    ensures
        r == field_is_sensitive(opt_view(*o)),
{
    match o {
        Some(v) => contains_sensitive_request(v.as_str()),
        None => false,
    }
}

/// Adds a STOP hit when any text field of the intent seeks a seed phrase or private key.
pub fn security_rules(intent: &Intent, hits: &mut Vec<RuleKind>)
    ensures
        final(hits)@ == old(hits)@ + spec_security_hits(*intent),
{
    if field_sensitive(&intent.source_network) || field_sensitive(&intent.destination_network)
        || field_sensitive(&intent.asset_symbol) || field_sensitive(&intent.asset_identifier)
        || field_sensitive(&intent.destination_address) || field_sensitive(
        &intent.expected_destination_address,
    ) || field_sensitive(&intent.entered_destination_tag_or_memo) || field_sensitive(
        &intent.expected_destination_tag_or_memo,
    ) || field_sensitive(&intent.contract_address) || field_sensitive(
        &intent.approval_amount_or_scope,
    ) || field_sensitive(&intent.transaction_origin) {
        hits.push(RuleKind::SecuritySeedOrPrivateKeyRequest);
    } else {
        assert(hits@ =~= hits@ + seq![]);
    }
}

} // verus!
