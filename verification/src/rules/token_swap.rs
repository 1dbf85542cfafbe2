//! Tokens and swaps: registry lookups, network support, lookalike symbols and slippage.
use vstd::prelude::*;

use crate::intent::{ActionType, Intent};
use crate::registries::{find_key_exec, has_str, has_str_exec, lookup, Registries, Token};
use crate::rules::RuleKind;
use crate::text::{
    chars_equal_str, chars_of, opt_view, trim, trim_chars, trimmed_nonempty,
    trimmed_nonempty_exec, upper, upper_chars,
};
use crate::validators::network::{canonical_network_id, norm, spec_canonical_network_id, spec_norm};
use crate::validators::slippage::{slippage_rule, spec_slippage_rule};

verus! {

/// The stated symbol, trimmed and ASCII upper-cased.
pub open spec fn symbol_text(sym: Seq<char>) -> Seq<char> {
    upper(trim(sym))
}

/// A stated symbol that differs from the registered token's symbol.
pub open spec fn symbol_hits(i: Intent, token: Token) -> Seq<RuleKind> {
    match opt_view(i.asset_symbol) {
        Some(sym) => if symbol_text(sym).len() > 0 && symbol_text(sym) != token.symbol@ {
            seq![RuleKind::TokenAssetSymbolMismatch]
        } else {
            seq![]
        },
        None => seq![],
    }
}

/// The source network of a SEND or SWAP: unknown, unsupported by the token, or missing
/// while the destination network is missing too.
pub open spec fn source_network_hits(i: Intent, r: Registries, token: Token) -> Seq<RuleKind> {
    match trimmed_nonempty(opt_view(i.source_network)) {
        Some(source) => match spec_canonical_network_id(source, r) {
            Some(id) => if has_str(token.networks@, id) {
                seq![]
            } else {
                seq![RuleKind::TokenUnsupportedSourceNetwork]
            },
            None => seq![RuleKind::TokenUnknownSourceNetwork],
        },
        None => if trimmed_nonempty(opt_view(i.destination_network)) is None {
            seq![RuleKind::TokenMissingSourceNetwork]
        } else {
            seq![]
        },
    }
}

/// The destination network of a SEND or SWAP: unknown or unsupported by the token.
pub open spec fn destination_network_hits(i: Intent, r: Registries, token: Token) -> Seq<RuleKind> {
    match trimmed_nonempty(opt_view(i.destination_network)) {
        Some(destination) => match spec_canonical_network_id(destination, r) {
            Some(id) => if has_str(token.networks@, id) {
                seq![]
            } else {
                seq![RuleKind::TokenUnsupportedDestinationNetwork]
            },
            None => seq![RuleKind::TokenUnknownDestinationNetwork],
        },
        None => seq![],
    }
}

/// A familiar symbol, as `rule` reports it; nothing for an unfamiliar or absent symbol.
pub open spec fn familiar_symbol_hits(i: Intent, r: Registries, rule: RuleKind) -> Seq<RuleKind> {
    match opt_view(i.asset_symbol) {
        Some(sym) => if has_str(r.familiar_symbols@, symbol_text(sym)) {
            seq![rule]
        } else {
            seq![]
        },
        None => seq![],
    }
}

/// The asset checks: for a registered token its symbol and, on SEND or SWAP, its networks;
/// for an unregistered identifier a familiar symbol; with no identifier a familiar symbol.
pub open spec fn asset_hits(i: Intent, r: Registries) -> Seq<RuleKind> {
    match spec_norm(opt_view(i.asset_identifier)) {
        Some(id) => match lookup(r.tokens@, id) {
            Some(token) => symbol_hits(i, token) + if i.action_type.moves_asset() {
                source_network_hits(i, r, token) + destination_network_hits(i, r, token)
            } else {
                seq![]
            },
            None => familiar_symbol_hits(i, r, RuleKind::TokenUnknownFamiliarSymbol),
        },
        None => familiar_symbol_hits(i, r, RuleKind::TokenMissingAssetIdentifier),
    }
}

/// The slippage check of a SWAP.
pub open spec fn swap_hits(i: Intent) -> Seq<RuleKind> {
    if i.action_type == ActionType::Swap {
        match spec_slippage_rule(i.swap_slippage_percent_bits) {
            Some(rule) => seq![rule],
            None => seq![],
        }
    } else {
        seq![]
    }
}

/// The hits of the token and swap rules.
pub open spec fn spec_token_swap_hits(i: Intent, r: Registries) -> Seq<RuleKind> {
    asset_hits(i, r) + swap_hits(i)
}

/// Adds a hit when the intent has a familiar symbol.
fn familiar_symbol_rule(intent: &Intent, registries: &Registries, rule: RuleKind, hits: &mut Vec<RuleKind>)
    ensures
        final(hits)@ == old(hits)@ + familiar_symbol_hits(*intent, *registries, rule),
{
    if let Some(sym) = &intent.asset_symbol {
        let symbol = upper_chars(&trim_chars(&chars_of(sym.as_str())));
        if has_str_exec(&registries.familiar_symbols, &symbol) {
            hits.push(rule);
            return;
        }
    }
    assert(hits@ =~= hits@ + seq![]);
}

/// Adds the hits for one network of a SEND or SWAP: `unknown` when the given network does
/// not resolve, `unsupported` when the token is not on it. Says whether a network was given.
fn network_rule(
    network: &Option<String>,
    registries: &Registries,
    token: &Token,
    unknown: RuleKind,
    unsupported: RuleKind,
    hits: &mut Vec<RuleKind>,
) -> (resolved: bool)
    ensures
        resolved == (trimmed_nonempty(opt_view(*network)) is Some),
        final(hits)@ == old(hits)@ + match trimmed_nonempty(opt_view(*network)) {
            Some(n) => match spec_canonical_network_id(n, *registries) {
                Some(id) => if has_str(token.networks@, id) {
                    seq![]
                } else {
                    seq![unsupported]
                },
                None => seq![unknown],
            },
            None => seq![],
        },
{
    match trimmed_nonempty_exec(network) {
        Some(n) => {
            match canonical_network_id(&n, registries) {
                Some(id) => {
                    if !has_str_exec(&token.networks, &chars_of(id)) {
                        hits.push(unsupported);
                    } else {
                        assert(hits@ =~= hits@ + seq![]);
                    }
                },
                None => hits.push(unknown),
            }
            true
        },
        None => {
            assert(hits@ =~= hits@ + seq![]);
            false
        },
    }
}

/// Adds the hits of the token and swap rules.
pub fn token_swap_rules(intent: &Intent, registries: &Registries, hits: &mut Vec<RuleKind>)
    ensures
        final(hits)@ == old(hits)@ + spec_token_swap_hits(*intent, *registries),
{
    let ghost start = hits@;
    match norm(&intent.asset_identifier) {
        Some(id) => match find_key_exec(&registries.tokens, &id) {
            Some(k) => {
                let token = &registries.tokens[k].1;
                if let Some(sym) = &intent.asset_symbol {
                    let symbol = upper_chars(&trim_chars(&chars_of(sym.as_str())));
                    if symbol.len() > 0 && !chars_equal_str(&symbol, token.symbol) {
                        hits.push(RuleKind::TokenAssetSymbolMismatch);
                    }
                }
                assert(hits@ =~= start + symbol_hits(*intent, *token));
                let ghost after_symbol = hits@;
                if intent.action_type == ActionType::Send || intent.action_type == ActionType::Swap {
                    let has_source = network_rule(
                        &intent.source_network,
                        registries,
                        token,
                        RuleKind::TokenUnknownSourceNetwork,
                        RuleKind::TokenUnsupportedSourceNetwork,
                        hits,
                    );
                    let ghost after_source_lookup = hits@;
                    if !has_source && trimmed_nonempty_exec(&intent.destination_network).is_none() {
                        hits.push(RuleKind::TokenMissingSourceNetwork);
                    }
                    assert(hits@ =~= after_symbol + source_network_hits(*intent, *registries, *token));
                    let ghost after_source = hits@;
                    network_rule(
                        &intent.destination_network,
                        registries,
                        token,
                        RuleKind::TokenUnknownDestinationNetwork,
                        RuleKind::TokenUnsupportedDestinationNetwork,
                        hits,
                    );
                    assert(hits@ =~= after_source + destination_network_hits(*intent, *registries, *token));
                }
                assert(hits@ =~= start + asset_hits(*intent, *registries));
            },
            None => {
                familiar_symbol_rule(intent, registries, RuleKind::TokenUnknownFamiliarSymbol, hits);
            },
        },
        None => {
            familiar_symbol_rule(intent, registries, RuleKind::TokenMissingAssetIdentifier, hits);
        },
    }
    assert(hits@ =~= start + asset_hits(*intent, *registries));
    let ghost after_asset = hits@;
    if intent.action_type == ActionType::Swap {
        match slippage_rule(intent.swap_slippage_percent_bits) {
            Some(rule) => hits.push(rule),
            None => {},
        }
    }
    assert(hits@ =~= after_asset + swap_hits(*intent));
}

} // verus!
