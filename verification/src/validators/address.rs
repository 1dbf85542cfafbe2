//! Destination addresses and the destination tag or memo that a deposit account expects.
use vstd::prelude::*;

use crate::intent::Intent;
use crate::registries::{
    first_index, lemma_first_index_suffix, shift, DepositProfile,
    Registries,
};
use crate::text::{
    chars_eq_ignore_ascii_case, chars_equal, chars_of, eq_ignore_ascii_case, opt_view, trim,
    trim_chars, trimmed_nonempty, trimmed_nonempty_exec,
};
use crate::validators::network::{
    canonical_network_id, network_matches, spec_canonical_network_id, spec_network_matches,
};

verus! {

/// The networks on which addresses are compared without regard to ASCII case.
pub open spec fn spec_is_evm_network(network_id: Seq<char>) -> bool {
    network_id == "ethereum"@ || network_id == "base"@ || network_id == "bnb-smart-chain"@
}

/// The network an intent takes place on: its destination network where that resolves,
/// else its source network where that resolves.
pub open spec fn spec_context_network_id(intent: Intent, r: Registries) -> Option<Seq<char>> {
    let from_destination = match opt_view(intent.destination_network) {
        Some(n) => spec_canonical_network_id(n, r),
        None => None,
    };
    match from_destination {
        Some(id) => Some(id),
        None => match opt_view(intent.source_network) {
            Some(n) => spec_canonical_network_id(n, r),
            None => None,
        },
    }
}

/// Entered and expected addresses agree once trimmed: ignoring ASCII case on EVM networks,
/// exactly elsewhere.
pub open spec fn spec_destination_addresses_match(
    intent: Intent,
    entered: Seq<char>,
    expected: Seq<char>,
    r: Registries,
) -> bool {
    match spec_context_network_id(intent, r) {
        Some(id) => if spec_is_evm_network(id) {
            eq_ignore_ascii_case(trim(entered), trim(expected))
        } else {
            trim(entered) == trim(expected)
        },
        None => trim(entered) == trim(expected),
    }
}

/// A destination address is the deposit account's address: exactly on the XRP Ledger,
/// ignoring ASCII case elsewhere.
pub open spec fn spec_destination_matches_profile(
    destination: Seq<char>,
    deposit: DepositProfile,
    r: Registries,
) -> bool {
    if spec_canonical_network_id(deposit.network@, r) == Some("xrpl"@) {
        destination == deposit.destination_address@
    } else {
        eq_ignore_ascii_case(deposit.destination_address@, destination)
    }
}

/// Some deposit account has the destination address and sits on the network `network` names.
pub open spec fn deposit_on_network(destination: Seq<char>, network: Seq<char>, r: Registries) -> bool {
    exists|k: int|
        0 <= k < r.deposits@.len() && spec_destination_matches_profile(
            destination,
            #[trigger] r.deposits@[k],
            r,
        ) && spec_network_matches(network, r.deposits@[k].network@, r)
}

/// The optional text `o`, trimmed and kept only where it is not empty.
pub open spec fn tag_of(o: Option<&'static str>) -> Option<Seq<char>> {
    match o {
        Some(t) => trimmed_nonempty(Some(t@)),
        None => None,
    }
}

/// A deposit account with the destination address that names a tag or memo.
pub open spec fn deposit_with_tag(destination: Seq<char>, r: Registries) -> spec_fn(DepositProfile) -> bool {
    |d: DepositProfile| spec_destination_matches_profile(destination, d, r) && tag_of(d.expected_tag_or_memo) is Some
}

/// `resolved_expected_tag`: when the (trimmed, non-empty) destination address is a deposit
/// account on the destination or source network, the tag of the first such account that
/// names one; otherwise the tag the intent itself expects.
pub open spec fn spec_resolved_expected_tag(intent: Intent, r: Registries) -> Option<Seq<char>> {
    match trimmed_nonempty(opt_view(intent.destination_address)) {
        None => None,
        Some(destination) => {
            let on_destination = match opt_view(intent.destination_network) {
                Some(n) => deposit_on_network(destination, n, r),
                None => false,
            };
            let on_source = match opt_view(intent.source_network) {
                Some(n) => deposit_on_network(destination, n, r),
                None => false,
            };
            if on_destination || on_source {
                match first_index(r.deposits@, deposit_with_tag(destination, r)) {
                    Some(k) => tag_of(r.deposits@[k].expected_tag_or_memo),
                    None => None,
                }
            } else {
                trimmed_nonempty(opt_view(intent.expected_destination_tag_or_memo))
            }
        },
    }
}

/// Whether `network_id` is one of the EVM networks.
pub fn is_evm_network(network_id: &str) -> (r: bool)
    ensures
        r == spec_is_evm_network(network_id@),
{
    let v = chars_of(network_id);
    crate::text::chars_equal_str(&v, "ethereum") || crate::text::chars_equal_str(&v, "base")
        || crate::text::chars_equal_str(&v, "bnb-smart-chain")
}

/// The registered network an intent takes place on.
fn normalized_context_network_id(intent: &Intent, registries: &Registries) -> (r: Option<&'static str>)
    ensures
        match r {
            Some(id) => spec_context_network_id(*intent, *registries) == Some(id@),
            None => spec_context_network_id(*intent, *registries) is None,
        },
{
    let from_destination = match &intent.destination_network {
        Some(n) => canonical_network_id(&chars_of(n.as_str()), registries),
        None => None,
    };
    match from_destination {
        Some(id) => Some(id),
        None => match &intent.source_network {
            Some(n) => canonical_network_id(&chars_of(n.as_str()), registries),
            None => None,
        },
    }
}

/// Whether the entered address is the expected one under the intent's network conventions.
pub fn destination_addresses_match(
    intent: &Intent,
    entered: &Vec<char>,
    expected: &Vec<char>,
    registries: &Registries,
) -> (r: bool)
    ensures
        r == spec_destination_addresses_match(*intent, entered@, expected@, *registries),
{
    let entered = trim_chars(entered);
    let expected = trim_chars(expected);
    match normalized_context_network_id(intent, registries) {
        Some(network_id) => if is_evm_network(network_id) {
            chars_eq_ignore_ascii_case(&entered, &expected)
        } else {
            chars_equal(&entered, &expected)
        },
        None => chars_equal(&entered, &expected),
    }
}

/// Whether a destination address is the deposit account's address.
pub fn destination_matches_profile(
    destination_address: &Vec<char>,
    deposit: &DepositProfile,
    registries: &Registries,
) -> (r: bool)
    ensures
        r == spec_destination_matches_profile(destination_address@, *deposit, *registries),
{
    let is_xrpl = match canonical_network_id(&chars_of(deposit.network), registries) {
        Some(id) => crate::text::chars_equal_str(&chars_of(id), "xrpl"),
        None => false,
    };
    let address = chars_of(deposit.destination_address);
    if is_xrpl {
        chars_equal(destination_address, &address)
    } else {
        chars_eq_ignore_ascii_case(&address, destination_address)
    }
}

/// Whether some deposit account has the destination address on the network `network` names.
fn any_deposit_on_network(destination: &Vec<char>, network: &Vec<char>, registries: &Registries) -> (r: bool)
    ensures
        r == deposit_on_network(destination@, network@, *registries),
{
    let deposits = &registries.deposits;
    let mut k: usize = 0;
    while k < deposits.len()
        invariant
            k <= deposits@.len(),
            deposits == &registries.deposits,
            forall|m: int|
                0 <= m < k ==> !(spec_destination_matches_profile(
                    destination@,
                    #[trigger] deposits@[m],
                    *registries,
                ) && spec_network_matches(network@, deposits@[m].network@, *registries)),
        decreases deposits@.len() - k,
    {
        if destination_matches_profile(destination, &deposits[k], registries) && network_matches(
            network,
            &chars_of(deposits[k].network),
            registries,
        ) {
            return true;
        }
        k = k + 1;
    }
    false
}

/// The tag or memo of a deposit account, trimmed, where it names one.
fn deposit_tag(o: Option<&'static str>) -> (r: Option<Vec<char>>)
    ensures
        match r {
            Some(v) => tag_of(o) == Some(v@),
            None => tag_of(o) is None,
        },
{
    match o {
        Some(t) => {
            let v = trim_chars(&chars_of(t));
            if v.len() > 0 {
                Some(v)
            } else {
                None
            }
        },
        None => None,
    }
}

/// The tag of the first deposit account with the destination address that names one.
fn first_deposit_tag(destination: &Vec<char>, registries: &Registries) -> (r: Option<Vec<char>>)
    ensures
        match first_index(registries.deposits@, deposit_with_tag(destination@, *registries)) {
            Some(k) => r is Some && tag_of(registries.deposits@[k].expected_tag_or_memo) == Some(r->0@),
            None => r is None,
        },
{
    let ghost p = deposit_with_tag(destination@, *registries);
    let deposits = &registries.deposits;
    let mut k: usize = 0;
    assert(deposits@.subrange(0, deposits@.len() as int) =~= deposits@);
    while k < deposits.len()
        invariant
            k <= deposits@.len(),
            deposits == &registries.deposits,
            p == deposit_with_tag(destination@, *registries),
            first_index(deposits@, p) == shift(
                first_index(deposits@.subrange(k as int, deposits@.len() as int), p),
                k as int,
            ),
        decreases deposits@.len() - k,
    {
        proof {
            lemma_first_index_suffix(deposits@, p, k as int);
        }
        if destination_matches_profile(destination, &deposits[k], registries) {
            let tag = deposit_tag(deposits[k].expected_tag_or_memo);
            if tag.is_some() {
                assert(p(deposits@[k as int]));
                return tag;
            }
        }
        k = k + 1;
    }
    None
}

/// The destination tag or memo that the intent's destination expects.
pub fn resolved_expected_tag(intent: &Intent, registries: &Registries) -> (r: Option<Vec<char>>)
    ensures
        match r {
            Some(v) => spec_resolved_expected_tag(*intent, *registries) == Some(v@),
            None => spec_resolved_expected_tag(*intent, *registries) is None,
        },
{
    let destination = match trimmed_nonempty_exec(&intent.destination_address) {
        Some(d) => d,
        None => return None,
    };
    let on_destination = match &intent.destination_network {
        Some(n) => any_deposit_on_network(&destination, &chars_of(n.as_str()), registries),
        None => false,
    };
    let on_source = match &intent.source_network {
        Some(n) => any_deposit_on_network(&destination, &chars_of(n.as_str()), registries),
        None => false,
    };
    if on_destination || on_source {
        return first_deposit_tag(&destination, registries);
    }
    trimmed_nonempty_exec(&intent.expected_destination_tag_or_memo)
}

} // verus!
