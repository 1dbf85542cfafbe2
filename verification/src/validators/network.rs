//! Network names: normalisation and resolution against the network registry.
use vstd::prelude::*;

use crate::registries::{first_index, lemma_first_index_suffix, shift, Network, Registries};
use crate::text::{
    chars_equal, chars_of, lower, lower_chars, opt_view, trim, trim_chars,
};

verus! {

/// `norm`: an optional value trimmed and ASCII lower-cased, kept only where it is not empty.
pub open spec fn spec_norm(o: Option<Seq<char>>) -> Option<Seq<char>> {
    match o {
        Some(v) => if lower(trim(v)).len() > 0 {
            Some(lower(trim(v)))
        } else {
            None
        },
        None => None,
    }
}

/// The characters that network-name normalisation drops.
pub open spec fn is_name_separator(c: char) -> bool {
    c == ' ' || c == '-' || c == '_'
}

/// `s` without its separator characters, in order.
pub open spec fn drop_separators(s: Seq<char>) -> Seq<char>
    decreases s.len(),
{
    if s.len() == 0 {
        s
    } else if is_name_separator(s.last()) {
        drop_separators(s.drop_last())
    } else {
        drop_separators(s.drop_last()).push(s.last())
    }
}

/// `normalize_text`: trimmed, ASCII lower-cased, with spaces, hyphens and underscores removed.
pub open spec fn spec_normalize_text(s: Seq<char>) -> Seq<char> {
    drop_separators(lower(trim(s)))
}

/// A network answers to the normalised name `candidate` through its id, its display name or
/// one of its aliases.
pub open spec fn network_answers_to(candidate: Seq<char>) -> spec_fn(Network) -> bool {
    |n: Network|
        spec_normalize_text(n.id@) == candidate || spec_normalize_text(n.display_name@)
            == candidate || exists|a: int|
            0 <= a < n.aliases@.len() && spec_normalize_text(#[trigger] n.aliases@[a]@) == candidate
}

/// `canonical_network_id`: the id of the first registered network that answers to the
/// normalised `candidate`.
pub open spec fn spec_canonical_network_id(candidate: Seq<char>, r: Registries) -> Option<Seq<char>> {
    match first_index(r.networks@, network_answers_to(spec_normalize_text(candidate))) {
        Some(k) => Some(r.networks@[k].id@),
        None => None,
    }
}

/// `network_matches`: both names resolve, and to the same network id.
pub open spec fn spec_network_matches(candidate: Seq<char>, profile_network: Seq<char>, r: Registries) -> bool {
    match (spec_canonical_network_id(candidate, r), spec_canonical_network_id(profile_network, r)) {
        (Some(a), Some(b)) => a == b,
        _ => false,
    }
}

/// An optional value, trimmed and ASCII lower-cased, kept only where it is not empty.
pub fn norm(value: &Option<String>) -> (r: Option<Vec<char>>)
    ensures
        match r {
            Some(v) => spec_norm(opt_view(*value)) == Some(v@),
            None => spec_norm(opt_view(*value)) is None,
        },
{
    match value {
        Some(v) => {
            let cs = chars_of(v.as_str());
            let t = trim_chars(&cs);
            let l = lower_chars(&t);
            if l.len() > 0 {
                Some(l)
            } else {
                None
            }
        },
        None => None,
    }
}

/// `value` trimmed, ASCII lower-cased, without spaces, hyphens and underscores.
pub fn normalize_text(value: &Vec<char>) -> (r: Vec<char>)
    ensures
        r@ == spec_normalize_text(value@),
{
    let t = trim_chars(value);
    let l = lower_chars(&t);
    let mut r: Vec<char> = Vec::new();
    let mut k: usize = 0;
    while k < l.len()
        invariant
            k <= l@.len(),
            r@ == drop_separators(l@.subrange(0, k as int)),
        decreases l@.len() - k,
    {
        let c = l[k];
        assert(l@.subrange(0, k + 1).drop_last() =~= l@.subrange(0, k as int));
        if !(c == ' ' || c == '-' || c == '_') {
            r.push(c);
        }
        k = k + 1;
    }
    assert(l@.subrange(0, l@.len() as int) =~= l@);
    r
}

/// Whether `n` answers to the normalised name `candidate`.
fn network_answers(n: &Network, candidate: &Vec<char>) -> (r: bool)
    ensures
        r == network_answers_to(candidate@)(*n),
{
    let id = normalize_text(&chars_of(n.id));
    if chars_equal(&id, candidate) {
        return true;
    }
    let display = normalize_text(&chars_of(n.display_name));
    if chars_equal(&display, candidate) {
        return true;
    }
    let mut a: usize = 0;
    while a < n.aliases.len()
        invariant
            a <= n.aliases@.len(),
            forall|m: int| 0 <= m < a ==> spec_normalize_text(#[trigger] n.aliases@[m]@) != candidate@,
        decreases n.aliases@.len() - a,
    {
        let alias = normalize_text(&chars_of(n.aliases[a]));
        if chars_equal(&alias, candidate) {
            return true;
        }
        a = a + 1;
    }
    false
}

/// The id of the registered network that `candidate` names (by id, display name or alias,
/// after normalisation), scanning the registry in order.
pub fn canonical_network_id(candidate: &Vec<char>, registries: &Registries) -> (r: Option<&'static str>)
    ensures
        match r {
            Some(id) => spec_canonical_network_id(candidate@, *registries) == Some(id@),
            None => spec_canonical_network_id(candidate@, *registries) is None,
        },
{
    let normalized = normalize_text(candidate);
    let ghost p = network_answers_to(normalized@);
    let nets = &registries.networks;
    let mut k: usize = 0;
    assert(nets@.subrange(0, nets@.len() as int) =~= nets@);
    while k < nets.len()
        invariant
            k <= nets@.len(),
            p == network_answers_to(normalized@),
            normalized@ == spec_normalize_text(candidate@),
            nets == &registries.networks,
            first_index(nets@, p) == shift(first_index(nets@.subrange(k as int, nets@.len() as int), p), k as int),
        decreases nets@.len() - k,
    {
        proof {
            lemma_first_index_suffix(nets@, p, k as int);
        }
        if network_answers(&nets[k], &normalized) {
            assert(p(nets@[k as int]));
            return Some(nets[k].id);
        }
        k = k + 1;
    }
    None
}

/// Whether both names resolve to the same registered network.
pub fn network_matches(candidate: &Vec<char>, profile_network: &Vec<char>, registries: &Registries) -> (r: bool)
    ensures
        r == spec_network_matches(candidate@, profile_network@, *registries),
{
    let a = canonical_network_id(candidate, registries);
    let b = canonical_network_id(profile_network, registries);
    match (a, b) {
        (Some(x), Some(y)) => chars_equal(&chars_of(x), &chars_of(y)),
        _ => false,
    }
}

/// Two names match exactly when both resolve to the same registered network: the relation
/// is symmetric, and a name that does not resolve matches nothing.
pub proof fn law_network_matches_symmetric(a: Seq<char>, b: Seq<char>, r: Registries)
    ensures
        spec_network_matches(a, b, r) == spec_network_matches(b, a, r),
        spec_network_matches(a, b, r) == (spec_canonical_network_id(a, r) is Some
            && spec_canonical_network_id(a, r) == spec_canonical_network_id(b, r)),
        spec_canonical_network_id(a, r) is None ==> !spec_network_matches(a, b, r),
{
}

} // verus!
