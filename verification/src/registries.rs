//! In-memory registries of networks, tokens, exchanges, deposit profiles and contracts.
//!
//! Each keyed registry is a list of `(key, record)` entries with pairwise distinct keys;
//! looking a key up finds its entry. Sets are lists without repeated members.
use vstd::prelude::*;

verus! {

/// A blockchain network, found by its id, its display name or one of its aliases.
#[derive(Debug, Clone)]
pub struct Network {
    pub id: &'static str,
    pub display_name: &'static str,
    pub aliases: Vec<&'static str>,
}

/// A registered token and the networks (by id) that support it.
#[derive(Debug, Clone)]
pub struct Token {
    pub symbol: &'static str,
    pub identifier: &'static str,
    pub networks: Vec<&'static str>,
}

/// A known exchange.
#[derive(Debug, Clone)]
pub struct Exchange {
    pub name: &'static str,
}

/// A deposit account at an exchange, with the tag or memo it expects.
#[derive(Debug, Clone)]
pub struct DepositProfile {
    pub exchange: &'static str,
    pub network: &'static str,
    pub destination_address: &'static str,
    pub expected_tag_or_memo: Option<&'static str>,
}

/// A known contract and whether it is trusted.
#[derive(Debug, Clone)]
pub struct ContractProfile {
    pub address: &'static str,
    pub name: &'static str,
    pub trusted: bool,
}

/// The trusted reference data that the rules consult.
#[derive(Debug, Clone)]
pub struct Registries {
    pub networks: Vec<Network>,
    pub tokens: Vec<(&'static str, Token)>,
    pub exchanges: Vec<(&'static str, Exchange)>,
    pub deposits: Vec<DepositProfile>,
    pub contracts: Vec<(&'static str, ContractProfile)>,
    pub familiar_symbols: Vec<&'static str>,
}

/// No two members of `s` have the same text.
pub open spec fn distinct_strs(s: Seq<&'static str>) -> bool {
    forall|i: int, j: int| 0 <= i < j < s.len() ==> s[i]@ != s[j]@
}

/// Whether `s` has a member with the text `x`.
pub open spec fn has_str(s: Seq<&'static str>, x: Seq<char>) -> bool {
    exists|i: int| 0 <= i < s.len() && s[i]@ == x
}

/// The index of the first member of `s` that satisfies `p`, if any.
pub open spec fn first_index<T>(s: Seq<T>, p: spec_fn(T) -> bool) -> Option<int>
    decreases s.len(),
{
    if s.len() == 0 {
        None
    } else if p(s[0]) {
        Some(0int)
    } else {
        match first_index(s.drop_first(), p) {
            Some(k) => Some(k + 1),
            None => None,
        }
    }
}

/// `first_index` of a suffix, as an index into the whole sequence.
pub open spec fn shift(o: Option<int>, by: int) -> Option<int> {
    match o {
        Some(k) => Some(k + by),
        None => None,
    }
}

/// Scanning `s` from position `k`: what `first_index` finds in the suffix, shifted back.
pub proof fn lemma_first_index_suffix<T>(s: Seq<T>, p: spec_fn(T) -> bool, k: int)
    requires
        0 <= k < s.len(),
    ensures
        p(s[k]) ==> first_index(s.subrange(k, s.len() as int), p) == Some(0int),
        !p(s[k]) ==> shift(first_index(s.subrange(k, s.len() as int), p), k) == shift(
            first_index(s.subrange(k + 1, s.len() as int), p),
            k + 1,
        ),
{
    assert(s.subrange(k, s.len() as int).drop_first() =~= s.subrange(k + 1, s.len() as int));
}

/// The index of the first entry of `entries` whose key has the text `key`, if any.
pub open spec fn find_key<T>(entries: Seq<(&'static str, T)>, key: Seq<char>) -> Option<int> {
    first_index(entries, has_key(key))
}

/// The test "this entry's key has the text `key`".
pub open spec fn has_key<T>(key: Seq<char>) -> spec_fn((&'static str, T)) -> bool {
    |e: (&'static str, T)| e.0@ == key
}

/// The record stored under `key`, as `HashMap::get` gives it.
pub open spec fn lookup<T>(entries: Seq<(&'static str, T)>, key: Seq<char>) -> Option<T> {
    match find_key(entries, key) {
        Some(k) => Some(entries[k].1),
        None => None,
    }
}

/// No two entries have the same key.
pub open spec fn distinct_keys<T>(entries: Seq<(&'static str, T)>) -> bool {
    forall|i: int, j: int| 0 <= i < j < entries.len() ==> entries[i].0@ != entries[j].0@
}

impl Registries {
    /// The registries hold maps and sets: keys, network ids and set members do not repeat.
    pub open spec fn wf(&self) -> bool {
        &&& distinct_keys(self.tokens@)
        &&& distinct_keys(self.exchanges@)
        &&& distinct_keys(self.contracts@)
        &&& distinct_strs(self.networks@.map_values(|n: Network| n.id))
        &&& distinct_strs(self.familiar_symbols@)
        &&& forall|i: int| 0 <= i < self.tokens@.len() ==> distinct_strs(#[trigger] self.tokens@[i].1.networks@)
    }
}

/// The position of `key` in `entries`, as `find_key` describes it.
pub fn find_key_exec<T>(entries: &Vec<(&'static str, T)>, key: &Vec<char>) -> (r: Option<usize>)
    ensures
        match r {
            Some(k) => find_key(entries@, key@) == Some(k as int) && k < entries@.len(),
            None => find_key(entries@, key@) is None,
        },
{
    let ghost p = has_key::<T>(key@);
    let mut k: usize = 0;
    assert(entries@.subrange(0, entries@.len() as int) =~= entries@);
    while k < entries.len()
        invariant
            k <= entries@.len(),
            p == has_key::<T>(key@),
            find_key(entries@, key@) == shift(
                first_index(entries@.subrange(k as int, entries@.len() as int), p),
                k as int,
            ),
        decreases entries@.len() - k,
    {
        proof {
            lemma_first_index_suffix(entries@, p, k as int);
        }
        let kv = crate::text::chars_of(entries[k].0);
        if crate::text::chars_equal(&kv, key) {
            return Some(k);
        }
        k = k + 1;
    }
    None
}

/// Whether `s` has a member with the text `x`.
pub fn has_str_exec(s: &Vec<&'static str>, x: &Vec<char>) -> (r: bool)
    ensures
        r == has_str(s@, x@),
{
    let mut k: usize = 0;
    while k < s.len()
        invariant
            k <= s@.len(),
            forall|m: int| 0 <= m < k ==> s@[m]@ != x@,
        decreases s@.len() - k,
    {
        if crate::text::chars_equal_str(x, s[k]) {
            return true;
        }
        k = k + 1;
    }
    false
}

impl Default for Registries {
    fn default() -> (r: Self)
        ensures
            r.wf(),
            r.networks@.len() == 7,
            r.networks@[0].id@ == "xrpl"@ && r.networks@[0].display_name@ == "XRP Ledger"@
                && r.networks@[0].aliases@.len() == 0,
            r.networks@[1].id@ == "ethereum"@ && r.networks@[1].display_name@ == "Ethereum"@
                && r.networks@[1].aliases@.len() == 0,
            r.networks@[2].id@ == "base"@ && r.networks@[2].display_name@ == "Base"@
                && r.networks@[2].aliases@.len() == 0,
            r.networks@[3].id@ == "bnb-smart-chain"@ && r.networks@[3].display_name@
                == "BNB Smart Chain"@ && r.networks@[3].aliases@.len() == 1
                && r.networks@[3].aliases@[0]@ == "bsc"@,
            r.networks@[4].id@ == "stellar"@ && r.networks@[4].display_name@ == "Stellar"@
                && r.networks@[4].aliases@.len() == 0,
            r.networks@[5].id@ == "polygon"@ && r.networks@[5].display_name@ == "Polygon"@
                && r.networks@[5].aliases@.len() == 0,
            r.networks@[6].id@ == "solana"@ && r.networks@[6].display_name@ == "Solana"@
                && r.networks@[6].aliases@.len() == 0,
            r.tokens@.len() == 5,
            r.tokens@[0].0@ == "xrp:xrp"@ && r.tokens@[0].1.symbol@ == "XRP"@
                && r.tokens@[0].1.identifier@ == "xrp:xrp"@ && r.tokens@[0].1.networks@.len() == 1
                && r.tokens@[0].1.networks@[0]@ == "xrpl"@,
            r.tokens@[1].0@ == "xlm:xlm"@ && r.tokens@[1].1.symbol@ == "XLM"@
                && r.tokens@[1].1.identifier@ == "xlm:xlm"@ && r.tokens@[1].1.networks@.len() == 1
                && r.tokens@[1].1.networks@[0]@ == "stellar"@,
            r.tokens@[2].0@ == "eth:usdc"@ && r.tokens@[2].1.symbol@ == "USDC"@
                && r.tokens@[2].1.identifier@ == "eth:usdc"@ && r.tokens@[2].1.networks@.len() == 2
                && r.tokens@[2].1.networks@[0]@ == "ethereum"@ && r.tokens@[2].1.networks@[1]@
                == "base"@,
            r.tokens@[3].0@ == "eth:eth"@ && r.tokens@[3].1.symbol@ == "ETH"@
                && r.tokens@[3].1.identifier@ == "eth:eth"@ && r.tokens@[3].1.networks@.len() == 2
                && r.tokens@[3].1.networks@[0]@ == "ethereum"@ && r.tokens@[3].1.networks@[1]@
                == "base"@,
            r.tokens@[4].0@ == "eth:demo"@ && r.tokens@[4].1.symbol@ == "DEMO"@
                && r.tokens@[4].1.identifier@ == "eth:demo"@ && r.tokens@[4].1.networks@.len() == 1
                && r.tokens@[4].1.networks@[0]@ == "ethereum"@,
            r.exchanges@.len() == 1,
            r.exchanges@[0].0@ == "demo-exchange"@ && r.exchanges@[0].1.name@ == "Demo Exchange"@,
            r.deposits@.len() == 1,
            r.deposits@[0].exchange@ == "Demo Exchange"@ && r.deposits@[0].network@
                == "XRP Ledger"@ && r.deposits@[0].destination_address@ == "rDemoExchangeAddress"@,
            r.deposits@[0].expected_tag_or_memo is Some && r.deposits@[0].expected_tag_or_memo->0@
                == "482901"@,
            r.contracts@.len() == 2,
            r.contracts@[0].0@ == "0xDemoSwapRouter"@ && r.contracts@[0].1.address@
                == "0xDemoSwapRouter"@ && r.contracts@[0].1.name@ == "Demo Swap Router"@
                && r.contracts@[0].1.trusted,
            r.contracts@[1].0@ == "0xUnexpectedAirdrop"@ && r.contracts@[1].1.address@
                == "0xUnexpectedAirdrop"@ && r.contracts@[1].1.name@ == "Unexpected Airdrop"@
                && !r.contracts@[1].1.trusted,
            r.familiar_symbols@.len() == 7,
            r.familiar_symbols@[0]@ == "USDC"@ && r.familiar_symbols@[1]@ == "USDT"@
                && r.familiar_symbols@[2]@ == "ETH"@ && r.familiar_symbols@[3]@ == "BTC"@
                && r.familiar_symbols@[4]@ == "XRP"@ && r.familiar_symbols@[5]@ == "SOL"@
                && r.familiar_symbols@[6]@ == "XLM"@,
    {
        let networks = vec![
            Network { id: "xrpl", display_name: "XRP Ledger", aliases: Vec::new() },
            Network { id: "ethereum", display_name: "Ethereum", aliases: Vec::new() },
            Network { id: "base", display_name: "Base", aliases: Vec::new() },
            Network { id: "bnb-smart-chain", display_name: "BNB Smart Chain", aliases: vec!["bsc"] },
            Network { id: "stellar", display_name: "Stellar", aliases: Vec::new() },
            Network { id: "polygon", display_name: "Polygon", aliases: Vec::new() },
            Network { id: "solana", display_name: "Solana", aliases: Vec::new() },
        ];
        let tokens = vec![
            ("xrp:xrp", Token { symbol: "XRP", identifier: "xrp:xrp", networks: vec!["xrpl"] }),
            ("xlm:xlm", Token { symbol: "XLM", identifier: "xlm:xlm", networks: vec!["stellar"] }),
            (
                "eth:usdc",
                Token { symbol: "USDC", identifier: "eth:usdc", networks: vec!["ethereum", "base"] },
            ),
            (
                "eth:eth",
                Token { symbol: "ETH", identifier: "eth:eth", networks: vec!["ethereum", "base"] },
            ),
            ("eth:demo", Token { symbol: "DEMO", identifier: "eth:demo", networks: vec!["ethereum"] }),
        ];
        let exchanges = vec![("demo-exchange", Exchange { name: "Demo Exchange" })];
        let deposits = vec![
            DepositProfile {
                exchange: "Demo Exchange",
                network: "XRP Ledger",
                destination_address: "rDemoExchangeAddress",
                expected_tag_or_memo: Some("482901"),
            },
        ];
        let contracts = vec![
            (
                "0xDemoSwapRouter",
                ContractProfile { address: "0xDemoSwapRouter", name: "Demo Swap Router", trusted: true },
            ),
            (
                "0xUnexpectedAirdrop",
                ContractProfile {
                    address: "0xUnexpectedAirdrop",
                    name: "Unexpected Airdrop",
                    trusted: false,
                },
            ),
        ];
        let familiar_symbols = vec!["USDC", "USDT", "ETH", "BTC", "XRP", "SOL", "XLM"];
        let r = Registries { networks, tokens, exchanges, deposits, contracts, familiar_symbols };
        proof {
            reveal_strlit("xrpl");
            reveal_strlit("ethereum");
            reveal_strlit("base");
            reveal_strlit("bnb-smart-chain");
            reveal_strlit("stellar");
            reveal_strlit("polygon");
            reveal_strlit("solana");
            reveal_strlit("xrp:xrp");
            reveal_strlit("xlm:xlm");
            reveal_strlit("eth:usdc");
            reveal_strlit("eth:eth");
            reveal_strlit("eth:demo");
            reveal_strlit("0xDemoSwapRouter");
            reveal_strlit("0xUnexpectedAirdrop");
            reveal_strlit("USDC");
            reveal_strlit("USDT");
            reveal_strlit("ETH");
            reveal_strlit("BTC");
            reveal_strlit("XRP");
            reveal_strlit("SOL");
            reveal_strlit("XLM");
            assert(r.tokens@[0].0@[1] != r.tokens@[1].0@[1]);
            assert(r.tokens@[0].0@.len() != r.tokens@[2].0@.len());
            assert(r.tokens@[0].0@[0] != r.tokens@[3].0@[0]);
            assert(r.tokens@[0].0@.len() != r.tokens@[4].0@.len());
            assert(r.tokens@[1].0@.len() != r.tokens@[2].0@.len());
            assert(r.tokens@[1].0@[0] != r.tokens@[3].0@[0]);
            assert(r.tokens@[1].0@.len() != r.tokens@[4].0@.len());
            assert(r.tokens@[2].0@.len() != r.tokens@[3].0@.len());
            assert(r.tokens@[2].0@[4] != r.tokens@[4].0@[4]);
            assert(r.tokens@[3].0@.len() != r.tokens@[4].0@.len());
            assert(r.contracts@[0].0@.len() != r.contracts@[1].0@.len());
            assert(distinct_keys(r.tokens@));
            assert(distinct_keys(r.exchanges@));
            assert(distinct_keys(r.contracts@));
            let ids = r.networks@.map_values(|n: Network| n.id);
            assert(ids[0]@.len() != ids[1]@.len());
            assert(ids[0]@[0] != ids[2]@[0]);
            assert(ids[0]@.len() != ids[3]@.len());
            assert(ids[0]@.len() != ids[4]@.len());
            assert(ids[0]@.len() != ids[5]@.len());
            assert(ids[0]@.len() != ids[6]@.len());
            assert(ids[1]@.len() != ids[2]@.len());
            assert(ids[1]@.len() != ids[3]@.len());
            assert(ids[1]@.len() != ids[4]@.len());
            assert(ids[1]@.len() != ids[5]@.len());
            assert(ids[1]@.len() != ids[6]@.len());
            assert(ids[2]@.len() != ids[3]@.len());
            assert(ids[2]@.len() != ids[4]@.len());
            assert(ids[2]@.len() != ids[5]@.len());
            assert(ids[2]@.len() != ids[6]@.len());
            assert(ids[3]@.len() != ids[4]@.len());
            assert(ids[3]@.len() != ids[5]@.len());
            assert(ids[3]@.len() != ids[6]@.len());
            assert(ids[4]@[0] != ids[5]@[0]);
            assert(ids[4]@.len() != ids[6]@.len());
            assert(ids[5]@.len() != ids[6]@.len());
            assert(r.familiar_symbols@[0]@[3] != r.familiar_symbols@[1]@[3]);
            assert(r.familiar_symbols@[0]@.len() != r.familiar_symbols@[2]@.len());
            assert(r.familiar_symbols@[0]@.len() != r.familiar_symbols@[3]@.len());
            assert(r.familiar_symbols@[0]@.len() != r.familiar_symbols@[4]@.len());
            assert(r.familiar_symbols@[0]@.len() != r.familiar_symbols@[5]@.len());
            assert(r.familiar_symbols@[0]@.len() != r.familiar_symbols@[6]@.len());
            assert(r.familiar_symbols@[1]@.len() != r.familiar_symbols@[2]@.len());
            assert(r.familiar_symbols@[1]@.len() != r.familiar_symbols@[3]@.len());
            assert(r.familiar_symbols@[1]@.len() != r.familiar_symbols@[4]@.len());
            assert(r.familiar_symbols@[1]@.len() != r.familiar_symbols@[5]@.len());
            assert(r.familiar_symbols@[1]@.len() != r.familiar_symbols@[6]@.len());
            assert(r.familiar_symbols@[2]@[0] != r.familiar_symbols@[3]@[0]);
            assert(r.familiar_symbols@[2]@[0] != r.familiar_symbols@[4]@[0]);
            assert(r.familiar_symbols@[2]@[0] != r.familiar_symbols@[5]@[0]);
            assert(r.familiar_symbols@[2]@[0] != r.familiar_symbols@[6]@[0]);
            assert(r.familiar_symbols@[3]@[0] != r.familiar_symbols@[4]@[0]);
            assert(r.familiar_symbols@[3]@[0] != r.familiar_symbols@[5]@[0]);
            assert(r.familiar_symbols@[3]@[0] != r.familiar_symbols@[6]@[0]);
            assert(r.familiar_symbols@[4]@[0] != r.familiar_symbols@[5]@[0]);
            assert(r.familiar_symbols@[4]@[1] != r.familiar_symbols@[6]@[1]);
            assert(r.familiar_symbols@[5]@[0] != r.familiar_symbols@[6]@[0]);
            assert(distinct_strs(ids));
            assert(distinct_strs(r.familiar_symbols@));
            assert(distinct_strs(r.tokens@[2].1.networks@));
            assert(distinct_strs(r.tokens@[3].1.networks@));
            assert(r.wf());
        }
        r
    }
}

} // verus!
