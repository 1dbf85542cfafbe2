//! The seven demonstration scenarios and their expected decisions.
use vstd::prelude::*;

use crate::decision::Decision;
use crate::intent::{ActionType, Intent, IntentView};

verus! {

/// A named intent together with the decision it is expected to receive.
#[derive(Debug, Clone)]
pub struct Scenario {
    pub name: String,
    pub intent: Intent,
    pub expected_decision: Decision,
}

/// The IEEE-754 binary64 encoding of 7.0.
pub open spec fn seven_percent_bits() -> u64 {
    0x401C_0000_0000_0000
}

/// An intent with only an action type and the `demo` origin.
pub open spec fn spec_basic(action_type: ActionType) -> IntentView {
    IntentView {
        action_type,
        source_network: None,
        destination_network: None,
        asset_symbol: None,
        asset_identifier: None,
        destination_address: None,
        expected_destination_address: None,
        entered_destination_tag_or_memo: None,
        expected_destination_tag_or_memo: None,
        contract_address: None,
        approval_amount_or_scope: None,
        swap_slippage_percent_bits: None,
        transaction_origin: Some("demo"@),
        asset_was_unsolicited: false,
    }
}

/// An XRP send to the demo exchange's deposit address with the given tags.
pub open spec fn spec_xrp_intent(entered: Option<Seq<char>>, expected: Option<Seq<char>>) -> IntentView {
    IntentView {
        action_type: ActionType::Send,
        source_network: Some("xrpl"@),
        destination_network: Some("xrpl"@),
        asset_symbol: Some("XRP"@),
        asset_identifier: Some("xrp:xrp"@),
        destination_address: Some("rDemoExchangeAddress"@),
        expected_destination_address: Some("rDemoExchangeAddress"@),
        entered_destination_tag_or_memo: entered,
        expected_destination_tag_or_memo: expected,
        contract_address: None,
        approval_amount_or_scope: None,
        swap_slippage_percent_bits: None,
        transaction_origin: Some("Demo Exchange"@),
        asset_was_unsolicited: false,
    }
}

/// The intent of demonstration scenario `k` (counting from 0).
pub open spec fn spec_demo_intent(k: int) -> IntentView {
    if k == 0 {
        spec_xrp_intent(Some("482109"@), None)
    } else if k == 1 {
        IntentView {
            action_type: ActionType::Send,
            source_network: Some("ethereum"@),
            destination_network: Some("solana"@),
            asset_symbol: Some("USDC"@),
            asset_identifier: Some("eth:usdc"@),
            destination_address: Some("DemoSolanaAddress"@),
            expected_destination_address: None,
            entered_destination_tag_or_memo: None,
            expected_destination_tag_or_memo: None,
            contract_address: None,
            approval_amount_or_scope: None,
            swap_slippage_percent_bits: None,
            transaction_origin: Some("manual-entry"@),
            asset_was_unsolicited: false,
        }
    } else if k == 2 {
        IntentView {
            destination_address: Some("0xLookalikeRecipient"@),
            asset_symbol: Some("USDC"@),
            asset_identifier: Some("unknown:usdc"@),
            ..spec_basic(ActionType::Send)
        }
    } else if k == 3 {
        IntentView {
            contract_address: Some("0xUnexpectedAirdrop"@),
            transaction_origin: Some("airdrop-site.example"@),
            asset_was_unsolicited: true,
            ..spec_basic(ActionType::Sign)
        }
    } else if k == 4 {
        IntentView {
            approval_amount_or_scope: Some("unlimited"@),
            contract_address: Some("0xDemoSwapRouter"@),
            ..spec_basic(ActionType::Approve)
        }
    } else if k == 5 {
        IntentView {
            source_network: Some("ethereum"@),
            destination_network: Some("ethereum"@),
            asset_symbol: Some("DEMO"@),
            asset_identifier: Some("eth:demo"@),
            destination_address: Some("0xDemoRecipient"@),
            expected_destination_address: Some("0xDemoRecipient"@),
            swap_slippage_percent_bits: Some(seven_percent_bits()),
            contract_address: Some("0xDemoSwapRouter"@),
            ..spec_basic(ActionType::Swap)
        }
    } else {
        spec_xrp_intent(Some("482901"@), None)
    }
}

/// The name of demonstration scenario `k`.
pub open spec fn spec_demo_name(k: int) -> Seq<char> {
    if k == 0 {
        "XRP destination tag mismatch"@
    } else if k == 1 {
        "USDC unsupported destination network"@
    } else if k == 2 {
        "Unknown token using a familiar symbol"@
    } else if k == 3 {
        "Unexpected airdrop interaction"@
    } else if k == 4 {
        "Unlimited approval"@
    } else if k == 5 {
        "High-slippage swap at 7%"@
    } else {
        "Valid XRP with the correct destination tag"@
    }
}

/// The expected decision of demonstration scenario `k`: STOP for the first five,
/// REVIEW for the sixth, READY for the seventh.
pub open spec fn spec_demo_decision(k: int) -> Decision {
    if k < 5 {
        Decision::Stop
    } else if k == 5 {
        Decision::Review
    } else {
        Decision::Ready
    }
}

fn text(s: &str) -> (r: Option<String>)
    ensures
        r matches Some(v) && v@ == s@,
{
    Some(String::from_str(s))
}

fn scenario(name: &str, expected_decision: Decision, intent: Intent) -> (r: Scenario)
    ensures
        r.name@ == name@,
        r.expected_decision == expected_decision,
        r.intent == intent,
{
    Scenario { name: String::from_str(name), intent, expected_decision }
}

fn basic(action_type: ActionType) -> (r: Intent)
    ensures
        r@ == spec_basic(action_type),
{
    Intent {
        action_type,
        source_network: None,
        destination_network: None,
        asset_symbol: None,
        asset_identifier: None,
        destination_address: None,
        expected_destination_address: None,
        entered_destination_tag_or_memo: None,
        expected_destination_tag_or_memo: None,
        contract_address: None,
        approval_amount_or_scope: None,
        swap_slippage_percent_bits: None,
        transaction_origin: text("demo"),
        asset_was_unsolicited: false,
    }
}

fn xrp_intent(entered: Option<&str>, expected: Option<&str>) -> (r: Intent)
    ensures
        r@ == spec_xrp_intent(
            match entered {
                Some(e) => Some(e@),
                None => None,
            },
            match expected {
                Some(e) => Some(e@),
                None => None,
            },
        ),
{
    let entered_tag = match entered {
        Some(e) => text(e),
        None => None,
    };
    let expected_tag = match expected {
        Some(e) => text(e),
        None => None,
    };
    Intent {
        action_type: ActionType::Send,
        source_network: text("xrpl"),
        destination_network: text("xrpl"),
        asset_symbol: text("XRP"),
        asset_identifier: text("xrp:xrp"),
        destination_address: text("rDemoExchangeAddress"),
        expected_destination_address: text("rDemoExchangeAddress"),
        entered_destination_tag_or_memo: entered_tag,
        expected_destination_tag_or_memo: expected_tag,
        contract_address: None,
        approval_amount_or_scope: None,
        swap_slippage_percent_bits: None,
        transaction_origin: text("Demo Exchange"),
        asset_was_unsolicited: false,
    }
}

/// The seven demonstration scenarios, in their fixed order.
pub fn demo_scenarios() -> (r: Vec<Scenario>)
    ensures
        r@.len() == 7,
        forall|k: int|
            0 <= k < 7 ==> (#[trigger] r@[k]).intent@ == spec_demo_intent(k) && r@[k].name@
                == spec_demo_name(k) && r@[k].expected_decision == spec_demo_decision(k),
{
    let s0 = scenario("XRP destination tag mismatch", Decision::Stop, xrp_intent(Some("482109"), None));
    let s1 = scenario(
        "USDC unsupported destination network",
        Decision::Stop,
        Intent {
            action_type: ActionType::Send,
            source_network: text("ethereum"),
            destination_network: text("solana"),
            asset_symbol: text("USDC"),
            asset_identifier: text("eth:usdc"),
            destination_address: text("DemoSolanaAddress"),
            expected_destination_address: None,
            entered_destination_tag_or_memo: None,
            expected_destination_tag_or_memo: None,
            contract_address: None,
            approval_amount_or_scope: None,
            swap_slippage_percent_bits: None,
            transaction_origin: text("manual-entry"),
            asset_was_unsolicited: false,
        },
    );
    let s2 = scenario(
        "Unknown token using a familiar symbol",
        Decision::Stop,
        Intent {
            destination_address: text("0xLookalikeRecipient"),
            asset_symbol: text("USDC"),
            asset_identifier: text("unknown:usdc"),
            ..basic(ActionType::Send)
        },
    );
    let s3 = scenario(
        "Unexpected airdrop interaction",
        Decision::Stop,
        Intent {
            action_type: ActionType::Sign,
            contract_address: text("0xUnexpectedAirdrop"),
            transaction_origin: text("airdrop-site.example"),
            asset_was_unsolicited: true,
            ..basic(ActionType::Sign)
        },
    );
    let s4 = scenario(
        "Unlimited approval",
        Decision::Stop,
        Intent {
            action_type: ActionType::Approve,
            approval_amount_or_scope: text("unlimited"),
            contract_address: text("0xDemoSwapRouter"),
            ..basic(ActionType::Approve)
        },
    );
    let s5 = scenario(
        "High-slippage swap at 7%",
        Decision::Review,
        Intent {
            action_type: ActionType::Swap,
            source_network: text("ethereum"),
            destination_network: text("ethereum"),
            asset_symbol: text("DEMO"),
            asset_identifier: text("eth:demo"),
            destination_address: text("0xDemoRecipient"),
            expected_destination_address: text("0xDemoRecipient"),
            swap_slippage_percent_bits: Some(0x401C_0000_0000_0000),
            contract_address: text("0xDemoSwapRouter"),
            ..basic(ActionType::Swap)
        },
    );
    let s6 = scenario(
        "Valid XRP with the correct destination tag",
        Decision::Ready,
        xrp_intent(Some("482901"), None),
    );
    let r = vec![s0, s1, s2, s3, s4, s5, s6];
    assert(r@[0] == s0 && r@[1] == s1 && r@[2] == s2 && r@[3] == s3);
    assert(r@[4] == s4 && r@[5] == s5 && r@[6] == s6);
    r
}

/// How many of `ds` are `d`.
pub open spec fn count_decision(ds: Seq<Decision>, d: Decision) -> nat
    decreases ds.len(),
{
    if ds.len() == 0 {
        0
    } else {
        count_decision(ds.drop_last(), d) + if ds.last() == d {
            1nat
        } else {
            0nat
        }
    }
}

/// How many of the decisions are `d`, for the demonstration summary.
pub fn count_decisions(ds: &Vec<Decision>, d: Decision) -> (n: usize)
    ensures
        n == count_decision(ds@, d),
{
    let mut n: usize = 0;
    let mut k: usize = 0;
    while k < ds.len()
        invariant
            k <= ds@.len(),
            n == count_decision(ds@.subrange(0, k as int), d),
            n <= k,
        decreases ds@.len() - k,
    {
        assert(ds@.subrange(0, k + 1).drop_last() =~= ds@.subrange(0, k as int));
        if ds[k] == d {
            n = n + 1;
        }
        k = k + 1;
    }
    assert(ds@.subrange(0, k as int) =~= ds@);
    n
}

/// Every decision is counted once: the STOP, REVIEW and READY counts add up to the total.
pub proof fn law_counts_add_up(ds: Seq<Decision>)
    ensures
        count_decision(ds, Decision::Stop) + count_decision(ds, Decision::Review) + count_decision(
            ds,
            Decision::Ready,
        ) == ds.len(),
    decreases ds.len(),
{
    if ds.len() > 0 {
        law_counts_add_up(ds.drop_last());
    }
}

} // verus!
