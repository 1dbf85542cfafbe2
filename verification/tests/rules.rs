use sendsure_rust::validators::network::{canonical_network_id, network_matches};
use sendsure_rust::{demo_scenarios, evaluate, ActionType, Decision, Evaluation, Intent, Registries};

fn registry() -> Registries {
    Registries::default()
}

fn basic(action_type: ActionType) -> Intent {
    Intent {
        action_type,
        source_network: None,
        destination_network: None,
        asset_symbol: None,
        asset_identifier: None,
        destination_address: None,
        expected_destination_address: None,
        entered_destination_tag_or_memo: None,
        expected_destination_tag_or_memo: None,
        contract_address: None,
        approval_amount_or_scope: None,
        swap_slippage_percent_bits: None,
        transaction_origin: Some("test".into()),
        asset_was_unsolicited: false,
    }
}

fn swap_with_slippage(slippage: Option<f64>) -> Intent {
    Intent {
        swap_slippage_percent_bits: slippage.map(f64::to_bits),
        ..demo_scenarios()[5].intent.clone()
    }
}

fn rule_ids(e: &Evaluation) -> Vec<String> {
    e.rule_hits.iter().map(|h| h.rule_id.clone()).collect()
}

#[test]
fn demo_scenarios_trigger_documented_rules() {
    let expected = [
        "TRANSFER_DESTINATION_TAG_MISMATCH",
        "TOKEN_UNSUPPORTED_DESTINATION_NETWORK",
        "TOKEN_UNKNOWN_FAMILIAR_SYMBOL",
        "SIGN_UNEXPECTED_AIRDROP_INTERACTION",
        "APPROVAL_UNLIMITED_ALLOWANCE",
        "SWAP_SLIPPAGE_REVIEW",
        "READY_INTENT_MATCH",
    ];
    for (scenario, rule) in demo_scenarios().iter().zip(expected) {
        let e = evaluate(&scenario.intent, &registry());
        assert_eq!(e.triggered_rule_id, rule);
        assert_eq!(e.decision, scenario.expected_decision);
    }
}

#[test]
fn demo_scenario_names_are_in_order() {
    let names: Vec<String> = demo_scenarios().into_iter().map(|s| s.name).collect();
    assert_eq!(
        names,
        vec![
            "XRP destination tag mismatch",
            "USDC unsupported destination network",
            "Unknown token using a familiar symbol",
            "Unexpected airdrop interaction",
            "Unlimited approval",
            "High-slippage swap at 7%",
            "Valid XRP with the correct destination tag",
        ]
    );
}

#[test]
fn ready_hit_is_alone_and_decides() {
    let e = evaluate(&demo_scenarios()[6].intent, &registry());
    assert_eq!(rule_ids(&e), vec!["READY_INTENT_MATCH"]);
    assert_eq!(e.decision, Decision::Ready);
    assert_eq!(
        e.recommended_next_step,
        "Continue only in your wallet after reviewing the final wallet prompt."
    );
}

#[test]
fn slippage_thresholds() {
    let cases: [(Option<f64>, Option<&str>); 12] = [
        (Some(0.0), None),
        (Some(-0.0), None),
        (Some(3.0), None),
        (Some(3.01), Some("SWAP_SLIPPAGE_REVIEW")),
        (Some(7.0), Some("SWAP_SLIPPAGE_REVIEW")),
        (Some(10.0), Some("SWAP_SLIPPAGE_REVIEW")),
        (Some(10.01), Some("SWAP_SLIPPAGE_STOP")),
        (Some(-0.5), Some("SWAP_INVALID_SLIPPAGE")),
        (Some(f64::NAN), Some("SWAP_INVALID_SLIPPAGE")),
        (Some(f64::INFINITY), Some("SWAP_INVALID_SLIPPAGE")),
        (Some(f64::MIN_POSITIVE / 4.0), None),
        (None, Some("SWAP_MISSING_SLIPPAGE")),
    ];
    for (slippage, rule) in cases {
        let e = evaluate(&swap_with_slippage(slippage), &registry());
        match rule {
            None => assert_eq!(e.triggered_rule_id, "READY_INTENT_MATCH", "{slippage:?}"),
            Some(r) => assert_eq!(e.triggered_rule_id, r, "{slippage:?}"),
        }
    }
}

#[test]
fn missing_slippage_is_review() {
    let e = evaluate(&swap_with_slippage(None), &registry());
    assert_eq!(e.decision, Decision::Review);
}

#[test]
fn unlimited_approval_variants_stop() {
    let max_decimal =
        "115792089237316195423570985008687907853269984665640564039457584007913129639935";
    let max_hex = format!("0x{}", "f".repeat(64));
    let cases = vec![
        "unlimited".to_string(),
        "Infinite allowance".to_string(),
        "MAX".to_string(),
        "uint256::MAX".to_string(),
        max_decimal.to_string(),
        format!("  00{max_decimal} "),
        max_hex.clone(),
        format!("0X{}", "F".repeat(64)),
        format!("0x00{}", "f".repeat(64)),
        format!(" 0x{} ", "fF".repeat(32)),
    ];
    for scope in cases {
        let intent = Intent { approval_amount_or_scope: Some(scope.clone()), ..basic(ActionType::Approve) };
        let e = evaluate(&intent, &registry());
        assert_eq!(e.triggered_rule_id, "APPROVAL_UNLIMITED_ALLOWANCE", "{scope}");
    }
}

#[test]
fn limited_approval_is_ready() {
    let not_max_decimal =
        "115792089237316195423570985008687907853269984665640564039457584007913129639934";
    let cases = vec![
        "100".to_string(),
        not_max_decimal.to_string(),
        format!("0x{}", "f".repeat(63)),
        format!("0x{}1", "f".repeat(64)),
        format!("0x{}00", "f".repeat(64)),
        format!("0x1{}", "0".repeat(64)),
        "0x".to_string(),
        format!("0x{}g", "f".repeat(64)),
        "12a".to_string(),
    ];
    for scope in cases {
        let intent = Intent { approval_amount_or_scope: Some(scope.clone()), ..basic(ActionType::Approve) };
        let e = evaluate(&intent, &registry());
        assert_eq!(e.triggered_rule_id, "READY_INTENT_MATCH", "{scope}");
    }
}

#[test]
fn approval_without_scope_stops() {
    for scope in [
        None,
        Some("   ".to_string()),
        Some("unknown".to_string()),
        Some(" UNKNOWN ".to_string()),
    ] {
        let intent = Intent { approval_amount_or_scope: scope, ..basic(ActionType::Approve) };
        let e = evaluate(&intent, &registry());
        assert_eq!(e.triggered_rule_id, "APPROVAL_MISSING_SCOPE");
        assert_eq!(e.decision, Decision::Stop);
    }
}

#[test]
fn sensitive_requests_stop_in_any_field() {
    let intent = Intent { transaction_origin: Some("Please enter your SEED PHRASE".into()), ..basic(ActionType::Sign) };
    let e = evaluate(&intent, &registry());
    assert_eq!(e.triggered_rule_id, "SECURITY_SEED_OR_PRIVATE_KEY_REQUEST");
    let intent = Intent { contract_address: Some("send privkey".into()), ..basic(ActionType::Sign) };
    assert_eq!(evaluate(&intent, &registry()).decision, Decision::Stop);
    let intent = Intent { contract_address: Some("private key-less".into()), ..basic(ActionType::Sign) };
    assert_eq!(evaluate(&intent, &registry()).decision, Decision::Stop);
    let intent = Intent { contract_address: Some("private keys? no".into()), ..basic(ActionType::Sign) };
    assert_eq!(evaluate(&intent, &registry()).decision, Decision::Stop);
    let intent = Intent { contract_address: Some("seedphrase".into()), ..basic(ActionType::Sign) };
    assert_eq!(evaluate(&intent, &registry()).decision, Decision::Ready);
}

#[test]
fn empty_destination_stops_send_and_swap() {
    for action in [ActionType::Send, ActionType::Swap] {
        let intent = Intent { destination_address: Some("  ".into()), ..basic(action) };
        let e = evaluate(&intent, &registry());
        assert!(rule_ids(&e).contains(&"TRANSFER_EMPTY_DESTINATION_ADDRESS".to_string()));
        assert_eq!(e.decision, Decision::Stop);
    }
    let intent = Intent { destination_address: None, ..basic(ActionType::Sign) };
    assert_eq!(evaluate(&intent, &registry()).decision, Decision::Ready);
}

#[test]
fn network_aliases_and_display_names_resolve() {
    for network in ["xrpl", " XRP Ledger ", "xrp-ledger", "XRP_LEDGER"] {
        let intent = Intent {
            source_network: Some(network.into()),
            destination_network: Some(network.into()),
            ..demo_scenarios()[6].intent.clone()
        };
        let e = evaluate(&intent, &registry());
        assert_eq!(e.decision, Decision::Ready, "{network}");
    }
    let usdc_on = |network: &str| Intent {
        source_network: Some(network.into()),
        destination_network: Some(network.into()),
        asset_symbol: Some("usdc".into()),
        asset_identifier: Some(" ETH:USDC ".into()),
        destination_address: Some("0xabc".into()),
        ..basic(ActionType::Send)
    };
    let e = evaluate(&usdc_on("BSC"), &registry());
    assert_eq!(
        rule_ids(&e),
        vec!["TOKEN_UNSUPPORTED_SOURCE_NETWORK", "TOKEN_UNSUPPORTED_DESTINATION_NETWORK"]
    );
    let e = evaluate(&usdc_on("bnb smart chain"), &registry());
    assert_eq!(e.triggered_rule_id, "TOKEN_UNSUPPORTED_SOURCE_NETWORK");
    let e = evaluate(&usdc_on("Base"), &registry());
    assert_eq!(e.decision, Decision::Ready);
    let e = evaluate(&usdc_on("Narnia"), &registry());
    assert_eq!(
        rule_ids(&e),
        vec!["TOKEN_UNKNOWN_SOURCE_NETWORK", "TOKEN_UNKNOWN_DESTINATION_NETWORK"]
    );
    assert_eq!(
        e.rule_hits[0].explanation,
        "The source network is not recognized in SendSure's network registry."
    );
}

#[test]
fn missing_source_and_destination_networks() {
    let intent = Intent {
        asset_identifier: Some("eth:eth".into()),
        destination_address: Some("0xabc".into()),
        ..basic(ActionType::Send)
    };
    let e = evaluate(&intent, &registry());
    assert_eq!(e.triggered_rule_id, "TOKEN_UNKNOWN_SOURCE_NETWORK");
    assert_eq!(
        e.explanation,
        "The source network is required and must be recognized when destination network is not provided."
    );
}

#[test]
fn token_symbol_checks() {
    let intent = Intent {
        asset_symbol: Some("ETH".into()),
        asset_identifier: Some("eth:usdc".into()),
        ..basic(ActionType::Approve)
    };
    let e = evaluate(&intent, &registry());
    assert_eq!(rule_ids(&e), vec!["TOKEN_ASSET_SYMBOL_MISMATCH", "APPROVAL_MISSING_SCOPE"]);
    let intent = Intent { asset_symbol: Some(" usdt ".into()), ..basic(ActionType::Sign) };
    let e = evaluate(&intent, &registry());
    assert_eq!(e.triggered_rule_id, "TOKEN_MISSING_ASSET_IDENTIFIER");
    let intent = Intent {
        asset_symbol: Some("DOGE".into()),
        asset_identifier: Some("unknown:doge".into()),
        ..basic(ActionType::Sign)
    };
    assert_eq!(evaluate(&intent, &registry()).decision, Decision::Ready);
}

#[test]
fn evm_addresses_ignore_case_but_xrpl_addresses_do_not() {
    let evm = Intent {
        destination_network: Some("ethereum".into()),
        destination_address: Some("0xAbCdEf".into()),
        expected_destination_address: Some(" 0xabcdef ".into()),
        ..basic(ActionType::Sign)
    };
    assert_eq!(evaluate(&evm, &registry()).decision, Decision::Ready);
    let xrpl = Intent { destination_network: Some("xrpl".into()), ..evm.clone() };
    let e = evaluate(&xrpl, &registry());
    assert_eq!(e.triggered_rule_id, "TRANSFER_DESTINATION_ADDRESS_MISMATCH");
}

#[test]
fn registry_tag_is_trusted_over_stated_tag() {
    let intent = Intent {
        entered_destination_tag_or_memo: Some("111".into()),
        expected_destination_tag_or_memo: Some("111".into()),
        ..demo_scenarios()[6].intent.clone()
    };
    let e = evaluate(&intent, &registry());
    assert_eq!(e.triggered_rule_id, "TRANSFER_DESTINATION_TAG_MISMATCH");
    let elsewhere = Intent {
        destination_address: Some("rSomeoneElse".into()),
        expected_destination_address: Some("rSomeoneElse".into()),
        ..intent.clone()
    };
    assert_eq!(evaluate(&elsewhere, &registry()).decision, Decision::Ready);
    let blank = Intent { entered_destination_tag_or_memo: Some("  ".into()), ..intent };
    assert_eq!(evaluate(&blank, &registry()).triggered_rule_id, "TRANSFER_MISSING_DESTINATION_TAG");
}

#[test]
fn airdrop_signatures() {
    let trusted = Intent {
        contract_address: Some(" 0xDemoSwapRouter ".into()),
        asset_was_unsolicited: true,
        ..basic(ActionType::Sign)
    };
    assert_eq!(evaluate(&trusted, &registry()).decision, Decision::Ready);
    let unknown = Intent { contract_address: Some("0xSomething".into()), ..trusted.clone() };
    assert_eq!(evaluate(&unknown, &registry()).triggered_rule_id, "SIGN_UNEXPECTED_AIRDROP_INTERACTION");
    let missing = Intent { contract_address: None, ..trusted.clone() };
    assert_eq!(evaluate(&missing, &registry()).decision, Decision::Stop);
    let solicited = Intent { asset_was_unsolicited: false, ..unknown };
    assert_eq!(evaluate(&solicited, &registry()).decision, Decision::Ready);
}

#[test]
fn hits_are_ordered_stop_before_review_and_keep_their_order() {
    let intent = Intent {
        swap_slippage_percent_bits: Some(5.0f64.to_bits()),
        destination_address: Some(" ".into()),
        expected_destination_address: None,
        contract_address: Some("mnemonic".into()),
        ..demo_scenarios()[5].intent.clone()
    };
    let e = evaluate(&intent, &registry());
    assert_eq!(
        rule_ids(&e),
        vec![
            "SECURITY_SEED_OR_PRIVATE_KEY_REQUEST",
            "TRANSFER_EMPTY_DESTINATION_ADDRESS",
            "SWAP_SLIPPAGE_REVIEW",
        ]
    );
    assert_eq!(e.decision, Decision::Stop);
    assert_eq!(e.triggered_rule_id, "SECURITY_SEED_OR_PRIVATE_KEY_REQUEST");
}

#[test]
fn unicode_whitespace_is_trimmed() {
    let intent = Intent { destination_address: Some("\u{3000}\u{A0}\t".into()), ..basic(ActionType::Send) };
    let e = evaluate(&intent, &registry());
    assert_eq!(e.triggered_rule_id, "TRANSFER_EMPTY_DESTINATION_ADDRESS");
    let intent = Intent {
        approval_amount_or_scope: Some("\u{2003}100\u{85}".into()),
        ..basic(ActionType::Approve)
    };
    assert_eq!(evaluate(&intent, &registry()).decision, Decision::Ready);
}

#[test]
fn unknown_scope_on_demo_approval_is_missing_scope() {
    let intent = Intent {
        approval_amount_or_scope: Some("unknown".to_string()),
        ..demo_scenarios()[4].intent.clone()
    };
    let e = evaluate(&intent, &registry());
    assert_eq!(rule_ids(&e), vec!["APPROVAL_MISSING_SCOPE"]);
    assert_eq!(e.rule_hits[0].decision, Decision::Stop);
    let intent = Intent { approval_amount_or_scope: Some("unknown limit".into()), ..basic(ActionType::Approve) };
    assert_eq!(evaluate(&intent, &registry()).decision, Decision::Ready);
}

#[test]
fn network_names_resolve_in_default_registry() {
    let r = registry();
    let chars = |s: &str| s.chars().collect::<Vec<char>>();
    assert_eq!(canonical_network_id(&chars("XRP Ledger"), &r), Some("xrpl"));
    assert_eq!(canonical_network_id(&chars(" BSC "), &r), Some("bnb-smart-chain"));
    assert_eq!(canonical_network_id(&chars("bnb_smart-chain"), &r), Some("bnb-smart-chain"));
    assert_eq!(canonical_network_id(&chars("foo"), &r), None);
    assert!(network_matches(&chars("xrpl"), &chars("XRP Ledger"), &r));
    assert!(network_matches(&chars("XRP Ledger"), &chars("xrpl"), &r));
    assert!(!network_matches(&chars("foo"), &chars("foo"), &r));
    assert!(!network_matches(&chars("base"), &chars("ethereum"), &r));
}
