use sendsure_rust::{count_decisions, Decision, Registries};

#[test]
fn default_registry_contents() {
    let r = Registries::default();
    let ids: Vec<&str> = r.networks.iter().map(|n| n.id).collect();
    assert_eq!(ids, vec!["xrpl", "ethereum", "base", "bnb-smart-chain", "stellar", "polygon", "solana"]);
    assert_eq!(r.networks[3].aliases, vec!["bsc"]);
    assert_eq!(r.tokens.len(), 5);
    assert_eq!(r.tokens[2].1.networks, vec!["ethereum", "base"]);
    assert_eq!(r.deposits[0].expected_tag_or_memo, Some("482901"));
    assert!(r.contracts[0].1.trusted);
    assert!(!r.contracts[1].1.trusted);
    assert_eq!(r.exchanges[0].1.name, "Demo Exchange");
    assert_eq!(r.familiar_symbols.len(), 7);
}

#[test]
fn decision_labels_and_priorities() {
    assert_eq!(Decision::Ready.to_string(), "READY");
    assert_eq!(Decision::Review.to_string(), "REVIEW");
    assert_eq!(Decision::Stop.to_string(), "STOP");
    assert!(Decision::Stop.priority() > Decision::Review.priority());
    assert!(Decision::Review.priority() > Decision::Ready.priority());
}

#[test]
fn decision_counts_for_the_summary() {
    let ds = vec![Decision::Stop, Decision::Ready, Decision::Stop, Decision::Review];
    assert_eq!(count_decisions(&ds, Decision::Stop), 2);
    assert_eq!(count_decisions(&ds, Decision::Review), 1);
    assert_eq!(count_decisions(&ds, Decision::Ready), 1);
    assert_eq!(count_decisions(&Vec::new(), Decision::Stop), 0);
}
