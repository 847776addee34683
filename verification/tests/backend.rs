use ghost_backend::Backend;
use ghost_backend::DefaultPolicy;

fn zero_reference() -> String {
    "0".repeat(64)
}

#[test]
fn default_wallet_sample_portfolio() {
    let b = Backend::new(DefaultPolicy::SamplePortfolio);
    let w = b.get_wallet_info("aaaaa-aa".to_string());
    assert_eq!(w.address, "aaaaa-aa");
    assert_eq!(w.balance, "1000");
    assert_eq!(w.tokens.len(), 4);
    let pairs: Vec<(&str, &str)> = w
        .tokens
        .iter()
        .map(|t| (t.symbol.as_str(), t.balance.as_str()))
        .collect();
    assert_eq!(
        pairs,
        vec![
            ("ICP", "100"),
            ("GHOST", "500"),
            ("BTC", "0.05"),
            ("ETH", "2.5"),
        ]
    );
}

#[test]
fn default_wallet_empty_policy() {
    let b = Backend::new(DefaultPolicy::EmptyWallet);
    let w = b.get_wallet_info("anyone".to_string());
    assert_eq!(w.address, "anyone");
    assert_eq!(w.balance, "0");
    assert!(w.tokens.is_empty());
}

#[test]
fn default_wallet_is_fixed_across_addresses() {
    let b = Backend::new(DefaultPolicy::SamplePortfolio);
    let w1 = b.get_wallet_info("first".to_string());
    let w2 = b.get_wallet_info("second".to_string());
    assert_eq!(w1.address, "first");
    assert_eq!(w2.address, "second");
    assert_eq!(w1.balance, w2.balance);
    assert_eq!(w1.tokens.len(), w2.tokens.len());
    for (t1, t2) in w1.tokens.iter().zip(w2.tokens.iter()) {
        assert_eq!(t1.symbol, t2.symbol);
        assert_eq!(t1.balance, t2.balance);
    }
}

#[test]
fn default_wallet_for_empty_address() {
    let b = Backend::new(DefaultPolicy::SamplePortfolio);
    let w = b.get_wallet_info(String::new());
    assert_eq!(w.address, "");
    assert_eq!(w.balance, "1000");
}

#[test]
fn generate_proof_zero_bytes_and_reference() {
    let mut b = Backend::new(DefaultPolicy::EmptyWallet);
    let p = b.generate_proof("TOKEN".to_string(), "42".to_string());
    assert_eq!(p.proof, vec![0u8; 32]);
    assert_eq!(p.reference, zero_reference());
    assert_eq!(p.public_inputs, vec!["TOKEN".to_string(), "42".to_string()]);

    let q = b.generate_proof(String::new(), "not a number".to_string());
    assert_eq!(q.proof, vec![0u8; 32]);
    assert_eq!(q.reference, zero_reference());
    assert_eq!(
        q.public_inputs,
        vec![String::new(), "not a number".to_string()]
    );
}

#[test]
fn generated_reference_matches_hex_crate() {
    let mut b = Backend::new(DefaultPolicy::EmptyWallet);
    let p = b.generate_proof("TOKEN".to_string(), "1".to_string());
    assert_eq!(p.reference, hex::encode(&p.proof));
}

#[test]
fn second_generate_overwrites_single_entry() {
    let mut b = Backend::new(DefaultPolicy::EmptyWallet);
    let p1 = b.generate_proof("A".to_string(), "1".to_string());
    let p2 = b.generate_proof("B".to_string(), "2".to_string());
    assert_eq!(p1.reference, p2.reference);
    assert!(b.verify_proof(p2.reference.clone()));
    assert!(!b.verify_proof("ff".to_string()));
    assert!(!b.verify_proof(String::new()));
    assert!(!b.verify_proof("0".repeat(63)));
}

#[test]
fn verify_on_empty_store_is_false() {
    let b = Backend::new(DefaultPolicy::SamplePortfolio);
    assert!(!b.verify_proof(zero_reference()));
    assert!(!b.verify_proof("ff".to_string()));
    assert!(!b.verify_proof(String::new()));
}

#[test]
fn round_trip_generate_then_verify() {
    let mut b = Backend::new(DefaultPolicy::EmptyWallet);
    let p = b.generate_proof("tid".to_string(), "amt".to_string());
    assert!(b.verify_proof(p.reference));
}

#[test]
fn scenario_ghost_ten() {
    let mut b = Backend::new(DefaultPolicy::SamplePortfolio);
    let p = b.generate_proof("GHOST".to_string(), "10".to_string());
    assert_eq!(p.proof, vec![0u8; 32]);
    assert_eq!(p.reference.len(), 64);
    assert!(p.reference.chars().all(|c| c == '0'));
    assert_eq!(p.public_inputs, vec!["GHOST".to_string(), "10".to_string()]);
    assert!(b.verify_proof(zero_reference()));
    assert!(!b.verify_proof("ff".to_string()));
}
