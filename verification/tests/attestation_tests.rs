use enclave::attestation::Quote;
use sha2::Digest;
use std::collections::HashSet;

#[test]
fn quote_new_copies_identity_fields() {
    let q = Quote::new("mrenclave-hex", "vendor");
    assert_eq!(q.mrenclave, "mrenclave-hex");
    assert_eq!(q.signer, "vendor");
}

#[test]
fn quote_nonce_is_32_hex_chars() {
    let q = Quote::new("m", "s");
    assert_eq!(q.nonce.len(), 32);
    assert!(q.nonce.chars().all(|c| c.is_ascii_hexdigit()));
}

#[test]
fn quote_signature_binds_measurement_signer_and_nonce() {
    let q = Quote::new("m", "s");
    let nonce_bytes = hex::decode(&q.nonce).unwrap();
    let mut hasher = sha2::Sha256::new();
    hasher.update("m".as_bytes());
    hasher.update("s".as_bytes());
    hasher.update(&nonce_bytes);
    assert_eq!(q.signature, hex::encode(hasher.finalize()));
}

#[test]
fn quote_with_nonce_matches_reference_signature() {
    let q = Quote::with_nonce("m", "s", vec![0u8; 16]);
    assert_eq!(q.nonce, "00000000000000000000000000000000");
    assert_eq!(
        q.signature,
        "78e11ecafe1fc1c620b3ab603251cf0928691a0a65ad95966c5c29085ffd8a46"
    );
}

#[test]
fn quote_with_same_nonce_is_deterministic() {
    let nonce = vec![7u8; 16];
    let a = Quote::with_nonce("m", "s", nonce.clone());
    let b = Quote::with_nonce("m", "s", nonce);
    assert_eq!(a.nonce, b.nonce);
    assert_eq!(a.signature, b.signature);
}

#[test]
fn quote_nonces_are_unique_across_10000_quotes() {
    let mut nonces = HashSet::new();
    for _ in 0..10_000 {
        let q = Quote::new("m", "s");
        nonces.insert(q.nonce);
    }
    assert_eq!(nonces.len(), 10_000);
}
