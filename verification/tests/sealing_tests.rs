use enclave::sealed_storage::{seal, unseal, SealError};
use sha2::Digest;

#[test]
fn seal_unseal_round_trip() {
    let data = vec![0x41u8, 0x42];
    let cipher = seal("alice", "deadbeef", &data);
    assert_eq!(unseal("alice", "deadbeef", &cipher), Ok(data));
}

#[test]
fn seal_matches_reference_cipher() {
    let cipher = seal("alice", "deadbeef", &vec![0x41u8, 0x42]);
    assert_eq!(cipher, "5190");
}

#[test]
fn seal_empty_payload_round_trip() {
    let cipher = seal("alice", "deadbeef", &vec![]);
    assert_eq!(cipher, "");
    assert_eq!(unseal("alice", "deadbeef", &cipher), Ok(vec![]));
}

#[test]
fn seal_round_trips_long_payload() {
    let data: Vec<u8> = (0u8..=255).collect();
    let cipher = seal("ident", "mr", &data);
    assert_eq!(unseal("ident", "mr", &cipher), Ok(data));
}

#[test]
fn unseal_rejects_non_hex() {
    assert_eq!(
        unseal("alice", "deadbeef", "zz"),
        Err(SealError::MalformedHex)
    );
}

#[test]
fn unseal_rejects_odd_length() {
    assert_eq!(
        unseal("alice", "deadbeef", "abc"),
        Err(SealError::MalformedHex)
    );
}

#[test]
fn unseal_accepts_uppercase_hex() {
    let data = vec![0x41u8, 0x42];
    let cipher = seal("bob", "cafebabe", &data);
    assert_eq!(cipher, "b890");
    assert_eq!(unseal("bob", "cafebabe", "B890"), Ok(data));
}

#[test]
fn seal_is_key_bound() {
    let data = vec![0x41u8, 0x42];
    let base = seal("alice", "deadbeef", &data);
    assert_ne!(base, seal("bob", "cafebabe", &data));
    assert_ne!(base, seal("bob", "deadbeef", &data));
    assert_ne!(base, seal("alice", "cafebabe", &data));
}

#[test]
fn unseal_under_other_key_does_not_round_trip() {
    let data = vec![0x41u8, 0x42];
    let cipher = seal("alice", "deadbeef", &data);
    assert_ne!(unseal("bob", "deadbeef", &cipher), Ok(data));
}

#[test]
fn seal_agrees_with_sha2_and_hex() {
    let data = vec![10u8, 20, 30, 40, 50];
    let key = sha2::Sha256::digest("id".as_bytes().iter().chain("mr".as_bytes()).copied().collect::<Vec<u8>>());
    let expected: Vec<u8> = data
        .iter()
        .enumerate()
        .map(|(i, b)| b ^ key[i % key.len()])
        .collect();
    assert_eq!(seal("id", "mr", &data), hex::encode(expected));
}
