use enclave::enclave::Enclave;
use enclave::measurement::measure;
use sha2::Digest;

#[test]
fn measure_is_deterministic() {
    let segments = vec![vec![1u8, 2, 3], vec![4u8, 5]];
    let first = measure(&segments, "app", "vendor");
    let second = measure(&segments, "app", "vendor");
    assert_eq!(first, second);
}

#[test]
fn measure_matches_reference_digest() {
    let segments = vec![vec![1u8, 2, 3]];
    let digest = measure(&segments, "app", "vendor");
    assert_eq!(
        digest,
        "d8152212aa9ca3b46276e0e52ebb3bc2c93f664586251219ef81d4aa78d2291c"
    );
}

#[test]
fn measure_empty_inputs() {
    let segments: Vec<Vec<u8>> = vec![];
    let digest = measure(&segments, "", "");
    assert_eq!(
        digest,
        "e3b0c44298fc1c149afbf4c8996fb92427ae41e4649b934ca495991b7852b855"
    );
}

#[test]
fn measure_is_order_sensitive() {
    let forward = measure(&vec![vec![1u8], vec![2u8]], "n", "s");
    let swapped = measure(&vec![vec![2u8], vec![1u8]], "n", "s");
    assert_ne!(forward, swapped);
    assert_eq!(
        forward,
        "511031fafe8e5a7c00ba5e8b3272872115f25c983c0d340a1ff02af95256d29a"
    );
}

#[test]
fn measure_agrees_with_sha2_and_hex() {
    let segments = vec![vec![9u8, 8, 7], vec![6u8]];
    let mut hasher = sha2::Sha256::new();
    hasher.update(&[9u8, 8, 7]);
    hasher.update(&[6u8]);
    hasher.update("name".as_bytes());
    hasher.update("signer".as_bytes());
    let expected = hex::encode(hasher.finalize());
    assert_eq!(measure(&segments, "name", "signer"), expected);
}

#[test]
fn enclave_new_matches_measure() {
    let segments = vec![vec![1u8, 2, 3]];
    let e = Enclave::new("app", "vendor", &segments);
    assert_eq!(e.mrenclave, measure(&segments, "app", "vendor"));
    assert_eq!(
        e.mrenclave,
        "d8152212aa9ca3b46276e0e52ebb3bc2c93f664586251219ef81d4aa78d2291c"
    );
    assert_eq!(e.name, "app");
    assert_eq!(e.signer, "vendor");
}

#[test]
fn ecall_returns_expected_string() {
    let e = Enclave::new("app", "vendor", &vec![vec![1u8, 2, 3]]);
    assert_eq!(e.ecall("init"), "ECALL init executed inside app");
}

#[test]
fn ocall_returns_expected_string() {
    let e = Enclave::new("app", "vendor", &vec![vec![1u8, 2, 3]]);
    assert_eq!(e.ocall("log"), "OCALL log invoked by app");
}
