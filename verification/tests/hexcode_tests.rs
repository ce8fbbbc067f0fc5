use enclave::hexcode::{hex_decode, hex_encode};

#[test]
fn hex_encode_is_lowercase_two_digits_per_byte() {
    assert_eq!(hex_encode(&vec![0xdeu8, 0xad, 0x00, 0x0f]), "dead000f");
    assert_eq!(hex_encode(&vec![]), "");
}

#[test]
fn hex_decode_accepts_both_cases() {
    assert_eq!(hex_decode("dead"), Some(vec![0xdeu8, 0xad]));
    assert_eq!(hex_decode("DEaD"), Some(vec![0xdeu8, 0xad]));
    assert_eq!(hex_decode(""), Some(vec![]));
}

#[test]
fn hex_decode_rejects_malformed_input() {
    assert_eq!(hex_decode("zz"), None);
    assert_eq!(hex_decode("abc"), None);
    assert_eq!(hex_decode("0g"), None);
}

#[test]
fn hex_encode_agrees_with_hex_crate() {
    let data: Vec<u8> = (0u8..=255).collect();
    assert_eq!(hex_encode(&data), hex::encode(&data));
    assert_eq!(hex_decode(&hex::encode(&data)), Some(data));
}
