//! Sealed storage: binds a byte payload to an (identity, measurement) pair
//! through a repeating-key XOR stream whose key is the SHA-256 digest of the
//! identity's bytes followed by the measurement's bytes. The transform is
//! its own inverse, so sealing and unsealing share it; sealing hex-encodes
//! its output and unsealing hex-decodes its input first.
//!
//! This gives no real confidentiality: the key stream is derived from
//! public-ish identifiers and repeats across the payload, an intentional
//! weakness of the simulation, not a defect.

use crate::hexcode::hex_decode;
use crate::hexcode::hex_decode_spec;
use crate::hexcode::hex_encode;
use crate::hexcode::hex_encode_spec;
use crate::hexcode::hex_valid;
use crate::hexcode::lemma_hex_decode_encode;
use crate::hexcode::lemma_hex_encode_valid;
use crate::sha256::sha256;
use crate::sha256::sha256_of;
use vstd::prelude::*;
use vstd::string::StrSliceExecFns;
use vstd::utf8::encode_utf8;

verus! {

/// The byte stream the sealing key is derived from: the identity's bytes
/// followed by the measurement's bytes, with no framing between them.
pub open spec fn seal_key_input(identity: Seq<char>, mrenclave: Seq<char>) -> Seq<u8> {
    encode_utf8(identity) + encode_utf8(mrenclave)
}

/// The sealing key stream for an (identity, measurement) pair: one SHA-256
/// digest worth of key material.
pub open spec fn seal_key(identity: Seq<char>, mrenclave: Seq<char>) -> Seq<u8> {
    sha256_of(seal_key_input(identity, mrenclave))
}

/// `data` XOR-ed byte-for-byte with `key` cycled across its length (`data`
/// itself for an empty key, which a derived key never is).
pub open spec fn xor_with_key(data: Seq<u8>, key: Seq<u8>) -> Seq<u8> {
    Seq::new(
        data.len(),
        |i: int|
            if key.len() == 0 {
                data[i]
            } else {
                data[i] ^ key[i % key.len() as int]
            },
    )
}

/// What `seal` returns: the XOR transform of the payload under the derived
/// key, hex-encoded.
pub open spec fn seal_spec(identity: Seq<char>, mrenclave: Seq<char>, data: Seq<u8>) -> Seq<char> {
    hex_encode_spec(xor_with_key(data, seal_key(identity, mrenclave)))
}

/// What `unseal` returns on well-formed hex input: the decoded bytes, XOR-ed
/// with the derived key.
pub open spec fn unseal_spec(
    identity: Seq<char>,
    mrenclave: Seq<char>,
    cipher: Seq<char>,
) -> Seq<u8> {
    xor_with_key(hex_decode_spec(cipher), seal_key(identity, mrenclave))
}

/// The sole error of the library: `unseal` was handed a string that is not
/// well-formed hexadecimal.
#[derive(Clone, Copy, Debug, PartialEq, Eq, Structural)]
pub enum SealError {
    MalformedHex,
}

/// The XOR stream is its own inverse under any key.
pub proof fn lemma_xor_involution(data: Seq<u8>, key: Seq<u8>)
    ensures
        xor_with_key(xor_with_key(data, key), key) == data,
{
    let once = xor_with_key(data, key);
    assert forall|i: int| 0 <= i < data.len() implies xor_with_key(once, key)[i] == data[i] by {
        if key.len() > 0 {
            let d = data[i];
            let k = key[i % key.len() as int];
            assert((d ^ k) ^ k == d) by (bit_vector);
        }
    }
    assert(xor_with_key(once, key) =~= data);
}

/// Seal/unseal round trip: for every identity, measurement and payload
/// (the empty one included), what `seal` returns is well-formed hexadecimal,
/// and unsealing it under the same identity and measurement yields the
/// payload back.
pub proof fn lemma_seal_unseal_round_trip(
    identity: Seq<char>,
    mrenclave: Seq<char>,
    data: Seq<u8>,
)
    ensures
        hex_valid(seal_spec(identity, mrenclave, data)),
        unseal_spec(identity, mrenclave, seal_spec(identity, mrenclave, data)) == data,
{
    let key = seal_key(identity, mrenclave);
    let cipher = xor_with_key(data, key);
    lemma_hex_encode_valid(cipher);
    lemma_hex_decode_encode(cipher);
    lemma_xor_involution(data, key);
}

/// Equal sequences stay equal under UTF-8 encoding, and only they do.
proof fn lemma_encode_utf8_injective(a: Seq<char>, b: Seq<char>)
    requires
        a != b,
    ensures
        encode_utf8(a) != encode_utf8(b),
{
    vstd::utf8::encode_utf8_decode_utf8(a);
    vstd::utf8::encode_utf8_decode_utf8(b);
}

/// Concatenating the same prefix onto different sequences yields different
/// sequences.
proof fn lemma_concat_ne_suffix(p: Seq<u8>, x: Seq<u8>, y: Seq<u8>)
    requires
        x != y,
    ensures
        p + x != p + y,
{
    if p + x == p + y {
        assert((p + x).len() == (p + y).len());
        assert(x.len() == y.len());
        assert forall|k: int| 0 <= k < x.len() implies x[k] == y[k] by {
            assert((p + x)[p.len() + k] == x[k]);
            assert((p + y)[p.len() + k] == y[k]);
        }
        assert(x =~= y);
    }
}

/// Concatenating the same suffix onto different sequences yields different
/// sequences.
proof fn lemma_concat_ne_prefix(x: Seq<u8>, y: Seq<u8>, s: Seq<u8>)
    requires
        x != y,
    ensures
        x + s != y + s,
{
    if x + s == y + s {
        assert((x + s).len() == (y + s).len());
        assert(x.len() == y.len());
        assert forall|k: int| 0 <= k < x.len() implies x[k] == y[k] by {
            assert((x + s)[k] == x[k]);
            assert((y + s)[k] == y[k]);
        }
        assert(x =~= y);
    }
}

/// Key binding, as far as it can be stated of the digest: two (identity,
/// measurement) pairs that differ in exactly one component feed different
/// inputs to the key derivation. That different inputs give a different key
/// — and so different ciphertext — is the digest's collision resistance,
/// which is not stated of `sha256_of` and is checked only by test. Pairs
/// that differ in both components can feed the same input by shifting the
/// boundary between them: the model's known framing simplification.
pub proof fn lemma_distinct_pair_changes_key_input(
    identity1: Seq<char>,
    mrenclave1: Seq<char>,
    identity2: Seq<char>,
    mrenclave2: Seq<char>,
)
    requires
        (identity1 == identity2 && mrenclave1 != mrenclave2) || (identity1 != identity2
            && mrenclave1 == mrenclave2),
    ensures
        seal_key_input(identity1, mrenclave1) != seal_key_input(identity2, mrenclave2),
{
    if identity1 == identity2 {
        lemma_encode_utf8_injective(mrenclave1, mrenclave2);
        lemma_concat_ne_suffix(
            encode_utf8(identity1),
            encode_utf8(mrenclave1),
            encode_utf8(mrenclave2),
        );
    } else {
        lemma_encode_utf8_injective(identity1, identity2);
        lemma_concat_ne_prefix(
            encode_utf8(identity1),
            encode_utf8(identity2),
            encode_utf8(mrenclave1),
        );
    }
}

/// Derives the key stream for an (identity, measurement) pair.
fn derive_key(identity: &str, mrenclave: &str) -> (r: Vec<u8>)
    ensures
        r@ == seal_key(identity@, mrenclave@),
        r@.len() == 32,
{
    let mut input = identity.as_bytes_vec();
    let mut m = mrenclave.as_bytes_vec();
    input.append(&mut m);
    sha256(input.as_slice())
}

/// XOR-s `data` with `key` cycled across its length.
fn xor_bytes(data: &Vec<u8>, key: &Vec<u8>) -> (r: Vec<u8>)
    requires
        key@.len() > 0,
    ensures
        r@ == xor_with_key(data@, key@),
{
    let mut out: Vec<u8> = Vec::new();
    let mut i: usize = 0;
    while i < data.len()
        invariant
            key@.len() > 0,
            i <= data.len(),
            out@.len() == i,
            forall|j: int| 0 <= j < i ==> out@[j] == xor_with_key(data@, key@)[j],
        decreases data.len() - i,
    {
        out.push(data[i] ^ key[i % key.len()]);
        i += 1;
    }
    proof {
        assert(out@ =~= xor_with_key(data@, key@));
    }
    out
}

/// Seals a payload to an (identity, measurement) pair; accepts any payload,
/// the empty one producing the empty string.
pub fn seal(identity: &str, mrenclave: &str, data: &Vec<u8>) -> (r: String)
    ensures
        r@ == seal_spec(identity@, mrenclave@, data@),
{
    let key = derive_key(identity, mrenclave);
    let cipher = xor_bytes(data, &key);
    hex_encode(&cipher)
}

/// Unseals a previously sealed payload. Succeeds exactly on well-formed
/// hexadecimal input; any other string is rejected as malformed.
pub fn unseal(identity: &str, mrenclave: &str, cipher_hex: &str) -> (r: Result<Vec<u8>, SealError>)
    ensures
        r is Ok <==> hex_valid(cipher_hex@),
        r is Ok ==> r->Ok_0@ == unseal_spec(identity@, mrenclave@, cipher_hex@),
        r is Err ==> r->Err_0 == SealError::MalformedHex,
{
    let cipher = match hex_decode(cipher_hex) {
        Some(c) => c,
        None => {
            return Err(SealError::MalformedHex);
        },
    };
    let key = derive_key(identity, mrenclave);
    Ok(xor_bytes(&cipher, &key))
}

} // verus!
