//! Attestation quotes: an assertion binding a measurement and a signer
//! identity to a fresh 16-byte random nonce. The "signature" is a plain
//! SHA-256 digest over (measurement, signer, nonce bytes) in that order —
//! not a real digital signature, there is no private key anywhere.

use crate::hexcode::hex_decode_spec;
use crate::hexcode::hex_encode;
use crate::hexcode::hex_encode_spec;
use crate::hexcode::hex_valid;
use crate::hexcode::lemma_hex_decode_encode;
use crate::hexcode::lemma_hex_encode_valid;
use crate::sha256::sha256;
use crate::sha256::sha256_of;
use rand::RngCore;
use vstd::prelude::*;
use vstd::string::StrSliceExecFns;
use vstd::string::StringExecFns;
use vstd::utf8::encode_utf8;

verus! {

/// The quote signature: the SHA-256 digest of the measurement's bytes, then
/// the signer's bytes, then the raw nonce bytes, rendered as lowercase hex.
/// The concatenation order is part of the interface and must be kept for
/// interoperable verification.
pub open spec fn quote_signature_of(
    mrenclave: Seq<char>,
    signer: Seq<char>,
    nonce_bytes: Seq<u8>,
) -> Seq<char> {
    hex_encode_spec(sha256_of(encode_utf8(mrenclave) + encode_utf8(signer) + nonce_bytes))
}

/// A mock attestation quote: measurement, signer, hex-encoded nonce, and
/// the digest binding the three together.
pub struct Quote {
    pub mrenclave: String,
    pub signer: String,
    pub nonce: String,
    pub signature: String,
}

/// Relies on rand::thread_rng and RngCore::fill_bytes: fills the buffer
/// from a cryptographically secure generator. Nothing can be promised of
/// the values drawn; only the length is stated.
#[verifier::external_body]
fn random_bytes_16() -> (r: Vec<u8>)
    ensures
        r@.len() == 16,
{
    let mut buf = [0u8; 16];
    rand::thread_rng().fill_bytes(&mut buf);
    buf.to_vec()
}

impl Quote {
    /// Builds the quote for a given 16-byte nonce: the nonce is stored
    /// hex-encoded, and the signature binds the measurement, the signer and
    /// the raw nonce bytes exactly.
    pub fn with_nonce(mrenclave: &str, signer: &str, nonce_bytes: Vec<u8>) -> (r: Quote)
        requires
            nonce_bytes@.len() == 16,
        ensures
            r.mrenclave@ == mrenclave@,
            r.signer@ == signer@,
            r.nonce@ == hex_encode_spec(nonce_bytes@),
            r.nonce@.len() == 32,
            hex_valid(r.nonce@),
            r.signature@ == quote_signature_of(mrenclave@, signer@, nonce_bytes@),
    {
        proof {
            lemma_hex_encode_valid(nonce_bytes@);
        }
        let nonce = hex_encode(&nonce_bytes);
        let mut input = mrenclave.as_bytes_vec();
        let mut signer_bytes = signer.as_bytes_vec();
        input.append(&mut signer_bytes);
        let mut raw = nonce_bytes;
        input.append(&mut raw);
        let digest = sha256(input.as_slice());
        let signature = hex_encode(&digest);
        Quote {
            mrenclave: String::from_str(mrenclave),
            signer: String::from_str(signer),
            nonce,
            signature,
        }
    }

    /// Creates a quote with a fresh random 16-byte nonce. Whatever nonce
    /// was drawn, the stored nonce is 32 hex characters in canonical
    /// lowercase form, and the signature binds the measurement, the signer
    /// and the raw nonce bytes — which are exactly the hex-decoding of the
    /// stored nonce.
    pub fn new(mrenclave: &str, signer: &str) -> (r: Quote)
        ensures
            r.mrenclave@ == mrenclave@,
            r.signer@ == signer@,
            r.nonce@.len() == 32,
            hex_valid(r.nonce@),
            r.nonce@ == hex_encode_spec(hex_decode_spec(r.nonce@)),
            r.signature@ == quote_signature_of(mrenclave@, signer@, hex_decode_spec(r.nonce@)),
    {
        let nonce_bytes = random_bytes_16();
        let ghost raw = nonce_bytes@;
        let q = Quote::with_nonce(mrenclave, signer, nonce_bytes);
        proof {
            lemma_hex_encode_valid(raw);
            lemma_hex_decode_encode(raw);
        }
        q
    }
}

} // verus!
