//! A simulation of secure-enclave trust primitives: deterministic enclave
//! measurement, attestation quotes bound to a fresh nonce, and sealing of
//! byte payloads to an (identity, measurement) pair.
//!
//! This is a teaching model, not a security product: the "measurement" is a
//! plain SHA-256 digest and the "sealing" transform is a repeating-key XOR
//! stream, reversible by anyone who can reproduce the key derivation.

pub mod attestation;
pub mod enclave;
pub mod hexcode;
pub mod measurement;
pub mod sealed_storage;
pub mod sha256;

