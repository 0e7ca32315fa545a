//! Verified core of a cross-chain meta-transaction gateway.
//!
//! A meta call arrives as a compact binary envelope carrying an ABI-style
//! method signature, RLP-encoded arguments and a recoverable ECDSA signature.
//! This crate parses the envelope, reconstructs the EIP-712 digest that must
//! have been signed, recovers the signer's address and re-encodes the call
//! for a downstream executor.

pub mod types;
pub mod type_sig;
pub mod method_sig;
pub mod rlp;
pub mod eip712;
pub mod envelope;
pub mod ecrecover;
pub mod meta_call;
pub mod forward;
pub mod laws;
