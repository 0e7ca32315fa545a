//! Recovery of the signer's 20-byte address from a message digest and a
//! 65-byte recoverable ECDSA signature.

use vstd::prelude::*;

use crate::types::{keccak256, keccak_of, Address, ParsingError, ParsingResult, RawU256};

verus! {

/// What secp256k1 public-key recovery returns for a digest, a 64-byte
/// `r || s` signature and a recovery id: a function of these alone, `None`
/// when nothing recovers.
pub uninterp spec fn recover_of(digest: Seq<u8>, rs: Seq<u8>, rec_id: u8) -> Option<Seq<u8>>;

/// Relies on libsecp256k1: `Signature::parse_standard_slice` and
/// `RecoveryId::parse` read the signature, `recover` computes the public
/// key, and `PublicKey::serialize` yields its 65-byte uncompressed form
/// with the 0x04 tag byte first. The outcome is a function of the
/// arguments alone; a recovery id of 4 or more never recovers.
#[verifier::external_body]
fn secp256k1_recover(digest: &[u8], rs: &[u8], rec_id: u8) -> (r: Option<Vec<u8>>)
    requires
        digest@.len() == 32,
        rs@.len() == 64,
    ensures
        match r {
            Option::Some(pk) => recover_of(digest@, rs@, rec_id) == Option::Some(pk@) && pk@.len()
                == 65,
            Option::None => recover_of(digest@, rs@, rec_id) is None,
        },
        rec_id >= 4 ==> r is None,
{
    let message = libsecp256k1::Message::parse_slice(digest).ok()?;
    let signature = libsecp256k1::Signature::parse_standard_slice(rs).ok()?;
    let recovery_id = libsecp256k1::RecoveryId::parse(rec_id).ok()?;
    let public_key = libsecp256k1::recover(&message, &signature, &recovery_id).ok()?;
    Some(public_key.serialize().to_vec())
}

/// The address recovered from a digest and a 65-byte `r || s || v`
/// signature: the low 20 bytes of the hash of the raw public key. `None`
/// on any other length, a recovery id out of range, or a signature that
/// does not recover.
pub open spec fn spec_ecrecover(hash: Seq<u8>, signature: Seq<u8>) -> Option<Seq<u8>> {
    if signature.len() == 65 {
        let v = signature[64];
        let bit: u8 = if v <= 26 {
            v
        } else {
            (v - 27) as u8
        };
        match recover_of(hash, signature.take(64), bit) {
            Option::None => Option::None,
            Option::Some(pk) => Option::Some(keccak_of(pk.skip(1)).skip(12)),
        }
    } else {
        Option::None
    }
}

/// Recovers the signer's address; every length or format violation comes
/// back as the same error as a failed recovery, never a panic.
pub fn ecrecover(hash: &RawU256, signature: &[u8]) -> (r: ParsingResult<Address>)
    ensures
        match r {
            Result::Ok(a) => spec_ecrecover(hash@, signature@) == Option::Some(a@),
            Result::Err(e) => spec_ecrecover(hash@, signature@) is None && e
                == ParsingError::InvalidEcRecoverSignature,
        },
{
    if signature.len() != 65 {
        return Err(ParsingError::InvalidEcRecoverSignature);
    }
    let v = signature[64];
    let bit: u8 = if v <= 26 {
        v
    } else {
        v - 27
    };
    let rs = vstd::slice::slice_subrange(signature, 0, 64);
    proof {
        assert(rs@ =~= signature@.take(64));
    }
    match secp256k1_recover(hash.as_slice(), rs, bit) {
        Some(pk) => {
            let pk_body = vstd::slice::slice_subrange(pk.as_slice(), 1, 65);
            proof {
                assert(pk_body@ =~= pk@.skip(1));
            }
            let h = keccak256(pk_body);
            let tail = vstd::slice::slice_subrange(h.as_slice(), 12, 32);
            proof {
                assert(tail@ =~= keccak_of(pk@.skip(1)).skip(12));
            }
            Ok(Address::from_slice(tail))
        },
        None => Err(ParsingError::InvalidEcRecoverSignature),
    }
}

} // verus!
