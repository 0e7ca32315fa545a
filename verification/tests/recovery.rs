use gateway::ecrecover::ecrecover;
use gateway::types::{Address, ParsingError};
use sha3::Digest;

fn test_key() -> libsecp256k1::SecretKey {
    libsecp256k1::SecretKey::parse(&[0x11; 32]).unwrap()
}

fn address_of(sk: &libsecp256k1::SecretKey) -> Address {
    let pk = libsecp256k1::PublicKey::from_secret_key(sk).serialize();
    let h = sha3::Keccak256::digest(&pk[1..]);
    let mut a = [0u8; 20];
    a.copy_from_slice(&h[12..]);
    Address(a)
}

fn sign(digest: &[u8; 32], sk: &libsecp256k1::SecretKey) -> ([u8; 64], u8) {
    let msg = libsecp256k1::Message::parse(digest);
    let (sig, rec_id) = libsecp256k1::sign(&msg, sk);
    (sig.serialize(), rec_id.serialize())
}

#[test]
fn test_sign_then_recover() {
    let sk = test_key();
    let expected = address_of(&sk);
    let digest: [u8; 32] = sha3::Keccak256::digest(b"an important message").into();
    let (rs, rec_id) = sign(&digest, &sk);

    // The Ethereum convention writes v as 27 or 28.
    let mut sig65 = [0u8; 65];
    sig65[..64].copy_from_slice(&rs);
    sig65[64] = rec_id + 27;
    assert_eq!(ecrecover(&digest, &sig65).unwrap(), expected);

    // A raw recovery id below 27 is used as it stands.
    sig65[64] = rec_id;
    assert_eq!(ecrecover(&digest, &sig65).unwrap(), expected);

    // The other of {27, 28} must not yield the same signer.
    sig65[64] = 27 + (1 - rec_id);
    match ecrecover(&digest, &sig65) {
        Ok(other) => assert_ne!(other, expected),
        Err(_) => {}
    }
}

#[test]
fn test_recover_rejects_tampering() {
    let sk = test_key();
    let expected = address_of(&sk);
    let digest: [u8; 32] = sha3::Keccak256::digest(b"an important message").into();
    let (rs, rec_id) = sign(&digest, &sk);
    let mut sig65 = [0u8; 65];
    sig65[..64].copy_from_slice(&rs);
    sig65[64] = rec_id + 27;

    // Flipping any bit of the signature must not recover the signer.
    for byte in [0usize, 13, 31, 40, 63] {
        let mut bad = sig65;
        bad[byte] ^= 0x01;
        match ecrecover(&digest, &bad) {
            Ok(other) => assert_ne!(other, expected),
            Err(_) => {}
        }
    }
    // Flipping a bit of the digest must not recover the signer either.
    let mut bad_digest = digest;
    bad_digest[7] ^= 0x80;
    match ecrecover(&bad_digest, &sig65) {
        Ok(other) => assert_ne!(other, expected),
        Err(_) => {}
    }
}

#[test]
fn test_recover_length_and_range_errors() {
    let digest = [0u8; 32];
    // A signature shorter than 65 bytes is an error, never an abort.
    assert!(matches!(
        ecrecover(&digest, &[0u8; 64]),
        Err(ParsingError::InvalidEcRecoverSignature)
    ));
    assert!(matches!(
        ecrecover(&digest, &[]),
        Err(ParsingError::InvalidEcRecoverSignature)
    ));
    // A recovery id outside the scheme's range never recovers.
    let mut sig65 = [0u8; 65];
    sig65[64] = 26;
    assert!(ecrecover(&digest, &sig65).is_err());
    // An all-zero signature does not recover.
    sig65[64] = 27;
    assert!(matches!(
        ecrecover(&digest, &sig65),
        Err(ParsingError::InvalidEcRecoverSignature)
    ));
}
