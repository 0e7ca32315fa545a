use gateway::eip712::{near_erc712_domain, prepare_meta_call_args};
use gateway::meta_call::{next_nonce, nonce_matches, parse_meta_call};
use gateway::types::{Address, InternalMetaCallArgs, MetaCallArgs, ParsingError};
use sha3::Digest;
use std::collections::HashMap;

fn push_str(out: &mut Vec<u8>, s: &str) {
    out.extend_from_slice(&(s.len() as u32).to_le_bytes());
    out.extend_from_slice(s.as_bytes());
}

fn encode_envelope(
    signature: &[u8; 64],
    v: u8,
    nonce: &[u8; 32],
    fee_amount: &[u8; 32],
    fee_address: &str,
    contract_address: &str,
    value: &[u8; 32],
    method: &str,
    args: &[u8],
) -> Vec<u8> {
    let mut out = Vec::new();
    out.extend_from_slice(signature);
    out.push(v);
    out.extend_from_slice(nonce);
    out.extend_from_slice(fee_amount);
    push_str(&mut out, fee_address);
    push_str(&mut out, contract_address);
    out.extend_from_slice(value);
    push_str(&mut out, method);
    out.extend_from_slice(&(args.len() as u32).to_le_bytes());
    out.extend_from_slice(args);
    out
}

fn be32(x: u128) -> [u8; 32] {
    let mut w = [0u8; 32];
    w[16..].copy_from_slice(&x.to_be_bytes());
    w
}

fn test_key() -> libsecp256k1::SecretKey {
    libsecp256k1::SecretKey::parse(&[0x11; 32]).unwrap()
}

fn address_of(sk: &libsecp256k1::SecretKey) -> Address {
    let pk = libsecp256k1::PublicKey::from_secret_key(sk).serialize();
    let h = sha3::Keccak256::digest(&pk[1..]);
    let mut a = [0u8; 20];
    a.copy_from_slice(&h[12..]);
    Address(a)
}

#[test]
fn test_parse_meta_call_end_to_end() {
    let sk = test_key();
    let signer = address_of(&sk);
    let domain = near_erc712_domain(1);
    let account_id = b"gateway.near";

    let skeleton = InternalMetaCallArgs {
        sender: Address::zero(),
        nonce: [0u8; 32],
        fee_amount: 5,
        fee_address: "fee.near".to_string(),
        contract_address: "target.near".to_string(),
        method_name: String::new(),
        value: 7,
        args: vec![],
    };
    let (digest, _, _) = prepare_meta_call_args(&domain, account_id, &skeleton).unwrap();

    let msg = libsecp256k1::Message::parse(&digest);
    let (sig, rec_id) = libsecp256k1::sign(&msg, &sk);
    let wire = encode_envelope(
        &sig.serialize(),
        rec_id.serialize() + 27,
        &[0u8; 32],
        &be32(5),
        "fee.near",
        "target.near",
        &be32(7),
        "",
        &[],
    );

    let parsed = parse_meta_call(&domain, account_id, wire).unwrap();
    assert_eq!(parsed.sender, signer);
    assert_eq!(parsed.nonce, [0u8; 32]);
    assert_eq!(parsed.fee_amount, 5);
    assert_eq!(parsed.value, 7);
    assert_eq!(parsed.fee_address, "fee.near");
    assert_eq!(parsed.contract_address, "target.near");
    assert_eq!(parsed.method_name, "");
    assert_eq!(parsed.args, Vec::<u8>::new());
}

#[test]
fn test_parse_meta_call_rejects_wrong_signature() {
    let domain = near_erc712_domain(1);
    let wire = encode_envelope(
        &[0u8; 64],
        27,
        &[0u8; 32],
        &be32(5),
        "fee.near",
        "target.near",
        &be32(7),
        "",
        &[],
    );
    assert!(matches!(
        parse_meta_call(&domain, b"gateway.near", wire),
        Err(ParsingError::InvalidEcRecoverSignature)
    ));
}

#[test]
fn test_parse_meta_call_envelope_errors() {
    let domain = near_erc712_domain(1);
    // Truncated envelope.
    assert!(matches!(
        parse_meta_call(&domain, b"gateway.near", vec![1, 2, 3]),
        Err(ParsingError::ArgumentParseError)
    ));
    // Trailing bytes after the declared fields.
    let mut wire = encode_envelope(
        &[0u8; 64],
        27,
        &[0u8; 32],
        &be32(0),
        "a",
        "b",
        &be32(0),
        "",
        &[],
    );
    wire.push(0);
    assert!(matches!(
        parse_meta_call(&domain, b"gateway.near", wire),
        Err(ParsingError::ArgumentParseError)
    ));
    // A fee that does not fit in 128 bits.
    let mut big = [0u8; 32];
    big[0] = 1;
    let wire = encode_envelope(
        &[0u8; 64],
        27,
        &[0u8; 32],
        &big,
        "a",
        "b",
        &be32(0),
        "",
        &[],
    );
    assert!(matches!(
        parse_meta_call(&domain, b"gateway.near", wire),
        Err(ParsingError::ArgumentParseError)
    ));
    // A string field that is not UTF-8.
    let mut wire = encode_envelope(
        &[0u8; 64],
        27,
        &[0u8; 32],
        &be32(0),
        "ab",
        "b",
        &be32(0),
        "",
        &[],
    );
    // The fee address starts at offset 133; overwrite it with bad UTF-8.
    wire[133] = 0xff;
    wire[134] = 0xff;
    assert!(matches!(
        parse_meta_call(&domain, b"gateway.near", wire),
        Err(ParsingError::ArgumentParseError)
    ));
}

#[test]
fn test_envelope_decode_roundtrip() {
    // The fee account name holds a two-byte UTF-8 character, so decoding
    // must really decode, not copy bytes.
    let wire = encode_envelope(
        &[7u8; 64],
        1,
        &[2u8; 32],
        &be32(9),
        "caf\u{e9}.near",
        "target.near",
        &be32(4),
        "m(uint256 x)",
        &[0xc0],
    );
    let decoded = MetaCallArgs::decode(&wire).unwrap();
    assert_eq!(decoded.signature, [7u8; 64]);
    assert_eq!(decoded.v, 1);
    assert_eq!(decoded.nonce, [2u8; 32]);
    assert_eq!(decoded.fee_amount, be32(9));
    assert_eq!(decoded.fee_address, "caf\u{e9}.near");
    assert_eq!(decoded.fee_address.chars().count(), 9);
    assert_eq!(decoded.fee_address.len(), 10);
    assert_eq!(decoded.contract_address, "target.near");
    assert_eq!(decoded.value, be32(4));
    assert_eq!(decoded.method, "m(uint256 x)");
    assert_eq!(decoded.args, vec![0xc0]);
}

#[test]
fn test_prepare_meta_call_args_errors() {
    let domain = near_erc712_domain(1);
    let mut call = InternalMetaCallArgs {
        sender: Address::zero(),
        nonce: [0u8; 32],
        fee_amount: 0,
        fee_address: "a".to_string(),
        contract_address: "b".to_string(),
        method_name: "noparen".to_string(),
        value: 0,
        args: vec![],
    };
    // A method without parentheses cannot name its Arguments struct.
    assert!(matches!(
        prepare_meta_call_args(&domain, b"gw", &call),
        Err(ParsingError::InvalidMetaTransactionMethodName)
    ));
    // One declared argument, but an empty RLP list of values.
    call.method_name = "foo(uint256 x)".to_string();
    call.args = vec![0xc0];
    assert!(matches!(
        prepare_meta_call_args(&domain, b"gw", &call),
        Err(ParsingError::ArgsLengthMismatch)
    ));
    // Argument bytes that are not an RLP list at all.
    call.args = vec![0x83, b'd', b'o', b'g'];
    assert!(matches!(
        prepare_meta_call_args(&domain, b"gw", &call),
        Err(ParsingError::InvalidMetaTransactionFunctionArg)
    ));
    // A value of the wrong shape for the declared type.
    call.args = vec![0xc1, 0xc0];
    assert!(matches!(
        prepare_meta_call_args(&domain, b"gw", &call),
        Err(ParsingError::InvalidMetaTransactionFunctionArg)
    ));
}

#[test]
fn test_prepare_meta_call_args_with_method() {
    // A call with one argument hashes deterministically.
    let domain = near_erc712_domain(1);
    let call = InternalMetaCallArgs {
        sender: Address::zero(),
        nonce: [0u8; 32],
        fee_amount: 1,
        fee_address: "fee.near".to_string(),
        contract_address: "target.near".to_string(),
        method_name: "adopt(uint256 petId)".to_string(),
        value: 2,
        args: vec![0xc1, 0x09],
    };
    let (digest, method_name, arg_bytes) =
        prepare_meta_call_args(&domain, b"gw", &call).unwrap();
    assert_eq!(method_name, "adopt");
    // The argument bytes start with the hash of the Arguments struct text
    // and carry one 32-byte word per argument.
    let expected_head = sha3::Keccak256::digest(b"Arguments(uint256 petId)");
    assert_eq!(&arg_bytes[..32], expected_head.as_slice());
    let mut word = [0u8; 32];
    word[31] = 0x09;
    assert_eq!(&arg_bytes[32..], &word);
    let (digest2, _, _) = prepare_meta_call_args(&domain, b"gw", &call).unwrap();
    assert_eq!(digest, digest2);
}

#[test]
fn test_nonce_replay_at_collaborator_boundary() {
    // The surrounding contract stores one counter per sender and accepts a
    // call only when the submitted nonce equals it exactly.
    let mut nonces: HashMap<[u8; 20], [u8; 32]> = HashMap::new();
    let sender = [9u8; 20];
    let submitted = [0u8; 32];

    let mut submit = |nonces: &mut HashMap<[u8; 20], [u8; 32]>| -> Result<(), &'static str> {
        let stored = *nonces.get(&sender).unwrap_or(&[0u8; 32]);
        if !nonce_matches(&stored, &submitted) {
            return Err("ERR_INCORRECT_NONCE");
        }
        let next = next_nonce(&stored).ok_or("ERR_NONCE_OVERFLOW")?;
        nonces.insert(sender, next);
        Ok(())
    };

    assert!(submit(&mut nonces).is_ok());
    assert_eq!(submit(&mut nonces), Err("ERR_INCORRECT_NONCE"));
}

#[test]
fn test_next_nonce_carries() {
    let mut n = [0u8; 32];
    n[31] = 0xff;
    let next = next_nonce(&n).unwrap();
    let mut expected = [0u8; 32];
    expected[30] = 1;
    assert_eq!(next, expected);

    let zero = [0u8; 32];
    let mut one = [0u8; 32];
    one[31] = 1;
    assert_eq!(next_nonce(&zero).unwrap(), one);

    // The final counter value has no successor.
    assert!(next_nonce(&[0xffu8; 32]).is_none());
}

#[test]
fn test_parse_meta_call_with_method_and_args() {
    let sk = test_key();
    let signer = address_of(&sk);
    let domain = near_erc712_domain(1);
    let account_id = b"gateway.near";
    let method = "adopt(uint256 petId)";
    let rlp_args = [0xc1u8, 0x09];

    let skeleton = InternalMetaCallArgs {
        sender: Address::zero(),
        nonce: [0u8; 32],
        fee_amount: 1,
        fee_address: "fee.near".to_string(),
        contract_address: "target.near".to_string(),
        method_name: method.to_string(),
        value: 2,
        args: rlp_args.to_vec(),
    };
    let (digest, _, expected_args) =
        prepare_meta_call_args(&domain, account_id, &skeleton).unwrap();

    let msg = libsecp256k1::Message::parse(&digest);
    let (sig, rec_id) = libsecp256k1::sign(&msg, &sk);
    let wire = encode_envelope(
        &sig.serialize(),
        rec_id.serialize() + 27,
        &[0u8; 32],
        &be32(1),
        "fee.near",
        "target.near",
        &be32(2),
        method,
        &rlp_args,
    );

    let parsed = parse_meta_call(&domain, account_id, wire).unwrap();
    assert_eq!(parsed.sender, signer);
    // The record carries the canonical method name and the hash-derived
    // argument bytes, not the wire text and RLP payload.
    assert_eq!(parsed.method_name, "adopt");
    assert_eq!(parsed.args, expected_args);
    assert_eq!(parsed.fee_amount, 1);
    assert_eq!(parsed.value, 2);
}
