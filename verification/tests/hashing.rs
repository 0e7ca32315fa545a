use gateway::eip712::{eip_712_hash_argument, near_erc712_domain};
use gateway::method_sig::MethodAndTypes;
use gateway::rlp::RlpValue;
use gateway::type_sig::ArgType;
use gateway::types::{keccak256, ParsingError};
use sha3::Digest;

fn hex_of(bytes: &[u8]) -> String {
    hex::encode(bytes)
}

#[test]
fn test_keccak256_known_vector() {
    // The well-known Keccak-256 digest of the empty input.
    assert_eq!(
        hex_of(&keccak256(b"")),
        "c5d2460186f7233c927e7db2dcc703c0e500b653ca82273b7bfad8045d85a470"
    );
}

#[test]
fn test_near_erc712_domain_golden() {
    let domain = near_erc712_domain(1);
    assert_eq!(
        hex_of(&domain),
        "ea7b23c443c9a0171785dfde26bdac18ba27703c3487ca73a14ad9ff688d6c87"
    );
    // Deterministic: a second run gives the same bytes.
    assert_eq!(near_erc712_domain(1), domain);
    // And the formula matches an independent recomputation.
    let mut bytes = Vec::new();
    bytes.extend_from_slice(&sha3::Keccak256::digest(
        "EIP712Domain(string name,string version,uint256 chainId)".as_bytes(),
    ));
    bytes.extend_from_slice(&sha3::Keccak256::digest(b"NEAR"));
    bytes.extend_from_slice(&sha3::Keccak256::digest(b"1"));
    let mut chain_id = [0u8; 32];
    chain_id[31] = 1;
    bytes.extend_from_slice(&chain_id);
    let expected: Vec<u8> = sha3::Keccak256::digest(&bytes).to_vec();
    assert_eq!(domain.to_vec(), expected);
}

fn no_types() -> MethodAndTypes {
    MethodAndTypes::parse("f()").ok().unwrap()
}

#[test]
fn test_hash_argument_leaves() {
    let types = no_types();
    // Strings hash to the keccak of their bytes.
    let h = eip_712_hash_argument(
        &ArgType::String,
        &RlpValue::Bytes(b"hello".to_vec()),
        &types,
    )
    .unwrap();
    assert_eq!(h, sha3::Keccak256::digest(b"hello").to_vec());
    // Numbers become left-padded 32-byte words.
    let h = eip_712_hash_argument(&ArgType::Uint, &RlpValue::Bytes(vec![0x12, 0x34]), &types)
        .unwrap();
    let mut expected = vec![0u8; 30];
    expected.extend_from_slice(&[0x12, 0x34]);
    assert_eq!(h, expected);
    // Fixed bytes pass through unchanged.
    let h = eip_712_hash_argument(&ArgType::Byte(2), &RlpValue::Bytes(vec![0xab, 0xcd]), &types)
        .unwrap();
    assert_eq!(h, vec![0xab, 0xcd]);
    // An address is left-padded to 32 bytes.
    let h = eip_712_hash_argument(&ArgType::Address, &RlpValue::Bytes(vec![0x11; 20]), &types)
        .unwrap();
    let mut expected = vec![0u8; 12];
    expected.extend_from_slice(&[0x11; 20]);
    assert_eq!(h, expected);
}

#[test]
fn test_hash_argument_array_and_struct() {
    let types = no_types();
    // An array hashes the concatenation of its element hashes.
    let value = RlpValue::List(vec![
        RlpValue::Bytes(b"a".to_vec()),
        RlpValue::Bytes(b"b".to_vec()),
    ]);
    let ty = ArgType::Array {
        length: None,
        inner: Box::new(ArgType::String),
    };
    let h = eip_712_hash_argument(&ty, &value, &types).unwrap();
    let mut cat = Vec::new();
    cat.extend_from_slice(&sha3::Keccak256::digest(b"a"));
    cat.extend_from_slice(&sha3::Keccak256::digest(b"b"));
    assert_eq!(h, sha3::Keccak256::digest(&cat).to_vec());

    // A struct hashes its type hash followed by its field hashes.
    let with_pet = MethodAndTypes::parse("adopt(PetObj p)PetObj(string name)").ok().unwrap();
    let value = RlpValue::List(vec![RlpValue::Bytes(b"rex".to_vec())]);
    let h = eip_712_hash_argument(
        &ArgType::Custom("PetObj".to_string()),
        &value,
        &with_pet,
    )
    .unwrap();
    let mut r: Vec<u8> = sha3::Keccak256::digest(b"PetObj(string name)").to_vec();
    r.extend_from_slice(&sha3::Keccak256::digest(b"rex"));
    assert_eq!(h, sha3::Keccak256::digest(&r).to_vec());
}

#[test]
fn test_hash_argument_shape_errors() {
    let types = no_types();
    // A leaf type never accepts a list, and an array never accepts bytes.
    assert!(matches!(
        eip_712_hash_argument(&ArgType::String, &RlpValue::List(vec![]), &types),
        Err(ParsingError::InvalidMetaTransactionFunctionArg)
    ));
    let ty = ArgType::Array {
        length: None,
        inner: Box::new(ArgType::String),
    };
    assert!(matches!(
        eip_712_hash_argument(&ty, &RlpValue::Bytes(vec![]), &types),
        Err(ParsingError::InvalidMetaTransactionFunctionArg)
    ));
    // An unknown struct name is an error, not a default.
    assert!(matches!(
        eip_712_hash_argument(
            &ArgType::Custom("Ghostly".to_string()),
            &RlpValue::List(vec![]),
            &types
        ),
        Err(ParsingError::InvalidMetaTransactionFunctionArg)
    ));
    // A numeric leaf longer than 32 bytes cannot become a word.
    assert!(matches!(
        eip_712_hash_argument(&ArgType::Uint, &RlpValue::Bytes(vec![1; 33]), &types),
        Err(ParsingError::InvalidMetaTransactionFunctionArg)
    ));
    // An address value must be exactly 20 bytes.
    assert!(matches!(
        eip_712_hash_argument(&ArgType::Address, &RlpValue::Bytes(vec![1; 19]), &types),
        Err(ParsingError::InvalidMetaTransactionFunctionArg)
    ));
}
