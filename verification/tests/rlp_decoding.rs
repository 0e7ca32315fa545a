use gateway::rlp::{rlp_decode, RlpValue};
use gateway::types::ParsingError;

#[test]
fn test_rlp_decode_empty_list() {
    assert_eq!(rlp_decode(&[0xc0]).unwrap(), Vec::<RlpValue>::new());
}

#[test]
fn test_rlp_decode_short_strings() {
    // ["dog"]
    let decoded = rlp_decode(&[0xc4, 0x83, b'd', b'o', b'g']).unwrap();
    assert_eq!(decoded, vec![RlpValue::Bytes(b"dog".to_vec())]);
    // [0x01, 0x7f, ""]
    let decoded = rlp_decode(&[0xc3, 0x01, 0x7f, 0x80]).unwrap();
    assert_eq!(
        decoded,
        vec![
            RlpValue::Bytes(vec![0x01]),
            RlpValue::Bytes(vec![0x7f]),
            RlpValue::Bytes(vec![]),
        ]
    );
}

#[test]
fn test_rlp_decode_long_string() {
    // A 56-byte string needs the long form: 0xb8 then the length, and the
    // 58-byte list payload needs the long list form in turn.
    let payload = vec![0x41u8; 56];
    let mut encoded = vec![0xf8, 58, 0xb8, 56];
    encoded.extend_from_slice(&payload);
    let decoded = rlp_decode(&encoded).unwrap();
    assert_eq!(decoded, vec![RlpValue::Bytes(payload)]);
}

#[test]
fn test_rlp_decode_nested_lists() {
    // [[[]]]
    let decoded = rlp_decode(&[0xc2, 0xc1, 0xc0]).unwrap();
    assert_eq!(
        decoded,
        vec![RlpValue::List(vec![RlpValue::List(vec![])])]
    );
}

fn nested_lists(depth: usize) -> Vec<u8> {
    let mut v = vec![0xc0u8];
    for _ in 1..depth {
        let mut outer = vec![0xc0u8 + v.len() as u8];
        outer.extend_from_slice(&v);
        v = outer;
    }
    v
}

#[test]
fn test_rlp_decode_depth_limit() {
    // 32 levels of nesting decode; 33 are rejected.
    assert!(rlp_decode(&nested_lists(32)).is_ok());
    assert!(matches!(
        rlp_decode(&nested_lists(33)),
        Err(ParsingError::InvalidMetaTransactionFunctionArg)
    ));
}

#[test]
fn test_rlp_decode_errors() {
    // Empty input.
    assert!(rlp_decode(&[]).is_err());
    // The outermost value must be a list, not a string.
    assert!(rlp_decode(&[0x83, b'd', b'o', b'g']).is_err());
    // A single byte below 0x80 must be encoded as itself.
    assert!(rlp_decode(&[0xc2, 0x81, 0x05]).is_err());
    // Trailing bytes after the list are rejected.
    assert!(rlp_decode(&[0xc0, 0x00]).is_err());
    // A truncated payload is rejected.
    assert!(rlp_decode(&[0xc4, 0x83, b'd', b'o']).is_err());
    // A long length with a leading zero byte is non-canonical.
    assert!(rlp_decode(&[0xc3, 0xb8, 0x00, 0x41]).is_err());
}
