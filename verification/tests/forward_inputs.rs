use gateway::forward::{parse_call_input, parse_transfer_input, slice_to_u32, slice_to_u64};

#[test]
fn test_slice_words() {
    assert_eq!(slice_to_u64(&[1, 0, 0, 0, 0, 0, 0, 0]), 1);
    assert_eq!(slice_to_u64(&[0x88, 0x77, 0x66, 0x55, 0x44, 0x33, 0x22, 0x11]), 0x1122334455667788);
    assert_eq!(slice_to_u32(&[0xd2, 0x02, 0x96, 0x49]), 1234567890);
}

#[test]
fn test_parse_call_input() {
    let mut data = Vec::new();
    data.extend_from_slice(&42u64.to_le_bytes());
    data.extend_from_slice(&7u128.to_le_bytes());
    data.extend_from_slice(&(8u32).to_le_bytes());
    data.extend_from_slice(b"receiver");
    data.extend_from_slice(&(6u32).to_le_bytes());
    data.extend_from_slice(b"method");
    data.extend_from_slice(&(3u32).to_le_bytes());
    data.extend_from_slice(&[1, 2, 3]);

    let c = parse_call_input(&data).unwrap();
    assert_eq!(c.gas, 42);
    assert_eq!(c.amount, 7);
    assert_eq!(c.receiver, b"receiver".to_vec());
    assert_eq!(c.method_name, b"method".to_vec());
    assert_eq!(c.args, vec![1, 2, 3]);

    // Truncated input is an error, never an out-of-bounds read.
    assert!(parse_call_input(&data[..20]).is_err());
    // Excess bytes are rejected too.
    data.push(0);
    assert!(parse_call_input(&data).is_err());
}

#[test]
fn test_parse_transfer_input() {
    let mut data = Vec::new();
    data.extend_from_slice(&99u128.to_le_bytes());
    data.extend_from_slice(b"alice.near");
    let t = parse_transfer_input(&data).unwrap();
    assert_eq!(t.amount, 99);
    assert_eq!(t.receiver, b"alice.near".to_vec());

    assert!(parse_transfer_input(&data[..15]).is_err());
}
