//! Decoding of the binary wire envelope of a meta call: fixed-width
//! signature and number fields followed by length-prefixed UTF-8 strings
//! and argument bytes, consumed exactly.

use vstd::prelude::*;
use vstd::utf8::{decode_utf8, valid_utf8};

use crate::types::{bytes_to_string, MetaCallArgs, ParsingError, ParsingResult};

verus! {

/// The envelope fields as raw byte runs, before UTF-8 decoding.
pub struct RawEnvelopeV {
    pub signature: Seq<u8>,
    pub v: u8,
    pub nonce: Seq<u8>,
    pub fee_amount: Seq<u8>,
    pub fee_address: Seq<u8>,
    pub contract_address: Seq<u8>,
    pub value: Seq<u8>,
    pub method: Seq<u8>,
    pub args: Seq<u8>,
}

/// The wire layout: `signature[64] | v | nonce[32] | fee_amount[32] |
/// fee_address | contract_address | value[32] | method | args`, each
/// variable field prefixed by its little-endian 32-bit byte length, with
/// nothing left over.
pub open spec fn spec_decode_envelope(b: Seq<u8>) -> Option<RawEnvelopeV> {
    let n = b.len() as int;
    if n < 133 {
        Option::None
    } else {
        let fa_len = vstd::bytes::spec_u32_from_le_bytes(b.subrange(129, 133)) as int;
        if n - 133 < fa_len {
            Option::None
        } else {
            let o1 = 133 + fa_len;
            if n - o1 < 4 {
                Option::None
            } else {
                let ca_len = vstd::bytes::spec_u32_from_le_bytes(b.subrange(o1, o1 + 4)) as int;
                if n - (o1 + 4) < ca_len {
                    Option::None
                } else {
                    let o2 = o1 + 4 + ca_len;
                    if n - o2 < 36 {
                        Option::None
                    } else {
                        let m_len = vstd::bytes::spec_u32_from_le_bytes(
                            b.subrange(o2 + 32, o2 + 36),
                        ) as int;
                        if n - (o2 + 36) < m_len {
                            Option::None
                        } else {
                            let o3 = o2 + 36 + m_len;
                            if n - o3 < 4 {
                                Option::None
                            } else {
                                let a_len = vstd::bytes::spec_u32_from_le_bytes(
                                    b.subrange(o3, o3 + 4),
                                ) as int;
                                if n != o3 + 4 + a_len {
                                    Option::None
                                } else {
                                    Option::Some(
                                        RawEnvelopeV {
                                            signature: b.subrange(0, 64),
                                            v: b[64],
                                            nonce: b.subrange(65, 97),
                                            fee_amount: b.subrange(97, 129),
                                            fee_address: b.subrange(133, o1),
                                            contract_address: b.subrange(o1 + 4, o2),
                                            value: b.subrange(o2, o2 + 32),
                                            method: b.subrange(o2 + 36, o3),
                                            args: b.subrange(o3 + 4, n),
                                        },
                                    )
                                }
                            }
                        }
                    }
                }
            }
        }
    }
}

/// Copies a 64-byte slice into an owned array.
fn to_arr64(value: &[u8]) -> (r: [u8; 64])
    requires
        value@.len() == 64,
    ensures
        r@ == value@,
{
    let mut a = [0u8; 64];
    let mut i: usize = 0;
    while i < 64
        invariant
            i <= 64,
            value@.len() == 64,
            forall|j: int| 0 <= j < i ==> a@[j] == value@[j],
        decreases 64 - i,
    {
        a[i] = value[i];
        i += 1;
    }
    proof {
        assert(a@ =~= value@);
    }
    a
}

fn read_u32_len(b: &[u8], pos: usize) -> (r: usize)
    requires
        pos + 4 <= b@.len(),
    ensures
        r == vstd::bytes::spec_u32_from_le_bytes(b@.subrange(pos as int, pos + 4)),
        r <= u32::MAX,
{
    let n = b.len();
    let s = vstd::slice::slice_subrange(b, pos, pos + 4);
    let x = vstd::bytes::u32_from_le_bytes(s);
    proof {
        vstd::bytes::lemma_auto_spec_u32_to_from_le_bytes();
    }
    x as usize
}

impl MetaCallArgs {
    /// Decodes the wire envelope. Malformed bytes, excess bytes, or a
    /// string field that is not valid UTF-8 are all one decode error.
    pub fn decode(bytes: &[u8]) -> (r: ParsingResult<MetaCallArgs>)
        ensures
            match r {
                Result::Ok(m) => spec_decode_envelope(bytes@) is Some && {
                    let raw = spec_decode_envelope(bytes@).unwrap();
                    &&& m@.signature == raw.signature
                    &&& m@.v == raw.v
                    &&& m@.nonce == raw.nonce
                    &&& m@.fee_amount == raw.fee_amount
                    &&& valid_utf8(raw.fee_address)
                    &&& m@.fee_address == decode_utf8(raw.fee_address)
                    &&& valid_utf8(raw.contract_address)
                    &&& m@.contract_address == decode_utf8(raw.contract_address)
                    &&& m@.value == raw.value
                    &&& valid_utf8(raw.method)
                    &&& m@.method == decode_utf8(raw.method)
                    &&& m@.args == raw.args
                },
                Result::Err(e) => e == ParsingError::ArgumentParseError && (spec_decode_envelope(
                    bytes@,
                ) is None || {
                    let raw = spec_decode_envelope(bytes@).unwrap();
                    ||| !valid_utf8(raw.fee_address)
                    ||| !valid_utf8(raw.contract_address)
                    ||| !valid_utf8(raw.method)
                }),
            },
    {
        let n = bytes.len();
        if n < 133 {
            return Err(ParsingError::ArgumentParseError);
        }
        let fa_len = read_u32_len(bytes, 129);
        if n - 133 < fa_len {
            return Err(ParsingError::ArgumentParseError);
        }
        let o1 = 133 + fa_len;
        if n - o1 < 4 {
            return Err(ParsingError::ArgumentParseError);
        }
        let ca_len = read_u32_len(bytes, o1);
        if n - (o1 + 4) < ca_len {
            return Err(ParsingError::ArgumentParseError);
        }
        let o2 = o1 + 4 + ca_len;
        if n - o2 < 36 {
            return Err(ParsingError::ArgumentParseError);
        }
        let m_len = read_u32_len(bytes, o2 + 32);
        if n - (o2 + 36) < m_len {
            return Err(ParsingError::ArgumentParseError);
        }
        let o3 = o2 + 36 + m_len;
        if n - o3 < 4 {
            return Err(ParsingError::ArgumentParseError);
        }
        let a_len = read_u32_len(bytes, o3);
        if n - (o3 + 4) != a_len {
            return Err(ParsingError::ArgumentParseError);
        }
        let signature = to_arr64(vstd::slice::slice_subrange(bytes, 0, 64));
        let v = bytes[64];
        let nonce = crate::types::arr_to_u256(vstd::slice::slice_subrange(bytes, 65, 97));
        let fee_amount = crate::types::arr_to_u256(vstd::slice::slice_subrange(bytes, 97, 129));
        let fee_address = match bytes_to_string(
            vstd::slice::slice_to_vec(vstd::slice::slice_subrange(bytes, 133, o1)),
        ) {
            Some(s) => s,
            None => {
                return Err(ParsingError::ArgumentParseError);
            },
        };
        let contract_address = match bytes_to_string(
            vstd::slice::slice_to_vec(vstd::slice::slice_subrange(bytes, o1 + 4, o2)),
        ) {
            Some(s) => s,
            None => {
                return Err(ParsingError::ArgumentParseError);
            },
        };
        let value = crate::types::arr_to_u256(vstd::slice::slice_subrange(bytes, o2, o2 + 32));
        let method = match bytes_to_string(
            vstd::slice::slice_to_vec(vstd::slice::slice_subrange(bytes, o2 + 36, o3)),
        ) {
            Some(s) => s,
            None => {
                return Err(ParsingError::ArgumentParseError);
            },
        };
        let args = vstd::slice::slice_to_vec(vstd::slice::slice_subrange(bytes, o3 + 4, n));
        Ok(
            MetaCallArgs {
                signature,
                v,
                nonce,
                fee_amount,
                fee_address,
                contract_address,
                value,
                method,
                args,
            },
        )
    }
}

} // verus!
