//! Parsing of the forwarding shim's binary inputs: the proxied call
//! payload `<gas:u64><amount:u128><receiver_len:u32><receiver>
//! <method_name_len:u32><method_name><args_len:u32><args>` and the
//! transfer payload `<amount:u128><receiver>`, all little-endian.

use vstd::prelude::*;

use crate::types::ParsingError;

verus! {

/// Reads a little-endian `u64` from an 8-byte slice.
pub fn slice_to_u64(s: &[u8]) -> (r: u64)
    requires
        s@.len() == 8,
    ensures
        r == vstd::bytes::spec_u64_from_le_bytes(s@),
{
    vstd::bytes::u64_from_le_bytes(s)
}

/// Reads a little-endian `u32` from a 4-byte slice.
pub fn slice_to_u32(s: &[u8]) -> (r: u32)
    requires
        s@.len() == 4,
    ensures
        r == vstd::bytes::spec_u32_from_le_bytes(s@),
{
    vstd::bytes::u32_from_le_bytes(s)
}

/// A proxied call, decoded from the shim's input bytes.
#[derive(Debug, PartialEq, Eq)]
pub struct CallInput {
    pub gas: u64,
    pub amount: u128,
    pub receiver: Vec<u8>,
    pub method_name: Vec<u8>,
    pub args: Vec<u8>,
}

pub struct CallInputV {
    pub gas: u64,
    pub amount: u128,
    pub receiver: Seq<u8>,
    pub method_name: Seq<u8>,
    pub args: Seq<u8>,
}

impl View for CallInput {
    type V = CallInputV;

    open spec fn view(&self) -> CallInputV {
        CallInputV {
            gas: self.gas,
            amount: self.amount,
            receiver: self.receiver@,
            method_name: self.method_name@,
            args: self.args@,
        }
    }
}

/// The call payload layout, consumed exactly.
pub open spec fn spec_parse_call_input(b: Seq<u8>) -> Option<CallInputV> {
    let n = b.len() as int;
    if n < 28 {
        Option::None
    } else {
        let r_len = vstd::bytes::spec_u32_from_le_bytes(b.subrange(24, 28)) as int;
        if n - 28 < r_len {
            Option::None
        } else {
            let o1 = 28 + r_len;
            if n - o1 < 4 {
                Option::None
            } else {
                let m_len = vstd::bytes::spec_u32_from_le_bytes(b.subrange(o1, o1 + 4)) as int;
                if n - (o1 + 4) < m_len {
                    Option::None
                } else {
                    let o2 = o1 + 4 + m_len;
                    if n - o2 < 4 {
                        Option::None
                    } else {
                        let a_len = vstd::bytes::spec_u32_from_le_bytes(
                            b.subrange(o2, o2 + 4),
                        ) as int;
                        if n != o2 + 4 + a_len {
                            Option::None
                        } else {
                            Option::Some(
                                CallInputV {
                                    gas: vstd::bytes::spec_u64_from_le_bytes(b.subrange(0, 8)),
                                    amount: vstd::bytes::spec_u128_from_le_bytes(
                                        b.subrange(8, 24),
                                    ),
                                    receiver: b.subrange(28, o1),
                                    method_name: b.subrange(o1 + 4, o2),
                                    args: b.subrange(o2 + 4, n),
                                },
                            )
                        }
                    }
                }
            }
        }
    }
}

/// Decodes the proxied call payload; truncated or oversized input is an
/// error, never an out-of-bounds read.
pub fn parse_call_input(data: &[u8]) -> (r: Result<CallInput, ParsingError>)
    ensures
        match r {
            Result::Ok(c) => spec_parse_call_input(data@) == Option::Some(c@),
            Result::Err(e) => spec_parse_call_input(data@) is None && e
                == ParsingError::ArgumentParseError,
        },
{
    let n = data.len();
    if n < 28 {
        return Err(ParsingError::ArgumentParseError);
    }
    let gas = slice_to_u64(vstd::slice::slice_subrange(data, 0, 8));
    let amount = vstd::bytes::u128_from_le_bytes(vstd::slice::slice_subrange(data, 8, 24));
    let r_len = slice_to_u32(vstd::slice::slice_subrange(data, 24, 28)) as usize;
    if n - 28 < r_len {
        return Err(ParsingError::ArgumentParseError);
    }
    let o1 = 28 + r_len;
    if n - o1 < 4 {
        return Err(ParsingError::ArgumentParseError);
    }
    let m_len = slice_to_u32(vstd::slice::slice_subrange(data, o1, o1 + 4)) as usize;
    if n - (o1 + 4) < m_len {
        return Err(ParsingError::ArgumentParseError);
    }
    let o2 = o1 + 4 + m_len;
    if n - o2 < 4 {
        return Err(ParsingError::ArgumentParseError);
    }
    let a_len = slice_to_u32(vstd::slice::slice_subrange(data, o2, o2 + 4)) as usize;
    if n - (o2 + 4) != a_len {
        return Err(ParsingError::ArgumentParseError);
    }
    let receiver = vstd::slice::slice_to_vec(vstd::slice::slice_subrange(data, 28, o1));
    let method_name = vstd::slice::slice_to_vec(vstd::slice::slice_subrange(data, o1 + 4, o2));
    let args = vstd::slice::slice_to_vec(vstd::slice::slice_subrange(data, o2 + 4, n));
    Ok(CallInput { gas, amount, receiver, method_name, args })
}

/// A transfer, decoded from the shim's input bytes.
#[derive(Debug, PartialEq, Eq)]
pub struct TransferInput {
    pub amount: u128,
    pub receiver: Vec<u8>,
}

/// The transfer payload: a 16-byte little-endian amount, then the
/// receiver's account bytes.
pub fn parse_transfer_input(data: &[u8]) -> (r: Result<TransferInput, ParsingError>)
    ensures
        match r {
            Result::Ok(t) => data@.len() >= 16 && t.amount
                == vstd::bytes::spec_u128_from_le_bytes(data@.subrange(0, 16)) && t.receiver@
                == data@.skip(16),
            Result::Err(e) => data@.len() < 16 && e == ParsingError::ArgumentParseError,
        },
{
    let n = data.len();
    if n < 16 {
        return Err(ParsingError::ArgumentParseError);
    }
    let amount = vstd::bytes::u128_from_le_bytes(vstd::slice::slice_subrange(data, 0, 16));
    let receiver = vstd::slice::slice_to_vec(vstd::slice::slice_subrange(data, 16, n));
    proof {
        assert(data@.subrange(16, n as int) =~= data@.skip(16));
    }
    Ok(TransferInput { amount, receiver })
}

} // verus!
