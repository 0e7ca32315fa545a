//! The top-level protocol step: decode a signed meta call from wire bytes,
//! rebuild its EIP-712 digest, recover the sender, and hand back the
//! populated call record. Also the pure nonce rules that the surrounding
//! contract applies per sender.

use vstd::prelude::*;
use vstd::utf8::{decode_utf8, valid_utf8};

use crate::ecrecover::{ecrecover, spec_ecrecover};
use crate::eip712::{prepare_meta_call_args, spec_prepare};
use crate::envelope::spec_decode_envelope;
use crate::types::{
    be32_to_u128, push_all, Address, InternalMetaCallArgs, InternalMetaCallArgsV, MetaCallArgs,
    ParsingError, ParsingResult, RawU256,
};

verus! {

/// A 32-byte big-endian word holds a `u128` when its sixteen high bytes
/// are zero.
pub open spec fn fits_u128(w: Seq<u8>) -> bool {
    forall|i: int| 0 <= i < 16 ==> w[i] == 0
}

/// The `u128` held in a 32-byte big-endian word.
pub open spec fn be32_val_u128(w: Seq<u8>) -> u128 {
    vstd::bytes::spec_u128_from_le_bytes(w.subrange(16, 32).reverse())
}

/// What `parse_meta_call` returns for given wire bytes: the decoded call
/// with the recovered sender, the canonical method name and the
/// hash-derived argument bytes.
pub open spec fn spec_parse_meta_call(
    domain: Seq<u8>,
    account_id: Seq<u8>,
    b: Seq<u8>,
) -> Result<InternalMetaCallArgsV, ParsingError> {
    match spec_decode_envelope(b) {
        Option::None => Result::Err(ParsingError::ArgumentParseError),
        Option::Some(raw) => if !valid_utf8(raw.fee_address) || !valid_utf8(raw.contract_address)
            || !valid_utf8(raw.method) {
            Result::Err(ParsingError::ArgumentParseError)
        } else if !fits_u128(raw.fee_amount) || !fits_u128(raw.value) {
            Result::Err(ParsingError::ArgumentParseError)
        } else {
            let input0 = InternalMetaCallArgsV {
                sender: Seq::new(20, |i: int| 0u8),
                nonce: raw.nonce,
                fee_amount: be32_val_u128(raw.fee_amount),
                fee_address: decode_utf8(raw.fee_address),
                contract_address: decode_utf8(raw.contract_address),
                method_name: decode_utf8(raw.method),
                value: be32_val_u128(raw.value),
                args: raw.args,
            };
            match spec_prepare(domain, account_id, input0) {
                Result::Err(e) => Result::Err(e),
                Result::Ok((digest, name, arg_bytes)) => match spec_ecrecover(
                    digest,
                    raw.signature + seq![raw.v],
                ) {
                    Option::None => Result::Err(ParsingError::InvalidEcRecoverSignature),
                    Option::Some(sender) => Result::Ok(
                        InternalMetaCallArgsV {
                            sender,
                            nonce: raw.nonce,
                            fee_amount: be32_val_u128(raw.fee_amount),
                            fee_address: decode_utf8(raw.fee_address),
                            contract_address: decode_utf8(raw.contract_address),
                            method_name: name,
                            value: be32_val_u128(raw.value),
                            args: arg_bytes,
                        },
                    ),
                },
            }
        },
    }
}

/// Parse encoded `MetaCallArgs`, validate with the given domain and account
/// and recover the sender's address from the signature. Returns an error if
/// the method definition or arguments are wrong, or the signature is
/// invalid or EC recovery fails.
pub fn parse_meta_call(
    domain_separator: &RawU256,
    account_id: &[u8],
    args: Vec<u8>,
) -> (r: ParsingResult<InternalMetaCallArgs>)
    ensures
        match r {
            Result::Ok(out) => spec_parse_meta_call(domain_separator@, account_id@, args@)
                == Result::<InternalMetaCallArgsV, ParsingError>::Ok(out@),
            Result::Err(e) => spec_parse_meta_call(domain_separator@, account_id@, args@)
                == Result::<InternalMetaCallArgsV, ParsingError>::Err(e),
        },
{
    let meta_tx = match MetaCallArgs::decode(args.as_slice()) {
        Ok(m) => m,
        Err(e) => {
            return Err(e);
        },
    };
    let fee_amount = match be32_to_u128(meta_tx.fee_amount.as_slice()) {
        Some(x) => x,
        None => {
            return Err(ParsingError::ArgumentParseError);
        },
    };
    let value = match be32_to_u128(meta_tx.value.as_slice()) {
        Some(x) => x,
        None => {
            return Err(ParsingError::ArgumentParseError);
        },
    };
    let mut result = InternalMetaCallArgs {
        sender: Address::zero(),
        nonce: meta_tx.nonce,
        fee_amount,
        fee_address: meta_tx.fee_address,
        contract_address: meta_tx.contract_address,
        method_name: meta_tx.method,
        value,
        args: meta_tx.args,
    };
    let (msg, method_name, fn_input) = match prepare_meta_call_args(
        domain_separator,
        account_id,
        &result,
    ) {
        Ok(t) => t,
        Err(e) => {
            return Err(e);
        },
    };
    let mut signature: Vec<u8> = Vec::new();
    push_all(&mut signature, meta_tx.signature.as_slice());
    signature.push(meta_tx.v);
    proof {
        assert(signature@ =~= meta_tx@.signature + seq![meta_tx@.v]);
    }
    match ecrecover(&msg, signature.as_slice()) {
        Ok(sender) => {
            result.sender = sender;
            result.method_name = method_name;
            result.args = fn_input;
            Ok(result)
        },
        Err(_) => Err(ParsingError::InvalidEcRecoverSignature),
    }
}

/// The successor of a nonce read as a 256-bit big-endian counter; `None`
/// once every byte is 0xff.
pub open spec fn spec_next_nonce(b: Seq<u8>) -> Option<Seq<u8>>
    decreases b.len(),
{
    if b.len() == 0 {
        Option::None
    } else if b.last() < 255 {
        Option::Some(b.update(b.len() - 1, (b.last() + 1) as u8))
    } else {
        match spec_next_nonce(b.drop_last()) {
            Option::None => Option::None,
            Option::Some(f) => Option::Some(f.push(0)),
        }
    }
}

/// Whether a submitted nonce equals the stored one; the strict equality
/// check of the replay protection.
pub fn nonce_matches(expected: &RawU256, submitted: &RawU256) -> (r: bool)
    ensures
        r == (expected@ == submitted@),
{
    let mut i: usize = 0;
    while i < 32
        invariant
            i <= 32,
            forall|j: int| 0 <= j < i ==> expected@[j] == submitted@[j],
        decreases 32 - i,
    {
        if expected[i] != submitted[i] {
            return false;
        }
        i += 1;
    }
    proof {
        assert(expected@ =~= submitted@);
    }
    true
}

/// The next value of a sender's nonce counter, incremented big-endian with
/// carry; `None` on the final value, which never recurs.
pub fn next_nonce(current: &RawU256) -> (r: Option<RawU256>)
    ensures
        match r {
            Option::Some(next) => spec_next_nonce(current@) == Option::Some(next@),
            Option::None => spec_next_nonce(current@) is None,
        },
{
    let mut out = *current;
    proof {
        assert(current@.take(32) =~= current@);
        assert forall|f: Seq<u8>| #[trigger] f.len() >= 0 implies f + Seq::new(0 as nat, |k: int| 0u8)
            =~= f by {}
    }
    let mut i: usize = 32;
    while i > 0
        invariant
            i <= 32,
            out@.len() == 32,
            // the suffix after position i has been zeroed; the prefix is
            // untouched
            forall|j: int| 0 <= j < i ==> out@[j] == current@[j],
            forall|j: int| i <= j < 32 ==> out@[j] == 0,
            forall|j: int| i <= j < 32 ==> current@[j] == 255,
            spec_next_nonce(current@) == match spec_next_nonce(current@.take(i as int)) {
                Option::None => Option::<Seq<u8>>::None,
                Option::Some(f) => Option::Some(f + Seq::new((32 - i) as nat, |k: int| 0u8)),
            },
        decreases i,
    {
        i -= 1;
        if current[i] < 255 {
            out[i] = current[i] + 1;
            proof {
                let t = current@.take(i + 1);
                assert(t.last() == current@[i as int]);
                assert(spec_next_nonce(t) == Option::Some(
                    t.update(t.len() - 1, (t.last() + 1) as u8),
                ));
                assert(out@ =~= t.update(t.len() - 1, (t.last() + 1) as u8) + Seq::new(
                    (31 - i) as nat,
                    |k: int| 0u8,
                ));
            }
            return Some(out);
        }
        out[i] = 0;
        proof {
            let t = current@.take(i + 1);
            assert(t.last() == 255);
            assert(t.drop_last() =~= current@.take(i as int));
            assert forall|f: Seq<u8>|
                spec_next_nonce(current@.take(i as int)) == Option::Some(f) implies f.push(0)
                + Seq::new((31 - i) as nat, |k: int| 0u8) =~= f + Seq::new(
                (32 - i) as nat,
                |k: int| 0u8,
            ) by {}
        }
    }
    proof {
        assert(current@.take(0) =~= Seq::<u8>::empty());
    }
    None
}

} // verus!
