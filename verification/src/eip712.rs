//! EIP-712 hashing: the domain separator, recursive struct/array/leaf
//! hashing of decoded argument values against their parsed types, and the
//! assembly of the final signing digest for a meta call.

use vstd::prelude::*;
use vstd::utf8::encode_utf8;

use crate::method_sig::{
    find_type, method_signature, spec_method_signature, spec_parse_method_and_types, Arg, ArgV,
    MethodAndTypes,
};
use crate::rlp::{rlp_decode, rlp_elems_view, spec_rlp_decode, RlpValue, RlpValueV};
use crate::type_sig::{ArgType, ArgTypeV};
use crate::types::{
    arr_to_u256, keccak256, keccak_of, left_pad32, push_all, spec_u128_be32, spec_u64_be32,
    u128_to_be32, u64_to_be32, Address, InternalMetaCallArgs, InternalMetaCallArgsV, ParsingError,
    ParsingResult, RawU256,
};

verus! {

/// NEAR's EIP-712 domain separator: a pure function of the chain id.
pub open spec fn spec_near_erc712_domain(chain_id: u64) -> Seq<u8> {
    keccak_of(
        keccak_of(encode_utf8("EIP712Domain(string name,string version,uint256 chainId)"@))
            + keccak_of(encode_utf8("NEAR"@)) + keccak_of(encode_utf8("1"@)) + spec_u64_be32(
            chain_id,
        ),
    )
}

/// NEAR's domainSeparator per the EIP-712 definition of domainSeparator,
/// binding signatures to this application and chain.
pub fn near_erc712_domain(chain_id: u64) -> (r: RawU256)
    ensures
        r@ == spec_near_erc712_domain(chain_id),
{
    let mut bytes: Vec<u8> = Vec::new();
    let k1 = keccak256("EIP712Domain(string name,string version,uint256 chainId)".as_bytes());
    push_all(&mut bytes, k1.as_slice());
    let k2 = keccak256("NEAR".as_bytes());
    push_all(&mut bytes, k2.as_slice());
    let k3 = keccak256("1".as_bytes());
    push_all(&mut bytes, k3.as_slice());
    let cid = u64_to_be32(chain_id);
    push_all(&mut bytes, cid.as_slice());
    let digest = keccak256(bytes.as_slice());
    arr_to_u256(digest.as_slice())
}

/// An address as a 32-byte word: 12 zero bytes, then the 20 address bytes.
pub fn encode_address(addr: Address) -> (r: Vec<u8>)
    ensures
        r@ == left_pad32(addr@),
{
    let mut bytes: Vec<u8> = Vec::new();
    let mut i: usize = 0;
    while i < 12
        invariant
            i <= 12,
            bytes@ =~= Seq::new(i as nat, |k: int| 0u8),
        decreases 12 - i,
    {
        bytes.push(0);
        proof {
            assert(bytes@ =~= Seq::new((i + 1) as nat, |k: int| 0u8));
        }
        i += 1;
    }
    push_all(&mut bytes, addr.0.as_slice());
    proof {
        assert(bytes@ =~= left_pad32(addr@));
    }
    bytes
}

/// The EIP-712 hash of one argument value against its type. `None` on any
/// shape mismatch, an unknown struct name, an oversized word, a list longer
/// than its struct declaration, or an address that is not 20 bytes.
pub open spec fn spec_hash_arg(
    ty: ArgTypeV,
    value: RlpValueV,
    types: Seq<crate::method_sig::MethodV>,
) -> Option<Seq<u8>>
    decreases value, 0int,
{
    match ty {
        ArgTypeV::String => spec_hash_bytes_leaf(value),
        ArgTypeV::Bytes => spec_hash_bytes_leaf(value),
        ArgTypeV::Byte(_) => match value {
            RlpValueV::Bytes(b) => Option::Some(b),
            RlpValueV::List(_) => Option::None,
        },
        ArgTypeV::Uint => spec_hash_word_leaf(value),
        ArgTypeV::Int => spec_hash_word_leaf(value),
        ArgTypeV::Bool => spec_hash_word_leaf(value),
        ArgTypeV::Address => match value {
            RlpValueV::Bytes(b) => if b.len() == 20 {
                Option::Some(left_pad32(b))
            } else {
                Option::None
            },
            RlpValueV::List(_) => Option::None,
        },
        ArgTypeV::Array { length, inner } => match value {
            RlpValueV::Bytes(_) => Option::None,
            RlpValueV::List(l) => match spec_hash_array_elems(*inner, l, types) {
                Option::None => Option::None,
                Option::Some(cat) => Option::Some(keccak_of(cat)),
            },
        },
        ArgTypeV::Custom(name) => match value {
            RlpValueV::Bytes(_) => Option::None,
            RlpValueV::List(l) => match find_type(types, name) {
                Option::None => Option::None,
                Option::Some(def) => if l.len() <= def.args.len() {
                    match spec_hash_fields(def.args, l, types) {
                        Option::None => Option::None,
                        Option::Some(cat) => Option::Some(
                            keccak_of(keccak_of(encode_utf8(def.raw)) + cat),
                        ),
                    }
                } else {
                    Option::None
                },
            },
        },
    }
}

/// A string or dynamic-bytes leaf: the hash of the bytes.
pub open spec fn spec_hash_bytes_leaf(value: RlpValueV) -> Option<Seq<u8>> {
    match value {
        RlpValueV::Bytes(b) => Option::Some(keccak_of(b)),
        RlpValueV::List(_) => Option::None,
    }
}

/// A numeric or boolean leaf: the bytes as a left-padded 32-byte word.
pub open spec fn spec_hash_word_leaf(value: RlpValueV) -> Option<Seq<u8>> {
    match value {
        RlpValueV::Bytes(b) => if b.len() <= 32 {
            Option::Some(left_pad32(b))
        } else {
            Option::None
        },
        RlpValueV::List(_) => Option::None,
    }
}

/// The concatenated hashes of the elements of an array value.
pub open spec fn spec_hash_array_elems(
    inner: ArgTypeV,
    l: Seq<RlpValueV>,
    types: Seq<crate::method_sig::MethodV>,
) -> Option<Seq<u8>>
    decreases l, 1int,
{
    if l.len() == 0 {
        Option::Some(Seq::empty())
    } else {
        match spec_hash_arg(inner, l.first(), types) {
            Option::None => Option::None,
            Option::Some(h) => match spec_hash_array_elems(inner, l.drop_first(), types) {
                Option::None => Option::None,
                Option::Some(rest) => Option::Some(h + rest),
            },
        }
    }
}

/// The concatenated hashes of a struct's field values, each against the
/// declared type at its position.
pub open spec fn spec_hash_fields(
    args: Seq<ArgV>,
    l: Seq<RlpValueV>,
    types: Seq<crate::method_sig::MethodV>,
) -> Option<Seq<u8>>
    recommends
        l.len() <= args.len(),
    decreases l, 1int,
{
    if l.len() == 0 {
        Option::Some(Seq::empty())
    } else if args.len() == 0 {
        Option::None
    } else {
        match spec_hash_arg(args.first().t, l.first(), types) {
            Option::None => Option::None,
            Option::Some(h) => match spec_hash_fields(args.drop_first(), l.drop_first(), types) {
                Option::None => Option::None,
                Option::Some(rest) => Option::Some(h + rest),
            },
        }
    }
}

/// EIP-712 hash a RLP value. This function serves as a guard to assert the
/// value is a byte string instead of a list.
pub fn eip_712_rlp_value<'a>(value: &'a RlpValue) -> (r: ParsingResult<&'a Vec<u8>>)
    ensures
        match r {
            Result::Ok(b) => value@ == RlpValueV::Bytes(b@),
            Result::Err(e) => value@ is List && e == ParsingError::InvalidMetaTransactionFunctionArg,
        },
{
    match value {
        RlpValue::Bytes(b) => Ok(b),
        RlpValue::List(_) => Err(ParsingError::InvalidMetaTransactionFunctionArg),
    }
}

/// EIP-712 hash a RLP list. This function serves as a guard to assert the
/// value is a list instead of a byte string.
pub fn eip_712_rlp_list<'a>(value: &'a RlpValue) -> (r: ParsingResult<&'a Vec<RlpValue>>)
    ensures
        match r {
            Result::Ok(l) => value@ == RlpValueV::List(rlp_elems_view(l@)),
            Result::Err(e) => value@ is Bytes && e == ParsingError::InvalidMetaTransactionFunctionArg,
        },
{
    match value {
        RlpValue::List(l) => Ok(l),
        RlpValue::Bytes(_) => Err(ParsingError::InvalidMetaTransactionFunctionArg),
    }
}

/// eip-712 hash a single argument, whose type is `ty` and value is `value`.
/// Definitions of the custom struct types are in `types`.
pub fn eip_712_hash_argument(
    ty: &ArgType,
    value: &RlpValue,
    types: &MethodAndTypes,
) -> (r: ParsingResult<Vec<u8>>)
    ensures
        match r {
            Result::Ok(h) => spec_hash_arg(ty@, value@, types@.types) == Option::Some(h@),
            Result::Err(e) => spec_hash_arg(ty@, value@, types@.types) is None && e
                == ParsingError::InvalidMetaTransactionFunctionArg,
        },
    decreases value, 0int,
{
    match ty {
        ArgType::String | ArgType::Bytes => {
            let b = match eip_712_rlp_value(value) {
                Ok(b) => b,
                Err(e) => {
                    return Err(e);
                },
            };
            Ok(keccak256(b.as_slice()))
        },
        ArgType::Byte(_) => {
            let b = match eip_712_rlp_value(value) {
                Ok(b) => b,
                Err(e) => {
                    return Err(e);
                },
            };
            Ok(vstd::slice::slice_to_vec(b.as_slice()))
        },
        ArgType::Uint | ArgType::Int | ArgType::Bool => {
            let b = match eip_712_rlp_value(value) {
                Ok(b) => b,
                Err(e) => {
                    return Err(e);
                },
            };
            if b.len() > 32 {
                return Err(ParsingError::InvalidMetaTransactionFunctionArg);
            }
            let mut v: Vec<u8> = Vec::new();
            let pad = 32 - b.len();
            let mut i: usize = 0;
            while i < pad
                invariant
                    i <= pad,
                    v@ =~= Seq::new(i as nat, |k: int| 0u8),
                decreases pad - i,
            {
                v.push(0);
                proof {
                    assert(v@ =~= Seq::new((i + 1) as nat, |k: int| 0u8));
                }
                i += 1;
            }
            push_all(&mut v, b.as_slice());
            proof {
                assert(v@ =~= left_pad32(b@));
            }
            Ok(v)
        },
        ArgType::Address => {
            let b = match eip_712_rlp_value(value) {
                Ok(b) => b,
                Err(e) => {
                    return Err(e);
                },
            };
            if b.len() != 20 {
                return Err(ParsingError::InvalidMetaTransactionFunctionArg);
            }
            Ok(encode_address(Address::from_slice(b.as_slice())))
        },
        ArgType::Array { length, inner } => match value {
            RlpValue::Bytes(_) => Err(ParsingError::InvalidMetaTransactionFunctionArg),
            RlpValue::List(l) => {
                let cat = match hash_array_elems(inner, l.as_slice(), types) {
                    Ok(cat) => cat,
                    Err(e) => {
                        return Err(e);
                    },
                };
                Ok(keccak256(cat.as_slice()))
            },
        },
        ArgType::Custom(struct_name) => match value {
            RlpValue::Bytes(_) => Err(ParsingError::InvalidMetaTransactionFunctionArg),
            RlpValue::List(l) => {
                proof {
                    crate::rlp::lemma_elems_view_index(l@);
                    assert(value@ == RlpValueV::List(rlp_elems_view(l@)));
                }
                let def = match types.lookup_type(struct_name.as_str()) {
                    Some(d) => d,
                    None => {
                        return Err(ParsingError::InvalidMetaTransactionFunctionArg);
                    },
                };
                if l.len() > def.args.len() {
                    return Err(ParsingError::InvalidMetaTransactionFunctionArg);
                }
                let def_args = def.args.as_slice();
                proof {
                    assert(def_args@.map_values(|a: Arg| a@) == def@.args);
                }
                let cat = match hash_fields(def_args, l.as_slice(), types) {
                    Ok(cat) => cat,
                    Err(e) => {
                        return Err(e);
                    },
                };
                // struct_type.raw is the struct type with argument names (a
                // "method_def"), so it follows the EIP-712 typeHash.
                let mut r = keccak256(def.raw.as_str().as_bytes());
                push_all(&mut r, cat.as_slice());
                Ok(keccak256(r.as_slice()))
            },
        },
    }
}

fn hash_array_elems(
    inner: &ArgType,
    items: &[RlpValue],
    types: &MethodAndTypes,
) -> (r: ParsingResult<Vec<u8>>)
    ensures
        match r {
            Result::Ok(cat) => spec_hash_array_elems(inner@, rlp_elems_view(items@), types@.types)
                == Option::Some(cat@),
            Result::Err(e) => spec_hash_array_elems(inner@, rlp_elems_view(items@), types@.types)
                is None && e == ParsingError::InvalidMetaTransactionFunctionArg,
        },
    decreases items@, 1int,
{
    let ghost lv = rlp_elems_view(items@);
    proof {
        crate::rlp::lemma_elems_view_index(items@);
    }
    if items.len() == 0 {
        proof {
            assert(lv =~= Seq::<RlpValueV>::empty());
        }
        return Ok(Vec::new());
    }
    let first = &items[0];
    let h = match eip_712_hash_argument(inner, first, types) {
        Ok(h) => h,
        Err(e) => {
            proof {
                assert(lv.first() == first@);
            }
            return Err(e);
        },
    };
    let tail = vstd::slice::slice_subrange(items, 1, items.len());
    proof {
        assert(tail@ =~= items@.drop_first());
        crate::rlp::lemma_elems_view_index(tail@);
        assert(rlp_elems_view(tail@) =~= lv.drop_first());
        assert(lv.first() == first@);
    }
    let rest = match hash_array_elems(inner, tail, types) {
        Ok(rest) => rest,
        Err(e) => {
            return Err(e);
        },
    };
    let mut v = h;
    push_all(&mut v, rest.as_slice());
    Ok(v)
}

fn hash_fields(args: &[Arg], items: &[RlpValue], types: &MethodAndTypes) -> (r: ParsingResult<
    Vec<u8>,
>)
    requires
        items@.len() <= args@.len(),
    ensures
        match r {
            Result::Ok(cat) => spec_hash_fields(
                args@.map_values(|a: Arg| a@),
                rlp_elems_view(items@),
                types@.types,
            ) == Option::Some(cat@),
            Result::Err(e) => spec_hash_fields(
                args@.map_values(|a: Arg| a@),
                rlp_elems_view(items@),
                types@.types,
            ) is None && e == ParsingError::InvalidMetaTransactionFunctionArg,
        },
    decreases items@, 1int,
{
    let ghost lv = rlp_elems_view(items@);
    let ghost av = args@.map_values(|a: Arg| a@);
    proof {
        crate::rlp::lemma_elems_view_index(items@);
    }
    if items.len() == 0 {
        proof {
            assert(lv =~= Seq::<RlpValueV>::empty());
        }
        return Ok(Vec::new());
    }
    let first = &items[0];
    let h = match eip_712_hash_argument(&args[0].t, first, types) {
        Ok(h) => h,
        Err(e) => {
            proof {
                assert(lv.first() == first@);
                assert(av.first() == args@[0]@);
            }
            return Err(e);
        },
    };
    let args_tail = vstd::slice::slice_subrange(args, 1, args.len());
    let tail = vstd::slice::slice_subrange(items, 1, items.len());
    proof {
        assert(tail@ =~= items@.drop_first());
        crate::rlp::lemma_elems_view_index(tail@);
        assert(rlp_elems_view(tail@) =~= lv.drop_first());
        assert(lv.first() == first@);
        assert(av.first() == args@[0]@);
        assert(args_tail@ =~= args@.drop_first());
        assert(args_tail@.map_values(|a: Arg| a@) =~= av.drop_first());
    }
    let rest = match hash_fields(args_tail, tail, types) {
        Ok(rest) => rest,
        Err(e) => {
            return Err(e);
        },
    };
    let mut v = h;
    push_all(&mut v, rest.as_slice());
    Ok(v)
}

} // verus!

verus! {

/// Number of characters before the first `(` at or after position `i`.
pub open spec fn non_paren_len(s: Seq<char>, i: int) -> nat
    decreases s.len() - i,
{
    if i < s.len() && s[i] != '(' {
        1 + non_paren_len(s, i + 1)
    } else {
        0
    }
}

/// The `Arguments` struct type text of a meta call: `Arguments()` for an
/// empty method, else `Arguments` followed by the method text from its
/// first parenthesis on.
pub open spec fn spec_arguments_text(method_name: Seq<char>) -> Result<Seq<char>, ParsingError> {
    if method_name.len() == 0 {
        Result::Ok("Arguments()"@)
    } else {
        let p = non_paren_len(method_name, 0) as int;
        if p >= method_name.len() {
            Result::Err(ParsingError::InvalidMetaTransactionMethodName)
        } else {
            Result::Ok("Arguments"@ + method_name.skip(p))
        }
    }
}

/// The final EIP-712 signing digest over a hashed message, in the standard
/// `signTypedData` form.
pub open spec fn spec_digest(domain: Seq<u8>, message: Seq<u8>) -> Seq<u8> {
    keccak_of(seq![0x19u8, 0x01u8] + domain + keccak_of(message))
}

/// What `prepare_meta_call_args` returns: the signing digest, the canonical
/// method name, and the hash-derived argument bytes.
pub open spec fn spec_prepare(
    domain: Seq<u8>,
    account_id: Seq<u8>,
    input: InternalMetaCallArgsV,
) -> Result<(Seq<u8>, Seq<char>, Seq<u8>), ParsingError> {
    match spec_arguments_text(input.method_name) {
        Result::Err(e) => Result::Err(e),
        Result::Ok(arguments) => {
            let types_text =
                "NearTx(string gatewayId,uint256 nonce,uint256 feeAmount,address feeReceiver,address receiver,uint256 value,string method,Arguments arguments)"@
                + arguments;
            let head = keccak_of(encode_utf8(types_text)) + keccak_of(account_id) + input.nonce
                + spec_u128_be32(input.fee_amount) + keccak_of(encode_utf8(input.fee_address))
                + keccak_of(encode_utf8(input.contract_address)) + spec_u128_be32(input.value);
            if input.method_name.len() == 0 {
                Result::Ok((spec_digest(domain, head), Seq::empty(), Seq::empty()))
            } else {
                match spec_parse_method_and_types(input.method_name) {
                    Result::Err(e) => Result::Err(e),
                    Result::Ok(mt) => {
                        let with_sig = head + keccak_of(encode_utf8(spec_method_signature(mt)));
                        match spec_rlp_decode(input.args) {
                            Option::None => Result::Err(
                                ParsingError::InvalidMetaTransactionFunctionArg,
                            ),
                            Option::Some(vals) => if mt.method.args.len() != vals.len() {
                                Result::Err(ParsingError::ArgsLengthMismatch)
                            } else {
                                match spec_hash_fields(mt.method.args, vals, mt.types) {
                                    Option::None => Result::Err(
                                        ParsingError::InvalidMetaTransactionFunctionArg,
                                    ),
                                    Option::Some(cat) => {
                                        let arg_bytes = keccak_of(encode_utf8(arguments)) + cat;
                                        Result::Ok(
                                            (
                                                spec_digest(
                                                    domain,
                                                    with_sig + keccak_of(arg_bytes),
                                                ),
                                                mt.method.name,
                                                arg_bytes,
                                            ),
                                        )
                                    },
                                }
                            },
                        }
                    },
                }
            }
        },
    }
}

/// Position of the first `(` of the method text, if there is one.
fn find_paren(s: &str, len: usize) -> (r: Option<usize>)
    requires
        len == s@.len(),
    ensures
        match r {
            Option::Some(p) => p as int == non_paren_len(s@, 0) && p < len,
            Option::None => non_paren_len(s@, 0) >= s@.len(),
        },
{
    let mut j: usize = 0;
    while j < len && s.get_char(j) != '('
        invariant
            j <= len,
            len == s@.len(),
            non_paren_len(s@, 0) == j + non_paren_len(s@, j as int),
        decreases len - j,
    {
        j += 1;
    }
    if j < len {
        Some(j)
    } else {
        None
    }
}

/// eip-712 hash struct of the entire meta call and abi-encode the function
/// args for the downstream executor.
#[verifier::loop_isolation(false)]
pub fn prepare_meta_call_args(
    domain_separator: &RawU256,
    account_id: &[u8],
    input: &InternalMetaCallArgs,
) -> (r: ParsingResult<(RawU256, String, Vec<u8>)>)
    ensures
        match r {
            Result::Ok(t) => spec_prepare(domain_separator@, account_id@, input@) == Result::<
                (Seq<u8>, Seq<char>, Seq<u8>),
                ParsingError,
            >::Ok((t.0@, t.1@, t.2@)),
            Result::Err(e) => spec_prepare(domain_separator@, account_id@, input@) == Result::<
                (Seq<u8>, Seq<char>, Seq<u8>),
                ParsingError,
            >::Err(e),
        },
{
    let method_len = input.method_name.as_str().unicode_len();
    let arguments: String = if method_len == 0 {
        String::from_str("Arguments()")
    } else {
        let pos = match find_paren(input.method_name.as_str(), method_len) {
            Some(p) => p,
            None => {
                return Err(ParsingError::InvalidMetaTransactionMethodName);
            },
        };
        let mut a = String::from_str("Arguments");
        a.append(input.method_name.as_str().substring_char(pos, method_len));
        proof {
            assert(input.method_name@.subrange(pos as int, method_len as int)
                =~= input.method_name@.skip(pos as int));
        }
        a
    };
    proof {
        assert(spec_arguments_text(input@.method_name) == Result::<
            Seq<char>,
            ParsingError,
        >::Ok(arguments@));
    }
    let mut types_text = String::from_str(
        "NearTx(string gatewayId,uint256 nonce,uint256 feeAmount,address feeReceiver,address receiver,uint256 value,string method,Arguments arguments)",
    );
    types_text.append(arguments.as_str());
    let mut bytes: Vec<u8> = Vec::new();
    let k1 = keccak256(types_text.as_str().as_bytes());
    push_all(&mut bytes, k1.as_slice());
    let k2 = keccak256(account_id);
    push_all(&mut bytes, k2.as_slice());
    push_all(&mut bytes, input.nonce.as_slice());
    let fee = u128_to_be32(input.fee_amount);
    push_all(&mut bytes, fee.as_slice());
    let k3 = keccak256(input.fee_address.as_str().as_bytes());
    push_all(&mut bytes, k3.as_slice());
    let k4 = keccak256(input.contract_address.as_str().as_bytes());
    push_all(&mut bytes, k4.as_slice());
    let val = u128_to_be32(input.value);
    push_all(&mut bytes, val.as_slice());

    let (method_name, arg_bytes): (String, Vec<u8>) = if method_len != 0 {
        let methods = match MethodAndTypes::parse(input.method_name.as_str()) {
            Ok(m) => m,
            Err(e) => {
                return Err(e);
            },
        };
        let method_sig = method_signature(&methods);
        let k5 = keccak256(method_sig.as_str().as_bytes());
        push_all(&mut bytes, k5.as_slice());

        let mut arg_bytes: Vec<u8> = Vec::new();
        let k6 = keccak256(arguments.as_str().as_bytes());
        push_all(&mut arg_bytes, k6.as_slice());
        let args_decoded = match rlp_decode(input.args.as_slice()) {
            Ok(vs) => vs,
            Err(e) => {
                return Err(e);
            },
        };
        proof {
            crate::rlp::lemma_elems_view_index(args_decoded@);
        }
        if methods.method.args.len() != args_decoded.len() {
            return Err(ParsingError::ArgsLengthMismatch);
        }
        let margs = methods.method.args.as_slice();
        proof {
            assert(margs@.map_values(|a: Arg| a@) == methods@.method.args);
        }
        let cat = match hash_fields(margs, args_decoded.as_slice(), &methods) {
            Ok(cat) => cat,
            Err(e) => {
                return Err(e);
            },
        };
        push_all(&mut arg_bytes, cat.as_slice());
        let k7 = keccak256(arg_bytes.as_slice());
        push_all(&mut bytes, k7.as_slice());
        (methods.method.name, arg_bytes)
    } else {
        (String::new(), Vec::new())
    };
    let msg_hash = keccak256(bytes.as_slice());
    let mut final_bytes: Vec<u8> = Vec::new();
    final_bytes.push(0x19);
    final_bytes.push(0x01);
    push_all(&mut final_bytes, domain_separator.as_slice());
    push_all(&mut final_bytes, msg_hash.as_slice());
    proof {
        assert(final_bytes@ =~= seq![0x19u8, 0x01u8] + domain_separator@ + msg_hash@);
    }
    let digest = keccak256(final_bytes.as_slice());
    Ok((arr_to_u256(digest.as_slice()), method_name, arg_bytes))
}

} // verus!
