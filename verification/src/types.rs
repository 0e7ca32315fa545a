//! Core value types of the gateway, byte-level helpers, and the trusted
//! primitives (keccak-256 and UTF-8 decoding) that the rest of the crate
//! states its contracts over.

use vstd::prelude::*;

verus! {

/// Every failure of envelope decoding, signature parsing, argument hashing
/// or address recovery surfaces as one of these; verified code never panics.
#[derive(Debug, Clone, PartialEq, Eq)]
pub enum ParsingError {
    ArgumentParseError,
    InvalidMetaTransactionMethodName,
    InvalidMetaTransactionFunctionArg,
    InvalidEcRecoverSignature,
    ArgsLengthMismatch,
}

pub type ParsingResult<T> = core::result::Result<T, ParsingError>;

/// A 256-bit word as its 32 big-endian bytes.
pub type RawU256 = [u8; 32];

/// A 20-byte Ethereum-style account address.
#[derive(Debug, Clone, Copy, PartialEq, Eq)]
pub struct Address(pub [u8; 20]);

impl View for Address {
    type V = Seq<u8>;

    open spec fn view(&self) -> Seq<u8> {
        self.0@
    }
}

impl Address {
    /// The all-zero address, the placeholder before recovery succeeds.
    pub fn zero() -> (r: Address)
        ensures
            r@ == Seq::new(20, |i: int| 0u8),
    {
        let a = Address([0u8; 20]);
        proof {
            assert(a@ =~= Seq::new(20, |i: int| 0u8));
        }
        a
    }

    /// Copies a 20-byte slice into an owned address.
    pub fn from_slice(b: &[u8]) -> (r: Address)
        requires
            b@.len() == 20,
        ensures
            r@ == b@,
    {
        let mut a = [0u8; 20];
        let mut i: usize = 0;
        while i < 20
            invariant
                i <= 20,
                b@.len() == 20,
                forall|j: int| 0 <= j < i ==> a@[j] == b@[j],
            decreases 20 - i,
        {
            a[i] = b[i];
            i += 1;
        }
        proof {
            assert(a@ =~= b@);
        }
        Address(a)
    }
}

/// What `keccak256` returns: a function of the input bytes alone.
pub uninterp spec fn keccak_of(data: Seq<u8>) -> Seq<u8>;

/// Relies on `sha3::Keccak256::digest`: the digest is 32 bytes and depends on
/// the input bytes alone.
#[verifier::external_body]
pub fn keccak256(data: &[u8]) -> (r: Vec<u8>)
    ensures
        r@ == keccak_of(data@),
        r@.len() == 32,
{
    sha3::Keccak256::digest(data).as_slice().to_vec()
}

/// Relies on `String::from_utf8`: it succeeds exactly on valid UTF-8 and
/// returns its decoding.
#[verifier::external_body]
pub fn bytes_to_string(b: Vec<u8>) -> (r: Option<String>)
    ensures
        r is Some <==> vstd::utf8::valid_utf8(b@),
        r is Some ==> r.unwrap()@ == vstd::utf8::decode_utf8(b@),
{
    String::from_utf8(b).ok()
}

/// Copies a 32-byte slice into an owned 256-bit word.
pub fn arr_to_u256(value: &[u8]) -> (r: RawU256)
    requires
        value@.len() == 32,
    ensures
        r@ == value@,
{
    let mut a = [0u8; 32];
    let mut i: usize = 0;
    while i < 32
        invariant
            i <= 32,
            value@.len() == 32,
            forall|j: int| 0 <= j < i ==> a@[j] == value@[j],
        decreases 32 - i,
    {
        a[i] = value[i];
        i += 1;
    }
    proof {
        assert(a@ =~= value@);
    }
    a
}

} // verus!

verus! {

/// The 256-bit big-endian word that holds a `u64`.
pub open spec fn spec_u64_be32(x: u64) -> Seq<u8> {
    Seq::new(24, |i: int| 0u8) + vstd::bytes::spec_u64_to_le_bytes(x).reverse()
}

/// The 256-bit big-endian word that holds a `u128`.
pub open spec fn spec_u128_be32(x: u128) -> Seq<u8> {
    Seq::new(16, |i: int| 0u8) + vstd::bytes::spec_u128_to_le_bytes(x).reverse()
}

/// Bytes left-padded with zeros to a 32-byte word.
pub open spec fn left_pad32(b: Seq<u8>) -> Seq<u8>
    recommends
        b.len() <= 32,
{
    Seq::new((32 - b.len()) as nat, |i: int| 0u8) + b
}

/// Appends all of `src` to `dst`.
pub fn push_all(dst: &mut Vec<u8>, src: &[u8])
    ensures
        final(dst)@ == old(dst)@ + src@,
{
    let ghost base = dst@;
    let n = src.len();
    let mut i: usize = 0;
    while i < n
        invariant
            i <= n,
            n == src@.len(),
            dst@ == base + src@.take(i as int),
        decreases n - i,
    {
        proof {
            assert(base + src@.take(i as int) =~= dst@);
            assert((base + src@.take(i as int)).push(src@[i as int]) =~= base + src@.take(i + 1));
        }
        dst.push(src[i]);
        i += 1;
    }
    proof {
        assert(base + src@.take(n as int) =~= base + src@);
    }
}

/// The 32 big-endian bytes of a `u64`-sized value.
pub fn u64_to_be32(x: u64) -> (r: Vec<u8>)
    ensures
        r@ == spec_u64_be32(x),
        r@.len() == 32,
{
    proof {
        vstd::bytes::lemma_auto_spec_u64_to_from_le_bytes();
    }
    let le = vstd::bytes::u64_to_le_bytes(x);
    let mut r: Vec<u8> = Vec::new();
    let mut i: usize = 0;
    while i < 24
        invariant
            i <= 24,
            r@ =~= Seq::new(i as nat, |k: int| 0u8),
        decreases 24 - i,
    {
        r.push(0);
        proof {
            assert(r@ =~= Seq::new((i + 1) as nat, |k: int| 0u8));
        }
        i += 1;
    }
    let mut j: usize = 0;
    while j < 8
        invariant
            j <= 8,
            le@ == vstd::bytes::spec_u64_to_le_bytes(x),
            le@.len() == 8,
            r@ =~= Seq::new(24, |k: int| 0u8) + le@.reverse().take(j as int),
        decreases 8 - j,
    {
        r.push(le[7 - j]);
        proof {
            assert(le@.reverse()[j as int] == le@[7 - j as int]);
            assert(r@ =~= Seq::new(24, |k: int| 0u8) + le@.reverse().take(j + 1));
        }
        j += 1;
    }
    proof {
        assert(le@.reverse().take(8) =~= le@.reverse());
        assert(r@ =~= spec_u64_be32(x));
    }
    r
}

/// The 32 big-endian bytes of a `u128` balance.
pub fn u128_to_be32(x: u128) -> (r: Vec<u8>)
    ensures
        r@ == spec_u128_be32(x),
        r@.len() == 32,
{
    proof {
        vstd::bytes::lemma_auto_spec_u128_to_from_le_bytes();
    }
    let le = vstd::bytes::u128_to_le_bytes(x);
    let mut r: Vec<u8> = Vec::new();
    let mut i: usize = 0;
    while i < 16
        invariant
            i <= 16,
            r@ =~= Seq::new(i as nat, |k: int| 0u8),
        decreases 16 - i,
    {
        r.push(0);
        proof {
            assert(r@ =~= Seq::new((i + 1) as nat, |k: int| 0u8));
        }
        i += 1;
    }
    let mut j: usize = 0;
    while j < 16
        invariant
            j <= 16,
            le@ == vstd::bytes::spec_u128_to_le_bytes(x),
            le@.len() == 16,
            r@ =~= Seq::new(16, |k: int| 0u8) + le@.reverse().take(j as int),
        decreases 16 - j,
    {
        r.push(le[15 - j]);
        proof {
            assert(le@.reverse()[j as int] == le@[15 - j as int]);
            assert(r@ =~= Seq::new(16, |k: int| 0u8) + le@.reverse().take(j + 1));
        }
        j += 1;
    }
    proof {
        assert(le@.reverse().take(16) =~= le@.reverse());
        assert(r@ =~= spec_u128_be32(x));
    }
    r
}

/// Reads a 32-byte big-endian word as a `u128`; `None` when the value does
/// not fit, that is when any of the sixteen high bytes is set.
pub fn be32_to_u128(b: &[u8]) -> (r: Option<u128>)
    requires
        b@.len() == 32,
    ensures
        match r {
            Option::Some(x) => (forall|i: int| 0 <= i < 16 ==> b@[i] == 0) && x
                == vstd::bytes::spec_u128_from_le_bytes(b@.subrange(16, 32).reverse()),
            Option::None => exists|i: int| 0 <= i < 16 && b@[i] != 0,
        },
{
    let mut i: usize = 0;
    while i < 16
        invariant
            i <= 16,
            b@.len() == 32,
            forall|k: int| 0 <= k < i ==> b@[k] == 0,
        decreases 16 - i,
    {
        if b[i] != 0 {
            return None;
        }
        i += 1;
    }
    let mut le: Vec<u8> = Vec::new();
    let mut j: usize = 0;
    while j < 16
        invariant
            j <= 16,
            b@.len() == 32,
            le@ =~= b@.subrange(16, 32).reverse().take(j as int),
        decreases 16 - j,
    {
        le.push(b[31 - j]);
        proof {
            assert(b@.subrange(16, 32).reverse()[j as int] == b@.subrange(16, 32)[15 - j as int]);
            assert(le@ =~= b@.subrange(16, 32).reverse().take(j + 1));
        }
        j += 1;
    }
    proof {
        assert(le@ =~= b@.subrange(16, 32).reverse());
    }
    Some(vstd::bytes::u128_from_le_bytes(le.as_slice()))
}

/// The wire envelope of a meta call, exactly as the sender serialized it.
#[derive(Debug, PartialEq, Eq)]
pub struct MetaCallArgs {
    pub signature: [u8; 64],
    pub v: u8,
    pub nonce: RawU256,
    pub fee_amount: RawU256,
    pub fee_address: String,
    pub contract_address: String,
    pub value: RawU256,
    pub method: String,
    pub args: Vec<u8>,
}

pub struct MetaCallArgsV {
    pub signature: Seq<u8>,
    pub v: u8,
    pub nonce: Seq<u8>,
    pub fee_amount: Seq<u8>,
    pub fee_address: Seq<char>,
    pub contract_address: Seq<char>,
    pub value: Seq<u8>,
    pub method: Seq<char>,
    pub args: Seq<u8>,
}

impl View for MetaCallArgs {
    type V = MetaCallArgsV;

    open spec fn view(&self) -> MetaCallArgsV {
        MetaCallArgsV {
            signature: self.signature@,
            v: self.v,
            nonce: self.nonce@,
            fee_amount: self.fee_amount@,
            fee_address: self.fee_address@,
            contract_address: self.contract_address@,
            value: self.value@,
            method: self.method@,
            args: self.args@,
        }
    }
}

/// The decoded meta call: numbers widened, `sender` set only after the
/// signature recovered it.
#[derive(Debug)]
pub struct InternalMetaCallArgs {
    pub sender: Address,
    pub nonce: RawU256,
    pub fee_amount: u128,
    pub fee_address: String,
    pub contract_address: String,
    pub method_name: String,
    pub value: u128,
    pub args: Vec<u8>,
}

pub struct InternalMetaCallArgsV {
    pub sender: Seq<u8>,
    pub nonce: Seq<u8>,
    pub fee_amount: u128,
    pub fee_address: Seq<char>,
    pub contract_address: Seq<char>,
    pub method_name: Seq<char>,
    pub value: u128,
    pub args: Seq<u8>,
}

impl View for InternalMetaCallArgs {
    type V = InternalMetaCallArgsV;

    open spec fn view(&self) -> InternalMetaCallArgsV {
        InternalMetaCallArgsV {
            sender: self.sender@,
            nonce: self.nonce@,
            fee_amount: self.fee_amount,
            fee_address: self.fee_address@,
            contract_address: self.contract_address@,
            method_name: self.method_name@,
            value: self.value,
            args: self.args@,
        }
    }
}

} // verus!

use sha3::Digest;
