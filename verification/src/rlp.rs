//! Decoding of RLP (recursive length prefix) bytes into a tree of byte
//! strings and lists.
//!
//! The decoder accepts only canonical encodings: a single byte below 0x80
//! stands for itself, short forms are required for payloads of up to 55
//! bytes, long lengths carry no leading zero, and nesting is bounded so that
//! adversarial input cannot exhaust the stack.

use vstd::prelude::*;

use crate::types::{ParsingError, ParsingResult};

verus! {

/// Nesting depth allowed when decoding; deeper input is rejected.
pub const MAX_RLP_DEPTH: u32 = 32;

/// A decoded RLP value: a byte string or a list of values.
#[derive(Debug, PartialEq, Eq)]
pub enum RlpValue {
    Bytes(Vec<u8>),
    List(Vec<RlpValue>),
}

/// The mathematical shape of an [`RlpValue`].
pub enum RlpValueV {
    Bytes(Seq<u8>),
    List(Seq<RlpValueV>),
}

pub open spec fn rlp_value_view(v: RlpValue) -> RlpValueV
    decreases v,
{
    match v {
        RlpValue::Bytes(b) => RlpValueV::Bytes(b@),
        RlpValue::List(l) => RlpValueV::List(rlp_elems_view(l@)),
    }
}

pub open spec fn rlp_elems_view(s: Seq<RlpValue>) -> Seq<RlpValueV>
    decreases s,
{
    if s.len() == 0 {
        Seq::empty()
    } else {
        seq![rlp_value_view(s.first())] + rlp_elems_view(s.drop_first())
    }
}

impl View for RlpValue {
    type V = RlpValueV;

    open spec fn view(&self) -> RlpValueV {
        rlp_value_view(*self)
    }
}

pub proof fn lemma_elems_view_index(s: Seq<RlpValue>)
    ensures
        rlp_elems_view(s).len() == s.len(),
        forall|i: int| 0 <= i < s.len() ==> rlp_elems_view(s)[i] == rlp_value_view(#[trigger] s[i]),
    decreases s.len(),
{
    if s.len() > 0 {
        lemma_elems_view_index(s.drop_first());
        assert forall|i: int| 0 <= i < s.len() implies rlp_elems_view(s)[i] == rlp_value_view(
            #[trigger] s[i],
        ) by {
            if i == 0 {
                assert(rlp_elems_view(s)[0] == rlp_value_view(s.first()));
            } else {
                assert(rlp_elems_view(s)[i] == rlp_elems_view(s.drop_first())[i - 1]);
                assert(s.drop_first()[i - 1] == s[i]);
            }
        }
    }
}

/// A big-endian length field read as a number.
pub open spec fn be_len(d: Seq<u8>) -> int
    decreases d.len(),
{
    if d.len() == 0 {
        0
    } else {
        be_len(d.drop_last()) * 256 + d.last()
    }
}

pub proof fn lemma_be_len_prefix_le(d: Seq<u8>, i: int)
    requires
        0 <= i <= d.len(),
    ensures
        0 <= be_len(d.take(i)) <= be_len(d),
    decreases d.len() - i,
{
    if i == d.len() {
        assert(d.take(i) =~= d);
        lemma_be_len_nonneg(d);
    } else {
        lemma_be_len_prefix_le(d, i + 1);
        assert(d.take(i + 1).drop_last() =~= d.take(i));
        lemma_be_len_nonneg(d.take(i));
        let a = be_len(d.take(i));
        assert(be_len(d.take(i + 1)) == a * 256 + d.take(i + 1).last());
        assert(a * 256 >= a) by (nonlinear_arith)
            requires
                a >= 0,
        ;
    }
}

pub proof fn lemma_be_len_nonneg(d: Seq<u8>)
    ensures
        be_len(d) >= 0,
    decreases d.len(),
{
    if d.len() > 0 {
        lemma_be_len_nonneg(d.drop_last());
        let a = be_len(d.drop_last());
        assert(a * 256 >= 0) by (nonlinear_arith)
            requires
                a >= 0,
        ;
    }
}

/// One RLP item at the head of `b`: its value and the bytes it consumed.
/// `None` on malformed, non-canonical or too deeply nested input.
pub open spec fn spec_rlp_item(b: Seq<u8>, depth: int) -> Option<(RlpValueV, int)>
    decreases b.len(), 0int,
{
    if b.len() == 0 {
        Option::None
    } else {
        let c = b[0] as int;
        if c <= 0x7f {
            Option::Some((RlpValueV::Bytes(seq![b[0]]), 1))
        } else if c <= 0xb7 {
            let l = c - 0x80;
            if 1 + l <= b.len() && !(l == 1 && b[1] <= 0x7f) {
                Option::Some((RlpValueV::Bytes(b.subrange(1, 1 + l)), 1 + l))
            } else {
                Option::None
            }
        } else if c <= 0xbf {
            let ll = c - 0xb7;
            if 1 + ll <= b.len() && b[1] != 0 {
                let l = be_len(b.subrange(1, 1 + ll));
                if l > 55 && 1 + ll + l <= b.len() {
                    Option::Some((RlpValueV::Bytes(b.subrange(1 + ll, 1 + ll + l)), 1 + ll + l))
                } else {
                    Option::None
                }
            } else {
                Option::None
            }
        } else if c <= 0xf7 {
            let l = c - 0xc0;
            if 1 + l <= b.len() && depth > 0 {
                match spec_rlp_items(b.subrange(1, 1 + l), depth - 1) {
                    Option::None => Option::None,
                    Option::Some(items) => Option::Some((RlpValueV::List(items), 1 + l)),
                }
            } else {
                Option::None
            }
        } else {
            let ll = c - 0xf7;
            if 1 + ll <= b.len() && b[1] != 0 {
                let l = be_len(b.subrange(1, 1 + ll));
                if l > 55 && 1 + ll + l <= b.len() && depth > 0 {
                    match spec_rlp_items(b.subrange(1 + ll, 1 + ll + l), depth - 1) {
                        Option::None => Option::None,
                        Option::Some(items) => Option::Some(
                            (RlpValueV::List(items), 1 + ll + l),
                        ),
                    }
                } else {
                    Option::None
                }
            } else {
                Option::None
            }
        }
    }
}

/// The items of a list payload, which must be consumed exactly.
pub open spec fn spec_rlp_items(p: Seq<u8>, depth: int) -> Option<Seq<RlpValueV>>
    decreases p.len(), 1int,
{
    if p.len() == 0 {
        Option::Some(Seq::empty())
    } else {
        match spec_rlp_item(p, depth) {
            Option::None => Option::None,
            Option::Some((v, c)) => if 1 <= c <= p.len() {
                match spec_rlp_items(p.skip(c), depth) {
                    Option::None => Option::None,
                    Option::Some(rest) => Option::Some(seq![v] + rest),
                }
            } else {
                Option::None
            },
        }
    }
}

/// What `rlp_decode` accepts: exactly one list, covering all of the input.
pub open spec fn spec_rlp_decode(b: Seq<u8>) -> Option<Seq<RlpValueV>> {
    match spec_rlp_item(b, MAX_RLP_DEPTH as int) {
        Option::Some((RlpValueV::List(items), c)) => if c == b.len() {
            Option::Some(items)
        } else {
            Option::None
        },
        _ => Option::None,
    }
}

/// Reads the `ll` big-endian length bytes after the tag byte; `None` when
/// the length exceeds what the input could ever hold.
fn read_len(data: &[u8], ll: usize) -> (r: Option<usize>)
    requires
        1 + ll <= data@.len(),
        1 <= ll <= 8,
    ensures
        match r {
            Option::Some(l) => l == be_len(data@.subrange(1, 1 + ll as int)) && l <= data@.len(),
            Option::None => be_len(data@.subrange(1, 1 + ll as int)) > data@.len(),
        },
{
    let ghost d = data@.subrange(1, 1 + ll as int);
    let n = data.len();
    let mut acc: u128 = 0;
    let mut k: usize = 0;
    while k < ll
        invariant
            0 <= k <= ll,
            1 + ll <= data@.len(),
            n == data@.len(),
            d == data@.subrange(1, 1 + ll as int),
            acc == be_len(d.take(k as int)),
            acc <= n,
        decreases ll - k,
    {
        let b = data[1 + k];
        proof {
            assert(d.take(k + 1).drop_last() =~= d.take(k as int));
            assert(d.take(k + 1).last() == data@[1 + k]);
        }
        let na: u128 = acc * 256 + (b as u128);
        assert(na == be_len(d.take(k + 1)));
        if na > n as u128 {
            proof {
                lemma_be_len_prefix_le(d, k + 1);
            }
            return None;
        }
        acc = na;
        k += 1;
    }
    proof {
        assert(d.take(ll as int) =~= d);
    }
    Some(acc as usize)
}

/// One RLP item at the head of `data`.
#[verifier::loop_isolation(false)]
fn rlp_item(data: &[u8], depth: u32) -> (r: ParsingResult<(RlpValue, usize)>)
    ensures
        match r {
            Result::Ok(p) => spec_rlp_item(data@, depth as int) == Option::Some(
                (p.0@, p.1 as int),
            ) && 1 <= p.1 <= data@.len(),
            Result::Err(e) => spec_rlp_item(data@, depth as int) is None && e
                == ParsingError::InvalidMetaTransactionFunctionArg,
        },
    decreases data@.len(), 0int,
{
    let n = data.len();
    if n == 0 {
        return Err(ParsingError::InvalidMetaTransactionFunctionArg);
    }
    let c = data[0];
    if c <= 0x7f {
        let v = vec![c];
        proof {
            assert(v@ =~= seq![data@[0]]);
        }
        Ok((RlpValue::Bytes(v), 1))
    } else if c <= 0xb7 {
        let l = (c - 0x80) as usize;
        if 1 + l <= n {
            if l == 1 && data[1] <= 0x7f {
                Err(ParsingError::InvalidMetaTransactionFunctionArg)
            } else {
                let payload = vstd::slice::slice_subrange(data, 1, 1 + l);
                let v = vstd::slice::slice_to_vec(payload);
                Ok((RlpValue::Bytes(v), 1 + l))
            }
        } else {
            Err(ParsingError::InvalidMetaTransactionFunctionArg)
        }
    } else if c <= 0xbf {
        let ll = (c - 0xb7) as usize;
        if 1 + ll > n {
            return Err(ParsingError::InvalidMetaTransactionFunctionArg);
        }
        if data[1] == 0 {
            return Err(ParsingError::InvalidMetaTransactionFunctionArg);
        }
        let l = match read_len(data, ll) {
            Some(l) => l,
            None => {
                return Err(ParsingError::InvalidMetaTransactionFunctionArg);
            },
        };
        if l > 55 && 1 + ll <= n - l {
            let payload = vstd::slice::slice_subrange(data, 1 + ll, 1 + ll + l);
            let v = vstd::slice::slice_to_vec(payload);
            Ok((RlpValue::Bytes(v), 1 + ll + l))
        } else {
            Err(ParsingError::InvalidMetaTransactionFunctionArg)
        }
    } else if c <= 0xf7 {
        let l = (c - 0xc0) as usize;
        if 1 + l <= n && depth > 0 {
            let payload = vstd::slice::slice_subrange(data, 1, 1 + l);
            match rlp_items(payload, depth - 1) {
                Ok(items) => Ok((RlpValue::List(items), 1 + l)),
                Err(e) => Err(e),
            }
        } else {
            Err(ParsingError::InvalidMetaTransactionFunctionArg)
        }
    } else {
        let ll = (c - 0xf7) as usize;
        if 1 + ll > n {
            return Err(ParsingError::InvalidMetaTransactionFunctionArg);
        }
        if data[1] == 0 {
            return Err(ParsingError::InvalidMetaTransactionFunctionArg);
        }
        let l = match read_len(data, ll) {
            Some(l) => l,
            None => {
                return Err(ParsingError::InvalidMetaTransactionFunctionArg);
            },
        };
        if l > 55 && 1 + ll <= n - l && depth > 0 {
            let payload = vstd::slice::slice_subrange(data, 1 + ll, 1 + ll + l);
            match rlp_items(payload, depth - 1) {
                Ok(items) => Ok((RlpValue::List(items), 1 + ll + l)),
                Err(e) => Err(e),
            }
        } else {
            Err(ParsingError::InvalidMetaTransactionFunctionArg)
        }
    }
}

/// All items of a list payload, which must be consumed exactly.
#[verifier::loop_isolation(false)]
fn rlp_items(p: &[u8], depth: u32) -> (r: ParsingResult<Vec<RlpValue>>)
    ensures
        match r {
            Result::Ok(vs) => spec_rlp_items(p@, depth as int) == Option::Some(rlp_elems_view(vs@)),
            Result::Err(e) => spec_rlp_items(p@, depth as int) is None && e
                == ParsingError::InvalidMetaTransactionFunctionArg,
        },
    decreases p@.len(), 1int,
{
    let n = p.len();
    let mut items: Vec<RlpValue> = Vec::new();
    let mut pos: usize = 0;
    proof {
        assert(rlp_elems_view(items@) =~= Seq::<RlpValueV>::empty());
        assert(p@.skip(0) =~= p@);
        assert forall|rest: Seq<RlpValueV>|
            spec_rlp_items(p@.skip(0), depth as int) == Option::Some(rest) implies spec_rlp_items(
            p@,
            depth as int,
        ) == Option::Some(rlp_elems_view(items@) + rest) by {
            assert(rlp_elems_view(items@) + rest =~= rest);
        }
    }
    while pos < n
        invariant
            pos <= n,
            forall|rest: Seq<RlpValueV>|
                spec_rlp_items(p@.skip(pos as int), depth as int) == Option::Some(rest)
                    ==> spec_rlp_items(p@, depth as int) == Option::Some(
                    rlp_elems_view(items@) + rest,
                ),
            spec_rlp_items(p@.skip(pos as int), depth as int) is None ==> spec_rlp_items(
                p@,
                depth as int,
            ) is None,
        decreases n - pos,
    {
        let ghost old_items = rlp_elems_view(items@);
        let ghost old_seq = items@;
        let tail = vstd::slice::slice_subrange(p, pos, n);
        proof {
            assert(tail@ =~= p@.skip(pos as int));
        }
        let (v, c) = match rlp_item(tail, depth) {
            Ok(pair) => pair,
            Err(e) => {
                return Err(e);
            },
        };
        let ghost v_v = v@;
        let ghost v_snap = v;
        items.push(v);
        proof {
            lemma_elems_view_index(items@);
            lemma_elems_view_index(old_seq);
            assert(items@ == old_seq.push(v_snap));
            assert forall|i: int| 0 <= i < items@.len() implies rlp_elems_view(items@)[i]
                == old_items.push(v_v)[i] by {
                if i < old_seq.len() {
                    assert(items@[i] == old_seq[i]);
                } else {
                    assert(items@[i] == v_snap);
                }
            }
            assert(rlp_elems_view(items@) =~= old_items.push(v_v));
            assert(p@.skip(pos as int).skip(c as int) =~= p@.skip(pos + c));
            assert forall|rest: Seq<RlpValueV>|
                spec_rlp_items(p@.skip(pos + c), depth as int) == Option::Some(rest)
                    implies spec_rlp_items(p@, depth as int) == Option::Some(
                    rlp_elems_view(items@) + rest,
                ) by {
                assert(spec_rlp_items(p@.skip(pos as int), depth as int) == Option::Some(
                    seq![v_v] + rest,
                ));
                assert(old_items + (seq![v_v] + rest) =~= old_items.push(v_v) + rest);
            }
        }
        pos += c;
    }
    proof {
        assert(p@.skip(n as int) =~= Seq::<u8>::empty());
        assert(spec_rlp_items(p@.skip(pos as int), depth as int) == Option::Some(
            Seq::<RlpValueV>::empty(),
        ));
        assert(rlp_elems_view(items@) + Seq::<RlpValueV>::empty() =~= rlp_elems_view(items@));
    }
    Ok(items)
}

/// Decode rlp-encoded args into a vector of values: the input must be
/// exactly one list.
pub fn rlp_decode(args: &[u8]) -> (r: ParsingResult<Vec<RlpValue>>)
    ensures
        match r {
            Result::Ok(vs) => spec_rlp_decode(args@) == Option::Some(rlp_elems_view(vs@)),
            Result::Err(e) => spec_rlp_decode(args@) is None && e
                == ParsingError::InvalidMetaTransactionFunctionArg,
        },
{
    let (v, c) = match rlp_item(args, MAX_RLP_DEPTH) {
        Ok(pair) => pair,
        Err(e) => {
            return Err(e);
        },
    };
    if c != args.len() {
        return Err(ParsingError::InvalidMetaTransactionFunctionArg);
    }
    match v {
        RlpValue::List(items) => Ok(items),
        RlpValue::Bytes(b) => Err(ParsingError::InvalidMetaTransactionFunctionArg),
    }
}

} // verus!
