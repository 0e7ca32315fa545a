//! Parsing of a single ABI-style type string ("uint256[3][]", "bytes32",
//! "PetObj") into a recursive type tree.
//!
//! The scanner takes maximal identifier-shaped words and classifies each
//! whole word; an array suffix `[]` or `[K]` wraps the type built so far, so
//! the rightmost bracket group is the outermost array.

use vstd::prelude::*;

use crate::types::{ParsingError, ParsingResult};

verus! {

/// A parsed ABI-style argument type.
#[derive(Debug, PartialEq, Eq)]
pub enum ArgType {
    Address,
    Uint,
    Int,
    String,
    Bool,
    Bytes,
    Byte(u8),
    Custom(String),
    Array { length: Option<u64>, inner: Box<ArgType> },
}

/// The mathematical shape of an [`ArgType`], with text as character
/// sequences.
pub enum ArgTypeV {
    Address,
    Uint,
    Int,
    String,
    Bool,
    Bytes,
    Byte(u8),
    Custom(Seq<char>),
    Array { length: Option<u64>, inner: Box<ArgTypeV> },
}

pub open spec fn arg_type_view(t: ArgType) -> ArgTypeV
    decreases t,
{
    match t {
        ArgType::Address => ArgTypeV::Address,
        ArgType::Uint => ArgTypeV::Uint,
        ArgType::Int => ArgTypeV::Int,
        ArgType::String => ArgTypeV::String,
        ArgType::Bool => ArgTypeV::Bool,
        ArgType::Bytes => ArgTypeV::Bytes,
        ArgType::Byte(n) => ArgTypeV::Byte(n),
        ArgType::Custom(name) => ArgTypeV::Custom(name@),
        ArgType::Array { length, inner } => ArgTypeV::Array {
            length,
            inner: Box::new(arg_type_view(*inner)),
        },
    }
}

impl View for ArgType {
    type V = ArgTypeV;

    open spec fn view(&self) -> ArgTypeV {
        arg_type_view(*self)
    }
}

pub open spec fn opt_arg_type_view(o: Option<ArgType>) -> Option<ArgTypeV> {
    match o {
        Option::None => Option::None,
        Option::Some(t) => Option::Some(t@),
    }
}

/// First character of an identifier-shaped word in a type string.
pub open spec fn is_word_start(c: char) -> bool {
    let u = c as int;
    (97 <= u <= 122) || (65 <= u <= 90) || u == 95 || u == 36
}

/// Any further character of an identifier-shaped word in a type string.
pub open spec fn is_word_char(c: char) -> bool {
    is_word_start(c) || is_digit(c)
}

pub open spec fn is_digit(c: char) -> bool {
    48 <= c as int <= 57
}

pub open spec fn digit_val(c: char) -> int {
    c as int - 48
}

/// Number of word characters at position `i` and after.
pub open spec fn word_len(s: Seq<char>, i: int) -> nat
    decreases s.len() - i,
{
    if i < s.len() && is_word_char(s[i]) {
        1 + word_len(s, i + 1)
    } else {
        0
    }
}

/// Number of decimal digits at position `i` and after.
pub open spec fn digit_len(s: Seq<char>, i: int) -> nat
    decreases s.len() - i,
{
    if i < s.len() && is_digit(s[i]) {
        1 + digit_len(s, i + 1)
    } else {
        0
    }
}

/// The value of a digit string read as a decimal number.
pub open spec fn dec_val(w: Seq<char>) -> int
    decreases w.len(),
{
    if w.len() == 0 {
        0
    } else {
        dec_val(w.drop_last()) * 10 + digit_val(w.last())
    }
}

/// A decimal number as the scanner's size suffixes require it: nonempty,
/// digits only, no leading zero.
pub open spec fn canonical_dec(w: Seq<char>) -> bool {
    &&& w.len() > 0
    &&& forall|i: int| 0 <= i < w.len() ==> is_digit(#[trigger] w[i])
    &&& (w.len() > 1 ==> w[0] != '0')
}

/// A fixed-bytes word "bytes1" .. "bytes32".
pub open spec fn is_bytes_n(w: Seq<char>) -> bool {
    &&& w.len() > 5
    &&& w.take(5) == "bytes"@
    &&& canonical_dec(w.skip(5))
    &&& 1 <= dec_val(w.skip(5)) <= 32
}

/// A sized integer word: the prefix followed by one of 8, 16, .., 256.
pub open spec fn is_sized_int(w: Seq<char>, prefix: Seq<char>) -> bool {
    &&& w.len() > prefix.len()
    &&& w.take(prefix.len() as int) == prefix
    &&& canonical_dec(w.skip(prefix.len() as int))
    &&& 8 <= dec_val(w.skip(prefix.len() as int)) <= 256
    &&& dec_val(w.skip(prefix.len() as int)) % 8 == 0
}

/// Classification of one whole identifier-shaped word.
pub open spec fn classify_word(w: Seq<char>) -> ArgTypeV {
    if w == "address"@ {
        ArgTypeV::Address
    } else if w == "bool"@ {
        ArgTypeV::Bool
    } else if w == "string"@ {
        ArgTypeV::String
    } else if w == "bytes"@ {
        ArgTypeV::Bytes
    } else if w == "byte"@ {
        ArgTypeV::Byte(1)
    } else if is_bytes_n(w) {
        ArgTypeV::Byte(dec_val(w.skip(5)) as u8)
    } else if w == "uint"@ || is_sized_int(w, "uint"@) {
        ArgTypeV::Uint
    } else if w == "int"@ || is_sized_int(w, "int"@) {
        ArgTypeV::Int
    } else {
        ArgTypeV::Custom(w)
    }
}

/// The array length written between brackets: empty digits mean a dynamic
/// array, and a count too large for `u64` falls back to dynamic as well.
pub open spec fn bracket_length(d: Seq<char>) -> Option<u64> {
    if d.len() == 0 || dec_val(d) > u64::MAX {
        Option::None
    } else {
        Option::Some(dec_val(d) as u64)
    }
}

/// One step of the type scanner per token, carrying the type built so far.
/// `None` is a parse failure: an unrecognized character, an unterminated or
/// malformed bracket group, an array suffix with no preceding base type, or
/// an input with no token at all.
pub open spec fn scan_type(s: Seq<char>, i: int, acc: Option<ArgTypeV>) -> Option<ArgTypeV>
    decreases s.len() - i
        via scan_type_decreases
{
    if i < 0 || i >= s.len() {
        acc
    } else if is_word_start(s[i]) {
        let j = i + 1 + word_len(s, i + 1);
        scan_type(s, j, Option::Some(classify_word(s.subrange(i, j))))
    } else if s[i] == '[' {
        let j = i + 1 + digit_len(s, i + 1);
        if j < s.len() && s[j] == ']' {
            match acc {
                Option::None => Option::None,
                Option::Some(t) => scan_type(
                    s,
                    j + 1,
                    Option::Some(
                        ArgTypeV::Array {
                            length: bracket_length(s.subrange(i + 1, j)),
                            inner: Box::new(t),
                        },
                    ),
                ),
            }
        } else {
            Option::None
        }
    } else {
        Option::None
    }
}

#[via_fn]
proof fn scan_type_decreases(s: Seq<char>, i: int, acc: Option<ArgTypeV>) {
    if 0 <= i < s.len() {
        lemma_word_len_bound(s, i + 1);
        lemma_digit_len_bound(s, i + 1);
    }
}

/// What `parse_type` returns: the scanner run over the whole string.
pub open spec fn parse_type_spec(s: Seq<char>) -> Option<ArgTypeV> {
    scan_type(s, 0, Option::None)
}

pub proof fn lemma_word_len_bound(s: Seq<char>, i: int)
    requires
        0 <= i <= s.len(),
    ensures
        word_len(s, i) <= s.len() - i,
    decreases s.len() - i,
{
    if i < s.len() && is_word_char(s[i]) {
        lemma_word_len_bound(s, i + 1);
    }
}

pub proof fn lemma_digit_len_bound(s: Seq<char>, i: int)
    requires
        0 <= i <= s.len(),
    ensures
        digit_len(s, i) <= s.len() - i,
    decreases s.len() - i,
{
    if i < s.len() && is_digit(s[i]) {
        lemma_digit_len_bound(s, i + 1);
    }
}

/// On an all-digit string, reading further digits never lowers the value.
pub proof fn lemma_dec_val_prefix_le(w: Seq<char>, i: int)
    requires
        0 <= i <= w.len(),
        forall|k: int| 0 <= k < w.len() ==> is_digit(#[trigger] w[k]),
    ensures
        0 <= dec_val(w.take(i)) <= dec_val(w),
    decreases w.len() - i,
{
    if i == w.len() {
        assert(w.take(i) =~= w);
        lemma_dec_val_nonneg(w);
    } else {
        lemma_dec_val_prefix_le(w, i + 1);
        assert(w.take(i + 1).drop_last() =~= w.take(i));
        lemma_dec_val_nonneg(w.take(i));
        let a = dec_val(w.take(i));
        let d = digit_val(w.take(i + 1).last());
        assert(dec_val(w.take(i + 1)) == a * 10 + d);
        assert(a * 10 >= a) by (nonlinear_arith)
            requires
                a >= 0,
        ;
    }
}

pub proof fn lemma_dec_val_nonneg(w: Seq<char>)
    requires
        forall|k: int| 0 <= k < w.len() ==> is_digit(#[trigger] w[k]),
    ensures
        dec_val(w) >= 0,
    decreases w.len(),
{
    if w.len() > 0 {
        lemma_dec_val_nonneg(w.drop_last());
        let a = dec_val(w.drop_last());
        assert(a * 10 >= 0) by (nonlinear_arith)
            requires
                a >= 0,
        ;
    }
}

} // verus!

use vstd::string::StrSliceExecFns;

verus! {

fn word_start_char(c: char) -> (r: bool)
    ensures
        r == is_word_start(c),
{
    let u = c as u32;
    (u >= 97 && u <= 122) || (u >= 65 && u <= 90) || u == 95 || u == 36
}

fn word_char(c: char) -> (r: bool)
    ensures
        r == is_word_char(c),
{
    word_start_char(c) || digit_char(c)
}

fn digit_char(c: char) -> (r: bool)
    ensures
        r == is_digit(c),
{
    let u = c as u32;
    u >= 48 && u <= 57
}

/// Character-by-character string equality, stated over the views.
pub fn str_eq(a: &str, b: &str) -> (r: bool)
    ensures
        r == (a@ == b@),
{
    let alen = a.unicode_len();
    let blen = b.unicode_len();
    if alen != blen {
        return false;
    }
    let mut i: usize = 0;
    while i < alen
        invariant
            i <= alen,
            alen == a@.len(),
            alen == b@.len(),
            forall|j: int| 0 <= j < i ==> a@[j] == b@[j],
        decreases alen - i,
    {
        if a.get_char(i) != b.get_char(i) {
            return false;
        }
        i += 1;
    }
    proof {
        assert(a@ =~= b@);
    }
    true
}

/// End of the run of word characters that starts at `start`.
fn scan_word_end(s: &str, len: usize, start: usize) -> (end: usize)
    requires
        len == s@.len(),
        start <= len,
    ensures
        end == start + word_len(s@, start as int),
        start <= end <= len,
{
    let mut j = start;
    while j < len && word_char(s.get_char(j))
        invariant
            start <= j <= len,
            len == s@.len(),
            word_len(s@, start as int) == j - start + word_len(s@, j as int),
        decreases len - j,
    {
        j += 1;
    }
    j
}

/// End of the run of decimal digits that starts at `start`.
fn scan_digit_end(s: &str, len: usize, start: usize) -> (end: usize)
    requires
        len == s@.len(),
        start <= len,
    ensures
        end == start + digit_len(s@, start as int),
        start <= end <= len,
        forall|k: int| start <= k < end ==> is_digit(#[trigger] s@[k]),
{
    let mut j = start;
    while j < len && digit_char(s.get_char(j))
        invariant
            start <= j <= len,
            len == s@.len(),
            digit_len(s@, start as int) == j - start + digit_len(s@, j as int),
            forall|k: int| start <= k < j ==> is_digit(#[trigger] s@[k]),
        decreases len - j,
    {
        j += 1;
    }
    j
}

/// Reads the digits `s[from..to]` as a decimal number; `None` on a value
/// beyond `u64`.
fn parse_dec(s: &str, from: usize, to: usize) -> (r: Option<u64>)
    requires
        from <= to <= s@.len(),
        forall|k: int| from <= k < to ==> is_digit(#[trigger] s@[k]),
    ensures
        match r {
            Option::Some(v) => v == dec_val(s@.subrange(from as int, to as int)),
            Option::None => dec_val(s@.subrange(from as int, to as int)) > u64::MAX,
        },
{
    let ghost whole = s@.subrange(from as int, to as int);
    let mut i = from;
    let mut acc: u128 = 0;
    let mut over = false;
    while i < to
        invariant
            from <= i <= to <= s@.len(),
            forall|k: int| from <= k < to ==> is_digit(#[trigger] s@[k]),
            !over ==> acc == dec_val(s@.subrange(from as int, i as int)) && acc <= u64::MAX,
            over ==> dec_val(s@.subrange(from as int, i as int)) > u64::MAX,
        decreases to - i,
    {
        let c = s.get_char(i);
        let ghost prefix = s@.subrange(from as int, i as int);
        let ghost prefix1 = s@.subrange(from as int, i + 1);
        proof {
            assert(prefix1.drop_last() =~= prefix);
            assert(prefix1.last() == s@[i as int]);
        }
        if !over {
            let d = (c as u32) - 48;
            let na: u128 = acc * 10 + (d as u128);
            assert(na == dec_val(prefix1));
            if na > u64::MAX as u128 {
                over = true;
            } else {
                acc = na;
            }
        } else {
            proof {
                assert(prefix1.take(i - from) =~= prefix);
                assert(forall|k: int| 0 <= k < prefix1.len() ==> is_digit(#[trigger] prefix1[k]));
                lemma_dec_val_prefix_le(prefix1, i - from);
            }
        }
        i += 1;
    }
    if over {
        None
    } else {
        proof {
            assert(s@.subrange(from as int, i as int) =~= whole);
        }
        Some(acc as u64)
    }
}

/// Whether `s[from..to]` is a size suffix in canonical decimal form.
fn canonical_digits(s: &str, from: usize, to: usize) -> (r: bool)
    requires
        from <= to <= s@.len(),
    ensures
        r == canonical_dec(s@.subrange(from as int, to as int)),
{
    let ghost d = s@.subrange(from as int, to as int);
    if from == to {
        return false;
    }
    let first = s.get_char(from);
    if !digit_char(first) {
        proof {
            assert(d[0] == s@[from as int]);
            assert(!is_digit(d[0]));
        }
        return false;
    }
    if to - from > 1 && first == '0' {
        proof {
            assert(d[0] == s@[from as int]);
            assert(d[0] == '0');
        }
        return false;
    }
    let mut i = from;
    while i < to
        invariant
            from <= i <= to <= s@.len(),
            d == s@.subrange(from as int, to as int),
            forall|k: int| from <= k < i ==> is_digit(#[trigger] s@[k]),
        decreases to - i,
    {
        if !digit_char(s.get_char(i)) {
            proof {
                assert(d[i - from] == s@[i as int]);
                assert(!is_digit(d[i - from]));
            }
            return false;
        }
        i += 1;
    }
    assert forall|k: int| 0 <= k < d.len() implies is_digit(#[trigger] d[k]) by {
        assert(d[k] == s@[from + k]);
    }
    true
}

proof fn lemma_take_first(w: Seq<char>, n: int)
    requires
        0 < n <= w.len(),
    ensures
        w.take(n)[0] == w[0],
{
}

/// The digits of a canonical suffix, read back at their places in the word.
proof fn lemma_suffix_digits(w: Seq<char>, p: int)
    requires
        0 <= p <= w.len(),
        canonical_dec(w.skip(p)),
    ensures
        forall|k: int| p <= k < w.len() ==> is_digit(#[trigger] w[k]),
{
    assert forall|k: int| p <= k < w.len() implies is_digit(#[trigger] w[k]) by {
        assert(w.skip(p)[k - p] == w[k]);
        assert(is_digit(w.skip(p)[k - p]));
    }
}

/// Classifies one maximal identifier-shaped word of a type string.
fn classify(w: &str) -> (t: ArgType)
    ensures
        t@ == classify_word(w@),
{
    proof {
        reveal_strlit("address");
        reveal_strlit("bool");
        reveal_strlit("string");
        reveal_strlit("bytes");
        reveal_strlit("byte");
        reveal_strlit("uint");
        reveal_strlit("int");
    }
    if str_eq(w, "address") {
        return ArgType::Address;
    }
    if str_eq(w, "bool") {
        return ArgType::Bool;
    }
    if str_eq(w, "string") {
        return ArgType::String;
    }
    if str_eq(w, "bytes") {
        return ArgType::Bytes;
    }
    if str_eq(w, "byte") {
        return ArgType::Byte(1);
    }
    if str_eq(w, "uint") {
        return ArgType::Uint;
    }
    if str_eq(w, "int") {
        return ArgType::Int;
    }
    let len = w.unicode_len();
    if len > 5 && str_eq(w.substring_char(0, 5), "bytes") {
        proof {
            assert(w@.take(5) =~= w@.subrange(0, 5));
            lemma_take_first(w@, 5);
            assert(w@[0] == 'b');
        }
        if canonical_digits(w, 5, len) {
            proof {
                assert(w@.subrange(5, len as int) =~= w@.skip(5));
                lemma_suffix_digits(w@, 5);
            }
            if let Some(n) = parse_dec(w, 5, len) {
                if 1 <= n && n <= 32 {
                    assert(is_bytes_n(w@));
                    return ArgType::Byte(n as u8);
                }
            }
        }
        proof {
            assert(!is_bytes_n(w@));
            assert(!is_sized_int(w@, "uint"@)) by {
                if is_sized_int(w@, "uint"@) {
                    lemma_take_first(w@, 4);
                }
            }
            assert(!is_sized_int(w@, "int"@)) by {
                if is_sized_int(w@, "int"@) {
                    lemma_take_first(w@, 3);
                }
            }
            assert(classify_word(w@) == ArgTypeV::Custom(w@));
        }
        return ArgType::Custom(w.to_owned());
    }
    if len > 4 && str_eq(w.substring_char(0, 4), "uint") {
        proof {
            assert(w@.take(4) =~= w@.subrange(0, 4));
            lemma_take_first(w@, 4);
            assert(w@[0] == 'u');
        }
        if canonical_digits(w, 4, len) {
            proof {
                assert(w@.subrange(4, len as int) =~= w@.skip(4));
                lemma_suffix_digits(w@, 4);
            }
            if let Some(n) = parse_dec(w, 4, len) {
                if 8 <= n && n <= 256 && n % 8 == 0 {
                    assert(is_sized_int(w@, "uint"@));
                    return ArgType::Uint;
                }
            }
        }
        proof {
            assert(!is_sized_int(w@, "uint"@));
            assert(!is_bytes_n(w@)) by {
                if is_bytes_n(w@) {
                    lemma_take_first(w@, 5);
                }
            }
            assert(!is_sized_int(w@, "int"@)) by {
                if is_sized_int(w@, "int"@) {
                    lemma_take_first(w@, 3);
                }
            }
            assert(classify_word(w@) == ArgTypeV::Custom(w@));
        }
        return ArgType::Custom(w.to_owned());
    }
    if len > 3 && str_eq(w.substring_char(0, 3), "int") {
        proof {
            assert(w@.take(3) =~= w@.subrange(0, 3));
            lemma_take_first(w@, 3);
            assert(w@[0] == 'i');
        }
        if canonical_digits(w, 3, len) {
            proof {
                assert(w@.subrange(3, len as int) =~= w@.skip(3));
                lemma_suffix_digits(w@, 3);
            }
            if let Some(n) = parse_dec(w, 3, len) {
                if 8 <= n && n <= 256 && n % 8 == 0 {
                    assert(is_sized_int(w@, "int"@));
                    return ArgType::Int;
                }
            }
        }
        proof {
            assert(!is_sized_int(w@, "int"@));
            assert(!is_bytes_n(w@)) by {
                if is_bytes_n(w@) {
                    lemma_take_first(w@, 5);
                }
            }
            assert(!is_sized_int(w@, "uint"@)) by {
                if is_sized_int(w@, "uint"@) {
                    lemma_take_first(w@, 4);
                }
            }
            assert(classify_word(w@) == ArgTypeV::Custom(w@));
        }
        return ArgType::Custom(w.to_owned());
    }
    proof {
        assert(!is_bytes_n(w@)) by {
            if is_bytes_n(w@) {
                assert(w@.take(5) =~= w@.subrange(0, 5));
            }
        }
        assert(!is_sized_int(w@, "uint"@)) by {
            if is_sized_int(w@, "uint"@) {
                assert(w@.take(4) =~= w@.subrange(0, 4));
            }
        }
        assert(!is_sized_int(w@, "int"@)) by {
            if is_sized_int(w@, "int"@) {
                assert(w@.take(3) =~= w@.subrange(0, 3));
            }
        }
        assert(classify_word(w@) == ArgTypeV::Custom(w@));
    }
    ArgType::Custom(w.to_owned())
}

/// Parses a single type string such as "bytes", "uint256[][3]" or a custom
/// struct name. Fails, with no partial result, on any input the grammar
/// does not accept. The result is a function of the text alone, so repeated
/// calls agree. A sized name whose number falls outside the grammar
/// ("bytes33", "uint7") is deliberately read as a custom type name, as the
/// longest-match scanner implies, rather than rejected.
pub fn parse_type(field_type: &str) -> (r: ParsingResult<ArgType>)
    ensures
        match r {
            Result::Ok(t) => parse_type_spec(field_type@) == Option::Some(t@),
            Result::Err(e) => parse_type_spec(field_type@) is None && e
                == ParsingError::ArgumentParseError,
        },
{
    let ghost s = field_type@;
    let len = field_type.unicode_len();
    let mut i: usize = 0;
    let mut inner: Option<ArgType> = None;
    while i < len
        invariant
            i <= len,
            len == s.len(),
            s == field_type@,
            scan_type(s, i as int, opt_arg_type_view(inner)) == parse_type_spec(s),
        decreases len - i,
    {
        let ghost acc0 = opt_arg_type_view(inner);
        let c = field_type.get_char(i);
        if word_start_char(c) {
            let j = scan_word_end(field_type, len, i + 1);
            let w = field_type.substring_char(i, j);
            let t = classify(w);
            proof {
                assert(w@ == s.subrange(i as int, j as int));
                assert(scan_type(s, i as int, acc0) == scan_type(
                    s,
                    j as int,
                    Option::Some(classify_word(s.subrange(i as int, j as int))),
                ));
            }
            inner = Some(t);
            i = j;
        } else if c == '[' {
            let j = scan_digit_end(field_type, len, i + 1);
            if j < len && field_type.get_char(j) == ']' {
                match inner {
                    None => {
                        assert(scan_type(s, i as int, acc0) is None);
                        return Err(ParsingError::ArgumentParseError);
                    },
                    Some(prev) => {
                        let length: Option<u64> = if j == i + 1 {
                            None
                        } else {
                            parse_dec(field_type, i + 1, j)
                        };
                        proof {
                            assert(length == bracket_length(s.subrange(i + 1, j as int)));
                        }
                        let ghost prev_v = prev@;
                        inner = Some(ArgType::Array { length, inner: Box::new(prev) });
                        proof {
                            assert(scan_type(s, i as int, acc0) == scan_type(
                                s,
                                j + 1,
                                Option::Some(
                                    ArgTypeV::Array {
                                        length: bracket_length(s.subrange(i + 1, j as int)),
                                        inner: Box::new(prev_v),
                                    },
                                ),
                            ));
                        }
                        i = j + 1;
                    },
                }
            } else {
                assert(scan_type(s, i as int, acc0) is None);
                return Err(ParsingError::ArgumentParseError);
            }
        } else {
            assert(scan_type(s, i as int, acc0) is None);
            return Err(ParsingError::ArgumentParseError);
        }
    }
    match inner {
        None => {
            assert(parse_type_spec(s) is None);
            Err(ParsingError::ArgumentParseError)
        },
        Some(t) => Ok(t),
    }
}

} // verus!
