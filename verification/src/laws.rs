//! General properties of the type grammar, stated and proved once for all
//! inputs they speak of: every sized `bytesN` and `uintN` name parses to
//! the type its digits say, for the whole range the grammar admits.

use vstd::prelude::*;

use crate::type_sig::{
    canonical_dec, classify_word, dec_val, digit_val, is_bytes_n, is_digit, is_sized_int,
    is_word_char, is_word_start, parse_type_spec, scan_type, word_len, ArgTypeV,
};

verus! {

/// The character of one decimal digit.
pub open spec fn digit_of(d: int) -> char {
    if d == 0 {
        '0'
    } else if d == 1 {
        '1'
    } else if d == 2 {
        '2'
    } else if d == 3 {
        '3'
    } else if d == 4 {
        '4'
    } else if d == 5 {
        '5'
    } else if d == 6 {
        '6'
    } else if d == 7 {
        '7'
    } else if d == 8 {
        '8'
    } else {
        '9'
    }
}

/// The canonical decimal text of a nonnegative number.
pub open spec fn dec_str(n: int) -> Seq<char>
    recommends
        n >= 0,
    decreases n,
{
    if n < 10 {
        seq![digit_of(n)]
    } else {
        dec_str(n / 10).push(digit_of(n % 10))
    }
}

pub proof fn lemma_dec_str_props(n: int)
    requires
        0 <= n,
    ensures
        dec_str(n).len() >= 1,
        forall|i: int| 0 <= i < dec_str(n).len() ==> is_digit(#[trigger] dec_str(n)[i]),
        n >= 1 ==> dec_str(n)[0] != '0',
        dec_val(dec_str(n)) == n,
        n >= 1 ==> canonical_dec(dec_str(n)),
    decreases n,
{
    if n < 10 {
        let s = dec_str(n);
        assert(s.len() == 1);
        assert(s[0] == digit_of(n));
        assert(s.drop_last() =~= Seq::<char>::empty());
        assert(dec_val(s) == dec_val(Seq::<char>::empty()) * 10 + digit_val(s.last()));
        assert(digit_val(digit_of(n)) == n);
    } else {
        lemma_dec_str_props(n / 10);
        let s = dec_str(n);
        let p = dec_str(n / 10);
        assert(s.drop_last() =~= p);
        assert(s.last() == digit_of(n % 10));
        assert(digit_val(digit_of(n % 10)) == n % 10);
        assert(dec_val(s) == dec_val(p) * 10 + n % 10);
        vstd::arithmetic::div_mod::lemma_fundamental_div_mod(n, 10);
        assert(s[0] == p[0]);
        assert forall|i: int| 0 <= i < s.len() implies is_digit(#[trigger] s[i]) by {
            if i < p.len() {
                assert(s[i] == p[i]);
            } else {
                assert(s[i] == digit_of(n % 10));
            }
        }
    }
}

/// A run of word characters is scanned to its very end.
pub proof fn lemma_word_len_full(s: Seq<char>, i: int)
    requires
        0 <= i <= s.len(),
        forall|k: int| i <= k < s.len() ==> is_word_char(#[trigger] s[k]),
    ensures
        word_len(s, i) == s.len() - i,
    decreases s.len() - i,
{
    if i < s.len() {
        lemma_word_len_full(s, i + 1);
    }
}

/// A `bytesN` name is one identifier-shaped word whose characters are the
/// five letters and then digits.
proof fn lemma_sized_word(prefix: Seq<char>, digits: Seq<char>)
    requires
        forall|i: int| 0 <= i < prefix.len() ==> is_word_start(#[trigger] prefix[i]),
        forall|i: int| 0 <= i < digits.len() ==> is_digit(#[trigger] digits[i]),
    ensures
        forall|i: int| 0 <= i < (prefix + digits).len() ==> is_word_char(
            #[trigger] (prefix + digits)[i],
        ),
{
    let w = prefix + digits;
    assert forall|i: int| 0 <= i < w.len() implies is_word_char(w[i]) by {
        if i < prefix.len() {
            assert(w[i] == prefix[i]);
        } else {
            assert(w[i] == digits[i - prefix.len()]);
        }
    }
}

/// For every width 1 to 32, the type text `bytes` + the decimal of the
/// width parses to the fixed-bytes type of that width.
pub proof fn lemma_parse_type_bytes_n(n: u8)
    requires
        1 <= n <= 32,
    ensures
        parse_type_spec("bytes"@ + dec_str(n as int)) == Option::Some(ArgTypeV::Byte(n)),
{
    reveal_strlit("bytes");
    reveal_strlit("byte");
    reveal_strlit("address");
    reveal_strlit("bool");
    reveal_strlit("string");
    reveal_strlit("uint");
    reveal_strlit("int");
    let d = dec_str(n as int);
    let w = "bytes"@ + d;
    lemma_dec_str_props(n as int);
    assert forall|i: int| 0 <= i < 5 implies is_word_start(#[trigger] "bytes"@[i]) by {}
    lemma_sized_word("bytes"@, d);
    assert(is_word_start(w[0]));
    lemma_word_len_full(w, 1);
    assert(w.subrange(0, w.len() as int) =~= w);
    assert(w.take(5) =~= "bytes"@);
    assert(w.skip(5) =~= d);
    assert(is_bytes_n(w));
    assert(w[0] == 'b');
    assert(w != "address"@);
    assert(w != "bool"@);
    assert(w != "string"@);
    assert(w != "bytes"@);
    assert(w != "byte"@);
    assert(w != "uint"@);
    assert(w != "int"@);
    assert(classify_word(w) == ArgTypeV::Byte(n));
    assert(scan_type(w, 0, Option::None) == scan_type(
        w,
        w.len() as int,
        Option::Some(ArgTypeV::Byte(n)),
    ));
}

/// For every multiple of eight from 8 to 256, the type text `uint` + its
/// decimal parses to the unsigned integer type.
pub proof fn lemma_parse_type_uint_n(k: u8)
    requires
        1 <= k <= 32,
    ensures
        parse_type_spec("uint"@ + dec_str(8 * k as int)) == Option::Some(ArgTypeV::Uint),
{
    reveal_strlit("bytes");
    reveal_strlit("byte");
    reveal_strlit("address");
    reveal_strlit("bool");
    reveal_strlit("string");
    reveal_strlit("uint");
    reveal_strlit("int");
    let d = dec_str(8 * k as int);
    let w = "uint"@ + d;
    lemma_dec_str_props(8 * k as int);
    assert forall|i: int| 0 <= i < 4 implies is_word_start(#[trigger] "uint"@[i]) by {}
    lemma_sized_word("uint"@, d);
    assert(is_word_start(w[0]));
    lemma_word_len_full(w, 1);
    assert(w.subrange(0, w.len() as int) =~= w);
    assert(w.take(4) =~= "uint"@);
    assert(w.skip(4) =~= d);
    assert(is_sized_int(w, "uint"@));
    assert(w[0] == 'u');
    assert(!is_bytes_n(w)) by {
        if is_bytes_n(w) {
            assert(w.take(5)[0] == w[0]);
        }
    }
    assert(w != "address"@);
    assert(w != "bool"@);
    assert(w != "string"@);
    assert(w != "bytes"@);
    assert(w != "byte"@);
    assert(w != "uint"@);
    assert(w != "int"@);
    assert(classify_word(w) == ArgTypeV::Uint);
    assert(scan_type(w, 0, Option::None) == scan_type(
        w,
        w.len() as int,
        Option::Some(ArgTypeV::Uint),
    ));
}

/// The bare words `byte` and `uint` parse to the one-byte fixed type and
/// the default-width unsigned type.
pub proof fn lemma_parse_type_bare()
    ensures
        parse_type_spec("byte"@) == Option::Some(ArgTypeV::Byte(1)),
        parse_type_spec("uint"@) == Option::Some(ArgTypeV::Uint),
{
    reveal_strlit("byte");
    reveal_strlit("uint");
    reveal_strlit("bytes");
    reveal_strlit("address");
    reveal_strlit("bool");
    reveal_strlit("string");
    reveal_strlit("int");
    let b = "byte"@;
    assert forall|i: int| 0 <= i < b.len() implies is_word_char(#[trigger] b[i]) by {}
    assert(is_word_start(b[0]));
    lemma_word_len_full(b, 1);
    assert(b.subrange(0, b.len() as int) =~= b);
    assert(classify_word(b) == ArgTypeV::Byte(1));
    assert(scan_type(b, 0, Option::None) == scan_type(
        b,
        b.len() as int,
        Option::Some(ArgTypeV::Byte(1)),
    ));
    let u = "uint"@;
    assert forall|i: int| 0 <= i < u.len() implies is_word_char(#[trigger] u[i]) by {}
    assert(is_word_start(u[0]));
    lemma_word_len_full(u, 1);
    assert(u.subrange(0, u.len() as int) =~= u);
    assert(classify_word(u) == ArgTypeV::Uint);
    assert(scan_type(u, 0, Option::None) == scan_type(
        u,
        u.len() as int,
        Option::Some(ArgTypeV::Uint),
    ));
}

} // verus!
