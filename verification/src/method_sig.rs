//! Parsing of a full method definition
//! `name(type1 arg1,type2 arg2,...)Aux1(...)Aux2(...)` into the primary
//! method and its auxiliary struct declarations, and the canonical
//! `name(type1,type2,...)` signature used for hashing.

use vstd::prelude::*;

use crate::type_sig::{parse_type, parse_type_spec, ArgType, ArgTypeV};
use crate::types::{ParsingError, ParsingResult};

verus! {

/// One argument of a method definition: its name, the raw type text exactly
/// as written, and the parsed type.
#[derive(Debug, PartialEq, Eq)]
pub struct Arg {
    pub name: String,
    pub type_raw: String,
    pub t: ArgType,
}

pub struct ArgV {
    pub name: Seq<char>,
    pub type_raw: Seq<char>,
    pub t: ArgTypeV,
}

impl View for Arg {
    type V = ArgV;

    open spec fn view(&self) -> ArgV {
        ArgV { name: self.name@, type_raw: self.type_raw@, t: self.t@ }
    }
}

/// A parsed method definition. `raw` is the exact consumed substring
/// `name(type1 arg1,...)`, kept byte for byte because it later feeds the
/// EIP-712 type hash.
#[derive(Debug, PartialEq, Eq)]
pub struct Method {
    pub name: String,
    pub raw: String,
    pub args: Vec<Arg>,
}

pub struct MethodV {
    pub name: Seq<char>,
    pub raw: Seq<char>,
    pub args: Seq<ArgV>,
}

impl View for Method {
    type V = MethodV;

    open spec fn view(&self) -> MethodV {
        MethodV { name: self.name@, raw: self.raw@, args: self.args@.map_values(|a: Arg| a@) }
    }
}

/// The primary method together with the auxiliary struct declarations that
/// followed it, in declaration order. A later declaration of the same name
/// shadows an earlier one on lookup, as a map insert would.
#[derive(Debug, PartialEq, Eq)]
pub struct MethodAndTypes {
    pub method: Method,
    pub type_sequences: Vec<String>,
    pub types: Vec<Method>,
}

pub struct MethodAndTypesV {
    pub method: MethodV,
    pub type_sequences: Seq<Seq<char>>,
    pub types: Seq<MethodV>,
}

impl View for MethodAndTypes {
    type V = MethodAndTypesV;

    open spec fn view(&self) -> MethodAndTypesV {
        MethodAndTypesV {
            method: self.method@,
            type_sequences: self.type_sequences@.map_values(|s: String| s@),
            types: self.types@.map_values(|m: Method| m@),
        }
    }
}

/// The declaration a name refers to: the last one parsed under that name.
pub open spec fn find_type(ts: Seq<MethodV>, name: Seq<char>) -> Option<MethodV>
    decreases ts.len(),
{
    if ts.len() == 0 {
        Option::None
    } else if ts.last().name == name {
        Option::Some(ts.last())
    } else {
        find_type(ts.drop_last(), name)
    }
}

/// First character of a method or argument name: a letter or underscore.
pub open spec fn arg_start(c: char) -> bool {
    let u = c as int;
    (97 <= u <= 122) || (65 <= u <= 90) || u == 95
}

/// Any further character of a method or argument name.
pub open spec fn arg_char(c: char) -> bool {
    arg_start(c) || (48 <= c as int <= 57)
}

/// Return true if c can be used as first char of a method or argument name.
pub fn is_arg_start(c: char) -> (r: bool)
    ensures
        r == arg_start(c),
{
    let u = c as u32;
    (u >= 97 && u <= 122) || (u >= 65 && u <= 90) || u == 95
}

/// Return true if c can be used as a consequent char of a method or
/// argument name.
pub fn is_arg_char(c: char) -> (r: bool)
    ensures
        r == arg_char(c),
{
    let u = c as u32;
    is_arg_start(c) || (u >= 48 && u <= 57)
}

/// Number of name characters at position `i` and after.
pub open spec fn arg_char_len(s: Seq<char>, i: int) -> nat
    decreases s.len() - i,
{
    if i < s.len() && arg_char(s[i]) {
        1 + arg_char_len(s, i + 1)
    } else {
        0
    }
}

pub proof fn lemma_arg_char_len_bound(s: Seq<char>, i: int)
    requires
        0 <= i <= s.len(),
    ensures
        arg_char_len(s, i) <= s.len() - i,
    decreases s.len() - i,
{
    if i < s.len() && arg_char(s[i]) {
        lemma_arg_char_len_bound(s, i + 1);
    }
}

/// Number of non-space characters at position `i` and after.
pub open spec fn non_space_len(s: Seq<char>, i: int) -> nat
    decreases s.len() - i,
{
    if i < s.len() && s[i] != ' ' {
        1 + non_space_len(s, i + 1)
    } else {
        0
    }
}

pub proof fn lemma_non_space_len_bound(s: Seq<char>, i: int)
    requires
        0 <= i <= s.len(),
    ensures
        non_space_len(s, i) <= s.len() - i,
    decreases s.len() - i,
{
    if i < s.len() && s[i] != ' ' {
        lemma_non_space_len_bound(s, i + 1);
    }
}

/// One character consumed if it is exactly `c`.
pub open spec fn spec_consume(s: Seq<char>, i: int, c: char) -> Result<int, ParsingError> {
    if 0 <= i < s.len() && s[i] == c {
        Result::Ok(i + 1)
    } else {
        Result::Err(ParsingError::InvalidMetaTransactionMethodName)
    }
}

/// An identifier read at position `i`: its text and the position after it.
pub open spec fn spec_parse_ident(s: Seq<char>, i: int) -> Result<
    (Seq<char>, int),
    ParsingError,
> {
    if 0 <= i < s.len() && arg_start(s[i]) {
        let j = i + 1 + arg_char_len(s, i + 1);
        Result::Ok((s.subrange(i, j), j))
    } else {
        Result::Err(ParsingError::InvalidMetaTransactionMethodName)
    }
}

pub proof fn lemma_parse_ident_bounds(s: Seq<char>, i: int)
    requires
        0 <= i <= s.len(),
        spec_parse_ident(s, i) is Ok,
    ensures
        i < spec_parse_ident(s, i).unwrap().1 <= s.len(),
{
    lemma_arg_char_len_bound(s, i + 1);
}

/// The raw type text: everything up to the first space, which must exist.
pub open spec fn spec_parse_type_raw(s: Seq<char>, i: int) -> Result<
    (Seq<char>, int),
    ParsingError,
> {
    let j = i + non_space_len(s, i);
    if 0 <= i && j < s.len() {
        Result::Ok((s.subrange(i, j), j))
    } else {
        Result::Err(ParsingError::InvalidMetaTransactionMethodName)
    }
}

/// One `type name` argument read at position `i`.
pub open spec fn spec_parse_arg(s: Seq<char>, i: int) -> Result<(ArgV, int), ParsingError> {
    match spec_parse_type_raw(s, i) {
        Result::Err(e) => Result::Err(e),
        Result::Ok((traw, j)) => match parse_type_spec(traw) {
            Option::None => Result::Err(ParsingError::ArgumentParseError),
            Option::Some(t) => match spec_consume(s, j, ' ') {
                Result::Err(e) => Result::Err(e),
                Result::Ok(k) => match spec_parse_ident(s, k) {
                    Result::Err(e) => Result::Err(e),
                    Result::Ok((name, l)) => Result::Ok(
                        (ArgV { name, type_raw: traw, t }, l),
                    ),
                },
            },
        },
    }
}

pub proof fn lemma_parse_arg_bounds(s: Seq<char>, i: int)
    requires
        0 <= i <= s.len(),
        spec_parse_arg(s, i) is Ok,
    ensures
        i < spec_parse_arg(s, i).unwrap().1 <= s.len(),
{
    let j = i + non_space_len(s, i);
    lemma_non_space_len_bound(s, i);
    lemma_parse_ident_bounds(s, j + 1);
}

/// Further `,type name` arguments after the first.
pub open spec fn spec_parse_more_args(s: Seq<char>, i: int, acc: Seq<ArgV>) -> Result<
    (Seq<ArgV>, int),
    ParsingError,
>
    decreases s.len() - i
        via spec_parse_more_args_decreases
{
    if 0 <= i < s.len() && s[i] == ',' {
        match spec_parse_arg(s, i + 1) {
            Result::Err(e) => Result::Err(e),
            Result::Ok((a, j)) => spec_parse_more_args(s, j, acc.push(a)),
        }
    } else {
        Result::Ok((acc, i))
    }
}

#[via_fn]
proof fn spec_parse_more_args_decreases(s: Seq<char>, i: int, acc: Seq<ArgV>) {
    if 0 <= i < s.len() && s[i] == ',' {
        if spec_parse_arg(s, i + 1) is Ok {
            lemma_parse_arg_bounds(s, i + 1);
        }
    }
}

/// The parenthesized argument list of a method definition.
pub open spec fn spec_parse_args(s: Seq<char>, i: int) -> Result<(Seq<ArgV>, int), ParsingError> {
    match spec_consume(s, i, '(') {
        Result::Err(e) => Result::Err(e),
        Result::Ok(j) => if j >= s.len() {
            Result::Err(ParsingError::InvalidMetaTransactionMethodName)
        } else if arg_start(s[j]) {
            match spec_parse_arg(s, j) {
                Result::Err(e) => Result::Err(e),
                Result::Ok((a, k)) => match spec_parse_more_args(s, k, seq![a]) {
                    Result::Err(e) => Result::Err(e),
                    Result::Ok((args, l)) => match spec_consume(s, l, ')') {
                        Result::Err(e) => Result::Err(e),
                        Result::Ok(m) => Result::Ok((args, m)),
                    },
                },
            }
        } else {
            match spec_consume(s, j, ')') {
                Result::Err(e) => Result::Err(e),
                Result::Ok(m) => Result::Ok((Seq::empty(), m)),
            }
        },
    }
}

pub proof fn lemma_parse_more_args_bounds(s: Seq<char>, i: int, acc: Seq<ArgV>)
    requires
        0 <= i <= s.len(),
        spec_parse_more_args(s, i, acc) is Ok,
    ensures
        i <= spec_parse_more_args(s, i, acc).unwrap().1 <= s.len(),
    decreases s.len() - i,
{
    if 0 <= i < s.len() && s[i] == ',' {
        match spec_parse_arg(s, i + 1) {
            Result::Err(_) => {},
            Result::Ok((a, j)) => {
                lemma_parse_arg_bounds(s, i + 1);
                lemma_parse_more_args_bounds(s, j, acc.push(a));
            },
        }
    }
}

pub proof fn lemma_parse_args_bounds(s: Seq<char>, i: int)
    requires
        0 <= i <= s.len(),
        spec_parse_args(s, i) is Ok,
    ensures
        i < spec_parse_args(s, i).unwrap().1 <= s.len(),
{
    match spec_consume(s, i, '(') {
        Result::Err(_) => {},
        Result::Ok(j) => {
            if j < s.len() && arg_start(s[j]) {
                lemma_parse_arg_bounds(s, j);
                let k = spec_parse_arg(s, j).unwrap().1;
                lemma_parse_more_args_bounds(s, k, seq![spec_parse_arg(s, j).unwrap().0]);
            }
        },
    }
}

/// One full method definition read at position `i`; its `raw` text is the
/// exact substring consumed.
pub open spec fn spec_parse_method(s: Seq<char>, i: int) -> Result<(MethodV, int), ParsingError> {
    match spec_parse_ident(s, i) {
        Result::Err(e) => Result::Err(e),
        Result::Ok((name, j)) => match spec_parse_args(s, j) {
            Result::Err(e) => Result::Err(e),
            Result::Ok((args, k)) => Result::Ok(
                (MethodV { name, raw: s.subrange(i, k), args }, k),
            ),
        },
    }
}

pub proof fn lemma_parse_method_bounds(s: Seq<char>, i: int)
    requires
        0 <= i <= s.len(),
        spec_parse_method(s, i) is Ok,
    ensures
        i < spec_parse_method(s, i).unwrap().1 <= s.len(),
{
    lemma_parse_ident_bounds(s, i);
    lemma_parse_args_bounds(s, spec_parse_ident(s, i).unwrap().1);
}

/// The auxiliary struct declarations after the primary method, parsed until
/// the input is exhausted.
pub open spec fn spec_parse_aux(
    s: Seq<char>,
    i: int,
    names: Seq<Seq<char>>,
    types: Seq<MethodV>,
) -> Result<(Seq<Seq<char>>, Seq<MethodV>), ParsingError>
    decreases s.len() - i
        via spec_parse_aux_decreases
{
    if i >= s.len() || i < 0 {
        Result::Ok((names, types))
    } else {
        match spec_parse_method(s, i) {
            Result::Err(e) => Result::Err(e),
            Result::Ok((t, j)) => spec_parse_aux(s, j, names.push(t.name), types.push(t)),
        }
    }
}

#[via_fn]
proof fn spec_parse_aux_decreases(s: Seq<char>, i: int, names: Seq<Seq<char>>, types: Seq<MethodV>) {
    if 0 <= i < s.len() {
        if spec_parse_method(s, i) is Ok {
            lemma_parse_method_bounds(s, i);
        }
    }
}

/// What `MethodAndTypes::parse` returns over the whole definition string.
pub open spec fn spec_parse_method_and_types(s: Seq<char>) -> Result<
    MethodAndTypesV,
    ParsingError,
> {
    match spec_parse_method(s, 0) {
        Result::Err(e) => Result::Err(e),
        Result::Ok((m, i)) => match spec_parse_aux(s, i, Seq::empty(), Seq::empty()) {
            Result::Err(e) => Result::Err(e),
            Result::Ok((names, ts)) => Result::Ok(
                MethodAndTypesV { method: m, type_sequences: names, types: ts },
            ),
        },
    }
}

} // verus!

use vstd::string::{StrSliceExecFns, StringExecFns};

verus! {

fn consume(s: &str, len: usize, i: usize, c: char) -> (r: ParsingResult<usize>)
    requires
        len == s@.len(),
        i <= len,
    ensures
        match r {
            Result::Ok(j) => spec_consume(s@, i as int, c) == Result::<int, ParsingError>::Ok(
                j as int,
            ) && i < j <= len,
            Result::Err(e) => spec_consume(s@, i as int, c) == Result::<int, ParsingError>::Err(e),
        },
{
    if i < len && s.get_char(i) == c {
        Ok(i + 1)
    } else {
        Err(ParsingError::InvalidMetaTransactionMethodName)
    }
}

fn parse_ident(s: &str, len: usize, i: usize) -> (r: ParsingResult<(String, usize)>)
    requires
        len == s@.len(),
        i <= len,
    ensures
        match r {
            Result::Ok(p) => spec_parse_ident(s@, i as int) == Result::<
                (Seq<char>, int),
                ParsingError,
            >::Ok((p.0@, p.1 as int)) && i < p.1 <= len,
            Result::Err(e) => spec_parse_ident(s@, i as int) == Result::<
                (Seq<char>, int),
                ParsingError,
            >::Err(e),
        },
{
    if i < len && is_arg_start(s.get_char(i)) {
        let mut j = i + 1;
        while j < len && is_arg_char(s.get_char(j))
            invariant
                i + 1 <= j <= len,
                len == s@.len(),
                arg_char_len(s@, i + 1) == j - (i + 1) + arg_char_len(s@, j as int),
            decreases len - j,
        {
            j += 1;
        }
        let w = s.substring_char(i, j).to_owned();
        Ok((w, j))
    } else {
        Err(ParsingError::InvalidMetaTransactionMethodName)
    }
}

fn parse_type_raw(s: &str, len: usize, i: usize) -> (r: ParsingResult<(String, usize)>)
    requires
        len == s@.len(),
        i <= len,
    ensures
        match r {
            Result::Ok(p) => spec_parse_type_raw(s@, i as int) == Result::<
                (Seq<char>, int),
                ParsingError,
            >::Ok((p.0@, p.1 as int)) && i <= p.1 < len,
            Result::Err(e) => spec_parse_type_raw(s@, i as int) == Result::<
                (Seq<char>, int),
                ParsingError,
            >::Err(e),
        },
{
    let mut j = i;
    while j < len && s.get_char(j) != ' '
        invariant
            i <= j <= len,
            len == s@.len(),
            non_space_len(s@, i as int) == j - i + non_space_len(s@, j as int),
        decreases len - j,
    {
        j += 1;
    }
    if j >= len {
        Err(ParsingError::InvalidMetaTransactionMethodName)
    } else {
        let w = s.substring_char(i, j).to_owned();
        Ok((w, j))
    }
}

impl Arg {
    /// One `type name` argument read at position `i` of the definition.
    fn parse(s: &str, len: usize, i: usize) -> (r: ParsingResult<(Arg, usize)>)
        requires
            len == s@.len(),
            i <= len,
        ensures
            match r {
                Result::Ok(p) => spec_parse_arg(s@, i as int) == Result::<
                    (ArgV, int),
                    ParsingError,
                >::Ok((p.0@, p.1 as int)) && i < p.1 <= len,
                Result::Err(e) => spec_parse_arg(s@, i as int) == Result::<
                    (ArgV, int),
                    ParsingError,
                >::Err(e),
            },
    {
        let (type_raw, j) = match parse_type_raw(s, len, i) {
            Ok(p) => p,
            Err(e) => {
                return Err(e);
            },
        };
        let t = match parse_type(type_raw.as_str()) {
            Ok(t) => t,
            Err(e) => {
                return Err(e);
            },
        };
        let k = match consume(s, len, j, ' ') {
            Ok(k) => k,
            Err(e) => {
                return Err(e);
            },
        };
        let (name, l) = match parse_ident(s, len, k) {
            Ok(p) => p,
            Err(e) => {
                return Err(e);
            },
        };
        Ok((Arg { name, type_raw, t }, l))
    }

    /// The parenthesized argument list starting at position `i`.
    #[verifier::loop_isolation(false)]
    fn parse_args(s: &str, len: usize, i: usize) -> (r: ParsingResult<(Vec<Arg>, usize)>)
        requires
            len == s@.len(),
            i <= len,
        ensures
            match r {
                Result::Ok(p) => spec_parse_args(s@, i as int) == Result::<
                    (Seq<ArgV>, int),
                    ParsingError,
                >::Ok((p.0@.map_values(|a: Arg| a@), p.1 as int)) && i < p.1 <= len,
                Result::Err(e) => spec_parse_args(s@, i as int) == Result::<
                    (Seq<ArgV>, int),
                    ParsingError,
                >::Err(e),
            },
    {
        let j = match consume(s, len, i, '(') {
            Ok(j) => j,
            Err(e) => {
                return Err(e);
            },
        };
        if j >= len {
            return Err(ParsingError::InvalidMetaTransactionMethodName);
        }
        if is_arg_start(s.get_char(j)) {
            let (first, k) = match Arg::parse(s, len, j) {
                Ok(p) => p,
                Err(e) => {
                    return Err(e);
                },
            };
            let mut args: Vec<Arg> = Vec::new();
            let ghost first_v = first@;
            args.push(first);
            proof {
                assert(args@.map_values(|a: Arg| a@) =~= seq![first_v]);
            }
            let ghost target = spec_parse_more_args(s@, k as int, seq![first_v]);
            let mut pos = k;
            while pos < len && s.get_char(pos) == ','
                invariant
                    len == s@.len(),
                    k <= pos <= len,
                    spec_parse_more_args(s@, pos as int, args@.map_values(|a: Arg| a@))
                        == target,
                decreases len - pos,
            {
                let ghost args_v = args@.map_values(|a: Arg| a@);
                let (a2, k2) = match Arg::parse(s, len, pos + 1) {
                    Ok(p) => p,
                    Err(e) => {
                        assert(target == Result::<(Seq<ArgV>, int), ParsingError>::Err(e));
                        return Err(e);
                    },
                };
                let ghost a2_v = a2@;
                args.push(a2);
                proof {
                    assert(args@.map_values(|a: Arg| a@) =~= args_v.push(a2_v));
                }
                pos = k2;
            }
            proof {
                assert(spec_parse_more_args(s@, pos as int, args@.map_values(|a: Arg| a@))
                    == Result::<(Seq<ArgV>, int), ParsingError>::Ok(
                    (args@.map_values(|a: Arg| a@), pos as int),
                ));
            }
            let m = match consume(s, len, pos, ')') {
                Ok(m) => m,
                Err(e) => {
                    return Err(e);
                },
            };
            Ok((args, m))
        } else {
            let m = match consume(s, len, j, ')') {
                Ok(m) => m,
                Err(e) => {
                    return Err(e);
                },
            };
            let args: Vec<Arg> = Vec::new();
            proof {
                assert(args@.map_values(|a: Arg| a@) =~= Seq::<ArgV>::empty());
            }
            Ok((args, m))
        }
    }
}

impl Method {
    /// One full method definition read at position `i`.
    fn parse(s: &str, len: usize, i: usize) -> (r: ParsingResult<(Method, usize)>)
        requires
            len == s@.len(),
            i <= len,
        ensures
            match r {
                Result::Ok(p) => spec_parse_method(s@, i as int) == Result::<
                    (MethodV, int),
                    ParsingError,
                >::Ok((p.0@, p.1 as int)) && i < p.1 <= len,
                Result::Err(e) => spec_parse_method(s@, i as int) == Result::<
                    (MethodV, int),
                    ParsingError,
                >::Err(e),
            },
    {
        let (name, j) = match parse_ident(s, len, i) {
            Ok(p) => p,
            Err(e) => {
                return Err(e);
            },
        };
        let (args, k) = match Arg::parse_args(s, len, j) {
            Ok(p) => p,
            Err(e) => {
                return Err(e);
            },
        };
        let raw = s.substring_char(i, k).to_owned();
        Ok((Method { name, raw, args }, k))
    }
}

impl MethodAndTypes {
    /// Parses a full method definition: the primary method, then auxiliary
    /// struct declarations until the input is exhausted.
    #[verifier::loop_isolation(false)]
    pub fn parse(method_def: &str) -> (r: ParsingResult<MethodAndTypes>)
        ensures
            match r {
                Result::Ok(mt) => spec_parse_method_and_types(method_def@) == Result::<
                    MethodAndTypesV,
                    ParsingError,
                >::Ok(mt@),
                Result::Err(e) => spec_parse_method_and_types(method_def@) == Result::<
                    MethodAndTypesV,
                    ParsingError,
                >::Err(e),
            },
    {
        let len = method_def.unicode_len();
        let (method, start) = match Method::parse(method_def, len, 0) {
            Ok(p) => p,
            Err(e) => {
                return Err(e);
            },
        };
        let mut type_sequences: Vec<String> = Vec::new();
        let mut types: Vec<Method> = Vec::new();
        let ghost target = spec_parse_aux(method_def@, start as int, Seq::empty(), Seq::empty());
        let mut i = start;
        proof {
            assert(type_sequences@.map_values(|s2: String| s2@) =~= Seq::<Seq<char>>::empty());
            assert(types@.map_values(|m: Method| m@) =~= Seq::<MethodV>::empty());
        }
        while i < len
            invariant
                len == method_def@.len(),
                i <= len,
                spec_parse_aux(
                    method_def@,
                    i as int,
                    type_sequences@.map_values(|s2: String| s2@),
                    types@.map_values(|m: Method| m@),
                ) == target,
            decreases len - i,
        {
            let ghost names_v = type_sequences@.map_values(|s2: String| s2@);
            let ghost types_v = types@.map_values(|m: Method| m@);
            let (ty, j) = match Method::parse(method_def, len, i) {
                Ok(p) => p,
                Err(e) => {
                    assert(target == Result::<
                        (Seq<Seq<char>>, Seq<MethodV>),
                        ParsingError,
                    >::Err(e));
                    return Err(e);
                },
            };
            let ghost ty_v = ty@;
            type_sequences.push(ty.name.clone());
            types.push(ty);
            proof {
                assert(type_sequences@.map_values(|s2: String| s2@) =~= names_v.push(ty_v.name));
                assert(types@.map_values(|m: Method| m@) =~= types_v.push(ty_v));
            }
            i = j;
        }
        Ok(MethodAndTypes { method, type_sequences, types })
    }

    /// The declaration `name` refers to, the last one parsed under that
    /// name, as a map lookup would return it.
    #[verifier::loop_isolation(false)]
    pub fn lookup_type(&self, name: &str) -> (r: Option<&Method>)
        ensures
            match r {
                Option::Some(m) => find_type(self@.types, name@) == Option::Some(m@),
                Option::None => find_type(self@.types, name@) is None,
            },
    {
        let ghost ts = self@.types;
        let n = self.types.len();
        proof {
            assert(ts.take(n as int) =~= ts);
        }
        let mut i = n;
        while i > 0
            invariant
                i <= n,
                n == self.types@.len(),
                ts == self@.types,
                find_type(ts.take(i as int), name@) == find_type(ts, name@),
            decreases i,
        {
            i -= 1;
            let m = &self.types[i];
            if crate::type_sig::str_eq(m.name.as_str(), name) {
                proof {
                    assert(ts.take(i + 1).last() == ts[i as int]);
                    assert(ts[i as int].name == name@);
                }
                return Some(m);
            }
            proof {
                assert(ts.take(i + 1).last() == ts[i as int]);
                assert(ts.take(i + 1).drop_last() =~= ts.take(i as int));
            }
        }
        proof {
            assert(ts.take(0) =~= Seq::<MethodV>::empty());
        }
        None
    }
}

/// The canonical signature text `name(type1,type2,...)` of the primary
/// method, built from each argument's raw type text.
pub open spec fn spec_joined_type_raws(args: Seq<ArgV>) -> Seq<char>
    decreases args.len(),
{
    if args.len() == 0 {
        Seq::empty()
    } else if args.len() == 1 {
        args[0].type_raw
    } else {
        spec_joined_type_raws(args.drop_last()) + ","@ + args.last().type_raw
    }
}

pub open spec fn spec_method_signature(mt: MethodAndTypesV) -> Seq<char> {
    mt.method.name + "("@ + spec_joined_type_raws(mt.method.args) + ")"@
}

/// Return a signature of the method definition with the argument names left
/// out, e.g. "adopt(uint256 petId,PetObj petobj)PetObj(string name)" gives
/// "adopt(uint256,PetObj)".
pub fn method_signature(method_and_type: &MethodAndTypes) -> (r: String)
    ensures
        r@ == spec_method_signature(method_and_type@),
{
    proof {
        reveal_strlit("(");
        reveal_strlit(")");
        reveal_strlit(",");
    }
    let ghost args_v = method_and_type@.method.args;
    let mut result = method_and_type.method.name.clone();
    result.append("(");
    let n = method_and_type.method.args.len();
    let mut i: usize = 0;
    proof {
        assert(args_v.take(0) =~= Seq::<ArgV>::empty());
    }
    while i < n
        invariant
            i <= n,
            n == method_and_type.method.args@.len(),
            args_v == method_and_type@.method.args,
            result@ == method_and_type@.method.name + "("@ + spec_joined_type_raws(
                args_v.take(i as int),
            ),
        decreases n - i,
    {
        if i > 0 {
            result.append(",");
        }
        result.append(method_and_type.method.args[i].type_raw.as_str());
        proof {
            let prev = args_v.take(i as int);
            let cur = args_v.take(i + 1);
            assert(cur.drop_last() =~= prev);
            assert(cur.last() == args_v[i as int]);
            if i == 0 {
                assert(spec_joined_type_raws(cur) == args_v[0].type_raw);
                assert(result@ =~= method_and_type@.method.name + "("@ + spec_joined_type_raws(
                    cur,
                ));
            } else {
                assert(spec_joined_type_raws(cur) == spec_joined_type_raws(prev) + ","@
                    + args_v[i as int].type_raw);
                assert(result@ =~= method_and_type@.method.name + "("@ + spec_joined_type_raws(
                    cur,
                ));
            }
        }
        i += 1;
    }
    proof {
        assert(args_v.take(n as int) =~= args_v);
    }
    result.append(")");
    result
}

} // verus!
