//! The flag value resolver: given raw tokens and a set of flag descriptors,
//! find a flag occurrence by name or alias and coerce its value to the
//! declared type.
//!
//! Resolution is a pure read over the token slice: it consumes nothing and
//! may be repeated.  Every failure mode is a [`FlagErrorKind`], and the
//! checks happen in a fixed order: descriptor lookup (`Undefined`), declared
//! type against the accessor's type (`TypeError`), occurrence search
//! (`NotFound`), then value extraction (`ArgumentError`, `ValueTypeError`).

use vstd::prelude::*;
use crate::error::FlagError;
use crate::error::FlagErrorKind;
use crate::flag::Flag;
use crate::flag::FlagType;
use crate::flag::find_flag;
use crate::flag::inline_value;
use crate::flag::is_inline_form;
use crate::flag::lemma_find_flag;
use crate::numeric::int_literal;
use crate::numeric::parse_i64;
use crate::strutil::starts_dash;
use crate::strutil::str_eq;
use crate::strutil::is_dash_token;
use crate::strutil::is_inline_token;
use crate::strutil::inline_token_value;
use crate::strutil::make_long;
use crate::strutil::make_short;

verus! {

/// A flag value coerced to its declared type.
///
/// Floating-point values are handed out as their raw text, unparsed: the
/// numeric conversion is left to the caller, outside this library's verified
/// core.
#[derive(PartialEq, Clone, Debug)]
pub enum FlagValue {
    Bool(bool),
    Int(i64),
    Str(String),
    IntList(Vec<i64>),
    StrList(Vec<String>),
    FloatText(String),
    FloatTextList(Vec<String>),
}

/// The mathematical shadow of a [`FlagValue`], used by the contracts.
pub enum ValueModel {
    VBool(bool),
    VInt(int),
    VStr(Seq<char>),
    VIntList(Seq<int>),
    VStrList(Seq<Seq<char>>),
    VFloatText(Seq<char>),
    VFloatTextList(Seq<Seq<char>>),
}

impl FlagValue {
    /// The mathematical value this variant carries.
    pub open spec fn model(&self) -> ValueModel {
        match self {
            FlagValue::Bool(b) => ValueModel::VBool(*b),
            FlagValue::Int(n) => ValueModel::VInt(*n as int),
            FlagValue::Str(s) => ValueModel::VStr(s@),
            FlagValue::IntList(v) => ValueModel::VIntList(v@.map_values(|x: i64| x as int)),
            FlagValue::StrList(v) => ValueModel::VStrList(v.deep_view()),
            FlagValue::FloatText(s) => ValueModel::VFloatText(s@),
            FlagValue::FloatTextList(v) => ValueModel::VFloatTextList(v.deep_view()),
        }
    }
}

/// The model of a resolution result: the value's model, or the error kind.
pub open spec fn result_model(r: Result<FlagValue, FlagError>) -> Result<ValueModel, FlagErrorKind> {
    match r {
        Ok(v) => Ok(v.model()),
        Err(e) => Err(e.kind),
    }
}

/// The least token index at which the flag occurs, if any.
pub open spec fn first_hit(f: Flag, tokens: Seq<Seq<char>>) -> Option<int>
    decreases tokens.len(),
{
    if tokens.len() == 0 {
        None
    } else if f.token_hit(tokens[0]) {
        Some(0)
    } else {
        match first_hit(f, tokens.drop_first()) {
            Some(i) => Some(i + 1),
            None => None,
        }
    }
}

/// `first_hit` returns exactly the least index at which the flag occurs.
pub proof fn lemma_first_hit(f: Flag, tokens: Seq<Seq<char>>)
    ensures
        match first_hit(f, tokens) {
            Some(i) => {
                &&& 0 <= i < tokens.len()
                &&& f.token_hit(tokens[i])
                &&& forall|j: int| 0 <= j < i ==> !f.token_hit(tokens[j])
            },
            None => forall|j: int| 0 <= j < tokens.len() ==> !f.token_hit(tokens[j]),
        },
    decreases tokens.len(),
{
    if tokens.len() > 0 {
        lemma_first_hit(f, tokens.drop_first());
        assert forall|j: int| 1 <= j < tokens.len() implies tokens[j] == tokens.drop_first()[j
            - 1] by {
        }
    }
}

/// The number of contiguous tokens from `from` onward that do not begin with
/// `-`: the extent of a list flag's value run.
pub open spec fn list_run_len(tokens: Seq<Seq<char>>, from: int) -> int
    decreases tokens.len() - from,
{
    if from < 0 || from >= tokens.len() || starts_dash(tokens[from]) {
        0
    } else {
        1 + list_run_len(tokens, from + 1)
    }
}

/// `list_run_len` is the exact extent of the dash-free run at `from`.
pub proof fn lemma_list_run_len(tokens: Seq<Seq<char>>, from: int)
    requires
        0 <= from <= tokens.len(),
    ensures
        ({
            let k = list_run_len(tokens, from);
            &&& 0 <= k
            &&& from + k <= tokens.len()
            &&& forall|j: int| from <= j < from + k ==> !starts_dash(tokens[j])
            &&& (from + k == tokens.len() || starts_dash(tokens[from + k]))
        }),
    decreases tokens.len() - from,
{
    if from < tokens.len() && !starts_dash(tokens[from]) {
        lemma_list_run_len(tokens, from + 1);
    }
}

/// The value of one token parsed as an `i64` list element or single value.
pub open spec fn int_item(v: Seq<char>) -> Result<ValueModel, FlagErrorKind> {
    match int_literal(v) {
        Some(n) => if i64::MIN <= n <= i64::MAX {
            Ok(ValueModel::VInt(n))
        } else {
            Err(FlagErrorKind::ValueTypeError)
        },
        None => Err(FlagErrorKind::ValueTypeError),
    }
}

/// Whether every token of a run is an in-range `i64` literal.
pub open spec fn int_run_ok(vals: Seq<Seq<char>>) -> bool {
    forall|i: int| 0 <= i < vals.len() ==> int_item(vals[i]) is Ok
}

/// The values of a run of `i64` literals.
pub open spec fn int_run_vals(vals: Seq<Seq<char>>) -> Seq<int> {
    vals.map_values(|v: Seq<char>| int_literal(v).unwrap())
}

/// What value extraction yields for an occurrence of flag `f` at token index
/// `ti`, by the flag's declared type.
///
/// A bare occurrence of a value-taking flag reads the following token (for
/// the list types: the whole following dash-free run); the inline form
/// `--name=value` carries its value itself (for a list type, as a single
/// element).  A missing value token is an `ArgumentError`; a value that does
/// not parse as the declared numeric type is a `ValueTypeError`.
pub open spec fn spec_extract(f: Flag, tokens: Seq<Seq<char>>, ti: int) -> Result<
    ValueModel,
    FlagErrorKind,
> {
    let inline = !f.bare_hit(tokens[ti]) && is_inline_form(tokens[ti], f.name@);
    let iv = inline_value(tokens[ti], f.name@);
    let run = tokens.subrange(ti + 1, ti + 1 + list_run_len(tokens, ti + 1));
    match f.flag_type {
        FlagType::Bool => Ok(ValueModel::VBool(true)),
        FlagType::Int => if inline {
            int_item(iv)
        } else if ti + 1 < tokens.len() {
            int_item(tokens[ti + 1])
        } else {
            Err(FlagErrorKind::ArgumentError)
        },
        FlagType::Float => if inline {
            Ok(ValueModel::VFloatText(iv))
        } else if ti + 1 < tokens.len() {
            Ok(ValueModel::VFloatText(tokens[ti + 1]))
        } else {
            Err(FlagErrorKind::ArgumentError)
        },
        FlagType::String => if inline {
            Ok(ValueModel::VStr(iv))
        } else if ti + 1 < tokens.len() {
            Ok(ValueModel::VStr(tokens[ti + 1]))
        } else {
            Err(FlagErrorKind::ArgumentError)
        },
        FlagType::IntList => if inline {
            match int_item(iv) {
                Ok(m) => Ok(ValueModel::VIntList(seq![int_literal(iv).unwrap()])),
                Err(k) => Err(k),
            }
        } else if int_run_ok(run) {
            Ok(ValueModel::VIntList(int_run_vals(run)))
        } else {
            Err(FlagErrorKind::ValueTypeError)
        },
        FlagType::FloatList => if inline {
            Ok(ValueModel::VFloatTextList(seq![iv]))
        } else {
            Ok(ValueModel::VFloatTextList(run))
        },
        FlagType::StringList => if inline {
            Ok(ValueModel::VStrList(seq![iv]))
        } else {
            Ok(ValueModel::VStrList(run))
        },
    }
}

/// What resolution yields: descriptor lookup first (`Undefined` when the
/// identifier names no descriptor), then the type check against the accessor
/// (`TypeError`), then the occurrence search (`NotFound`), then extraction.
pub open spec fn spec_resolve(
    id: Seq<char>,
    tokens: Seq<Seq<char>>,
    flags: Seq<Flag>,
    expected: FlagType,
) -> Result<ValueModel, FlagErrorKind> {
    match find_flag(flags, id) {
        None => Err(FlagErrorKind::Undefined),
        Some(fi) => {
            let f = flags[fi];
            if f.flag_type != expected {
                Err(FlagErrorKind::TypeError)
            } else {
                match first_hit(f, tokens) {
                    None => Err(FlagErrorKind::NotFound),
                    Some(ti) => spec_extract(f, tokens, ti),
                }
            }
        },
    }
}

/// Whether the queried identifier equals this flag's name or one of its
/// aliases.
#[verifier::loop_isolation(false)]
pub fn flag_ident_hit(f: &Flag, id: &str) -> (r: bool)
    ensures
        r == f.ident_hit(id@),
{
    if str_eq(f.name.as_str(), id) {
        return true;
    }
    let mut i: usize = 0;
    while i < f.aliases.len()
        invariant
            i <= f.aliases@.len(),
            forall|j: int| 0 <= j < i ==> f.aliases@[j]@ != id@,
        decreases f.aliases@.len() - i,
    {
        if str_eq(f.aliases[i].as_str(), id) {
            return true;
        }
        i += 1;
    }
    false
}

/// Whether a token is a bare occurrence of this flag.
#[verifier::loop_isolation(false)]
pub fn flag_bare_hit(f: &Flag, t: &str) -> (r: bool)
    ensures
        r == f.bare_hit(t@),
{
    let long = make_long(f.name.as_str());
    if str_eq(t, long.as_str()) {
        return true;
    }
    let mut i: usize = 0;
    while i < f.aliases.len()
        invariant
            i <= f.aliases@.len(),
            forall|j: int| 0 <= j < i ==> t@ != crate::flag::short_form(f.aliases@[j]@),
        decreases f.aliases@.len() - i,
    {
        let short = make_short(f.aliases[i].as_str());
        if str_eq(t, short.as_str()) {
            return true;
        }
        i += 1;
    }
    false
}

/// Whether a token is any occurrence of this flag.
pub fn flag_token_hit(f: &Flag, t: &str) -> (r: bool)
    ensures
        r == f.token_hit(t@),
{
    if flag_bare_hit(f, t) {
        true
    } else {
        is_inline_token(t, f.name.as_str())
    }
}

/// The least descriptor index the identifier selects, as `find_flag` gives
/// it.
#[verifier::loop_isolation(false)]
pub fn find_flag_idx(flags: &Vec<Flag>, id: &str) -> (r: Option<usize>)
    ensures
        match r {
            Some(i) => find_flag(flags@, id@) == Some(i as int),
            None => find_flag(flags@, id@) is None,
        },
{
    proof {
        lemma_find_flag(flags@, id@);
    }
    let mut i: usize = 0;
    while i < flags.len()
        invariant
            i <= flags@.len(),
            forall|j: int| 0 <= j < i ==> !flags@[j].ident_hit(id@),
        decreases flags@.len() - i,
    {
        if flag_ident_hit(&flags[i], id) {
            return Some(i);
        }
        i += 1;
    }
    None
}

/// The least token index at which the flag occurs, as `first_hit` gives it.
#[verifier::loop_isolation(false)]
pub fn first_hit_idx(f: &Flag, tokens: &Vec<String>) -> (r: Option<usize>)
    ensures
        match r {
            Some(i) => first_hit(*f, tokens.deep_view()) == Some(i as int),
            None => first_hit(*f, tokens.deep_view()) is None,
        },
{
    proof {
        lemma_first_hit(*f, tokens.deep_view());
    }
    let mut i: usize = 0;
    while i < tokens.len()
        invariant
            i <= tokens@.len(),
            forall|j: int| 0 <= j < i ==> !f.token_hit(tokens.deep_view()[j]),
        decreases tokens@.len() - i,
    {
        proof {
            assert(tokens.deep_view()[i as int] == tokens@[i as int]@);
        }
        if flag_token_hit(f, tokens[i].as_str()) {
            return Some(i);
        }
        i += 1;
    }
    None
}

/// The dash-free run of tokens starting at `from`, cloned out.
#[verifier::loop_isolation(false)]
pub fn collect_run(tokens: &Vec<String>, from: usize) -> (r: Vec<String>)
    requires
        from <= tokens@.len(),
    ensures
        r.deep_view() == tokens.deep_view().subrange(
            from as int,
            from + list_run_len(tokens.deep_view(), from as int),
        ),
{
    proof {
        lemma_list_run_len(tokens.deep_view(), from as int);
    }
    let mut r: Vec<String> = Vec::new();
    let mut i: usize = from;
    while i < tokens.len() && !is_dash_token(tokens[i].as_str())
        invariant
            from <= i <= tokens@.len(),
            r@.len() == i - from,
            forall|j: int| from <= j < i ==> !starts_dash(tokens.deep_view()[j]),
            forall|j: int| 0 <= j < r@.len() ==> r@[j]@ == tokens.deep_view()[from + j],
        decreases tokens@.len() - i,
    {
        proof {
            assert(tokens.deep_view()[i as int] == tokens@[i as int]@);
        }
        r.push(tokens[i].clone());
        i += 1;
        proof {
            assert(r@[i - from - 1]@ == tokens.deep_view()[i - 1]);
        }
    }
    proof {
        lemma_list_run_len_exact(tokens.deep_view(), from as int, i - from);
        assert forall|j: int| 0 <= j < r@.len() implies r.deep_view()[j] == tokens.deep_view()[from + j] by {
            assert(r.deep_view()[j] == r@[j]@);
        }
        assert(r.deep_view() =~= tokens.deep_view().subrange(
            from as int,
            from + list_run_len(tokens.deep_view(), from as int),
        ));
    }
    r
}

/// A dash-free run followed by a dash or the end has exactly its length as
/// `list_run_len`.
pub proof fn lemma_list_run_len_exact(tokens: Seq<Seq<char>>, from: int, k: int)
    requires
        0 <= from,
        0 <= k,
        from + k <= tokens.len(),
        forall|j: int| from <= j < from + k ==> !starts_dash(tokens[j]),
        from + k == tokens.len() || starts_dash(tokens[from + k]),
    ensures
        list_run_len(tokens, from) == k,
    decreases k,
{
    if k > 0 {
        lemma_list_run_len_exact(tokens, from + 1, k - 1);
    }
}

/// One token parsed as an `i64`, with a parse failure reported as a
/// `ValueTypeError`.
pub fn parse_int_item(v: &str) -> (r: Result<i64, FlagError>)
    ensures
        match r {
            Ok(n) => int_item(v@) == Ok::<ValueModel, FlagErrorKind>(ValueModel::VInt(n as int)),
            Err(e) => int_item(v@) == Err::<ValueModel, FlagErrorKind>(e.kind),
        },
{
    match parse_i64(v) {
        Some(n) => Ok(n),
        None => Err(FlagError { kind: FlagErrorKind::ValueTypeError }),
    }
}

/// A whole run of tokens parsed as `i64` values; any element failure is a
/// `ValueTypeError`.
#[verifier::loop_isolation(false)]
pub fn parse_int_run(vals: &Vec<String>) -> (r: Result<Vec<i64>, FlagError>)
    ensures
        match r {
            Ok(v) => int_run_ok(vals.deep_view()) && v@.map_values(|x: i64| x as int)
                == int_run_vals(vals.deep_view()),
            Err(e) => !int_run_ok(vals.deep_view()) && e.kind == FlagErrorKind::ValueTypeError,
        },
{
    let mut out: Vec<i64> = Vec::new();
    let mut i: usize = 0;
    while i < vals.len()
        invariant
            i <= vals@.len(),
            out@.len() == i,
            forall|j: int| 0 <= j < i ==> int_item(vals.deep_view()[j]) is Ok,
            forall|j: int|
                0 <= j < i ==> out@.map_values(|x: i64| x as int)[j] == int_literal(
                    vals.deep_view()[j],
                ).unwrap(),
        decreases vals@.len() - i,
    {
        proof {
            assert(vals.deep_view()[i as int] == vals@[i as int]@);
        }
        match parse_int_item(vals[i].as_str()) {
            Ok(n) => {
                out.push(n);
            },
            Err(e) => {
                proof {
                    assert(vals.deep_view()[i as int] == vals@[i as int]@);
                    assert(!(int_item(vals.deep_view()[i as int]) is Ok));
                }
                return Err(e);
            },
        }
        i += 1;
    }
    proof {
        assert(out@.map_values(|x: i64| x as int) =~= int_run_vals(vals.deep_view()));
    }
    Ok(out)
}

/// Extract the value of the flag occurrence at token index `ti`, by the
/// flag's declared type.
pub fn extract(f: &Flag, tokens: &Vec<String>, ti: usize) -> (r: Result<FlagValue, FlagError>)
    requires
        ti < tokens@.len(),
    ensures
        result_model(r) == spec_extract(*f, tokens.deep_view(), ti as int),
{
    let count = tokens.len();
    let tok = &tokens[ti];
    let bare = flag_bare_hit(f, tok.as_str());
    let inline = if bare {
        false
    } else {
        is_inline_token(tok.as_str(), f.name.as_str())
    };
    proof {
        assert(tokens.deep_view()[ti as int] == tok@);
    }
    match f.flag_type {
        FlagType::Bool => Ok(FlagValue::Bool(true)),
        FlagType::Int => {
            if inline {
                let iv = inline_token_value(tok.as_str(), f.name.as_str());
                match parse_int_item(iv.as_str()) {
                    Ok(n) => Ok(FlagValue::Int(n)),
                    Err(e) => Err(e),
                }
            } else if ti + 1 < count {
                match parse_int_item(tokens[ti + 1].as_str()) {
                    Ok(n) => Ok(FlagValue::Int(n)),
                    Err(e) => Err(e),
                }
            } else {
                Err(FlagError { kind: FlagErrorKind::ArgumentError })
            }
        },
        FlagType::Float => {
            if inline {
                Ok(FlagValue::FloatText(inline_token_value(tok.as_str(), f.name.as_str())))
            } else if ti + 1 < count {
                Ok(FlagValue::FloatText(tokens[ti + 1].clone()))
            } else {
                Err(FlagError { kind: FlagErrorKind::ArgumentError })
            }
        },
        FlagType::String => {
            if inline {
                Ok(FlagValue::Str(inline_token_value(tok.as_str(), f.name.as_str())))
            } else if ti + 1 < count {
                Ok(FlagValue::Str(tokens[ti + 1].clone()))
            } else {
                Err(FlagError { kind: FlagErrorKind::ArgumentError })
            }
        },
        FlagType::IntList => {
            if inline {
                let iv = inline_token_value(tok.as_str(), f.name.as_str());
                match parse_int_item(iv.as_str()) {
                    Ok(n) => {
                        let mut one: Vec<i64> = Vec::new();
                        one.push(n);
                        proof {
                            assert(one@.map_values(|x: i64| x as int) =~= seq![
                                int_literal(
                                    inline_value(tokens.deep_view()[ti as int], f.name@),
                                ).unwrap(),
                            ]);
                        }
                        Ok(FlagValue::IntList(one))
                    },
                    Err(e) => Err(e),
                }
            } else {
                let run = collect_run(tokens, ti + 1);
                match parse_int_run(&run) {
                    Ok(v) => Ok(FlagValue::IntList(v)),
                    Err(e) => Err(e),
                }
            }
        },
        FlagType::FloatList => {
            if inline {
                let iv = inline_token_value(tok.as_str(), f.name.as_str());
                let mut one: Vec<String> = Vec::new();
                one.push(iv);
                proof {
                    assert(one.deep_view() =~= seq![
                        inline_value(tokens.deep_view()[ti as int], f.name@),
                    ]);
                }
                Ok(FlagValue::FloatTextList(one))
            } else {
                Ok(FlagValue::FloatTextList(collect_run(tokens, ti + 1)))
            }
        },
        FlagType::StringList => {
            if inline {
                let iv = inline_token_value(tok.as_str(), f.name.as_str());
                let mut one: Vec<String> = Vec::new();
                one.push(iv);
                proof {
                    assert(one.deep_view() =~= seq![
                        inline_value(tokens.deep_view()[ti as int], f.name@),
                    ]);
                }
                Ok(FlagValue::StrList(one))
            } else {
                Ok(FlagValue::StrList(collect_run(tokens, ti + 1)))
            }
        },
    }
}

/// Whether a value model has the shape the given flag type declares.
pub open spec fn model_fits(m: ValueModel, t: FlagType) -> bool {
    match t {
        FlagType::Bool => m is VBool,
        FlagType::Int => m is VInt,
        FlagType::Float => m is VFloatText,
        FlagType::String => m is VStr,
        FlagType::IntList => m is VIntList,
        FlagType::FloatList => m is VFloatTextList,
        FlagType::StringList => m is VStrList,
    }
}

/// Resolution never coerces across types: a successful query yields a value
/// of exactly the shape the accessor's type declares, for every identifier,
/// token slice and descriptor set.
pub proof fn lemma_resolve_well_typed(
    id: Seq<char>,
    tokens: Seq<Seq<char>>,
    flags: Seq<Flag>,
    expected: FlagType,
)
    ensures
        spec_resolve(id, tokens, flags, expected) matches Ok(m) ==> model_fits(m, expected),
{
}

/// Resolve one flag query: find the descriptor the identifier selects, check
/// its declared type against the accessor's, find the first occurrence in
/// the tokens, and extract the value.
///
/// The result is a pure function of the arguments, so repeated calls with
/// the same arguments return the same result.
pub fn resolve(id: &str, tokens: &Vec<String>, flags: &Vec<Flag>, expected: FlagType) -> (r:
    Result<FlagValue, FlagError>)
    ensures
        result_model(r) == spec_resolve(id@, tokens.deep_view(), flags@, expected),
{
    let fi = match find_flag_idx(flags, id) {
        Some(fi) => fi,
        None => {
            return Err(FlagError { kind: FlagErrorKind::Undefined });
        },
    };
    proof {
        lemma_find_flag(flags@, id@);
    }
    let f = &flags[fi];
    if f.flag_type != expected {
        return Err(FlagError { kind: FlagErrorKind::TypeError });
    }
    let ti = match first_hit_idx(f, tokens) {
        Some(ti) => ti,
        None => {
            return Err(FlagError { kind: FlagErrorKind::NotFound });
        },
    };
    proof {
        lemma_first_hit(*f, tokens.deep_view());
    }
    extract(f, tokens, ti)
}

} // verus!
