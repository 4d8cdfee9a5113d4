//! The runtime snapshot handed to an action: the positional arguments left
//! after flag occurrences are set aside, the active flag descriptor set, and
//! the raw token slice that flag queries resolve against.
//!
//! Flag values are resolved lazily: each accessor re-reads the bound tokens,
//! so queries are independent and repeatable.

use vstd::prelude::*;
use crate::error::FlagError;
use crate::error::FlagErrorKind;
use crate::flag::Flag;
use crate::flag::FlagType;
use crate::resolver::FlagValue;
use crate::resolver::ValueModel;
use crate::resolver::lemma_list_run_len;
use crate::resolver::lemma_resolve_well_typed;
use crate::resolver::list_run_len;
use crate::resolver::resolve;
use crate::resolver::spec_resolve;
use crate::resolver::flag_bare_hit;
use crate::resolver::flag_token_hit;
use crate::strutil::is_dash_token;
use crate::strutil::starts_dash;

verus! {

/// The least descriptor index whose flag the token is an occurrence of, if
/// any.
pub open spec fn first_flag_hit(flags: Seq<Flag>, t: Seq<char>) -> Option<int>
    decreases flags.len(),
{
    if flags.len() == 0 {
        None
    } else if flags[0].token_hit(t) {
        Some(0)
    } else {
        match first_flag_hit(flags.drop_first(), t) {
            Some(i) => Some(i + 1),
            None => None,
        }
    }
}

/// `first_flag_hit` returns exactly the least matching descriptor index.
pub proof fn lemma_first_flag_hit(flags: Seq<Flag>, t: Seq<char>)
    ensures
        match first_flag_hit(flags, t) {
            Some(i) => {
                &&& 0 <= i < flags.len()
                &&& flags[i].token_hit(t)
                &&& forall|j: int| 0 <= j < i ==> !flags[j].token_hit(t)
            },
            None => forall|j: int| 0 <= j < flags.len() ==> !flags[j].token_hit(t),
        },
    decreases flags.len(),
{
    if flags.len() > 0 {
        lemma_first_flag_hit(flags.drop_first(), t);
        assert forall|j: int| 1 <= j < flags.len() implies flags[j] == flags.drop_first()[j
            - 1] by {
        }
    }
}

/// How many tokens after a bare flag occurrence belong to the flag as its
/// value: none for a boolean or an inline occurrence, the next token for the
/// single-value types, the whole dash-free run for the list types.
pub open spec fn consumed_len(f: Flag, t: Seq<char>, rest: Seq<Seq<char>>) -> int {
    if !f.bare_hit(t) {
        0
    } else {
        match f.flag_type {
            FlagType::Bool => 0,
            FlagType::Int | FlagType::Float | FlagType::String => if rest.len() > 0 {
                1
            } else {
                0
            },
            FlagType::IntList | FlagType::FloatList | FlagType::StringList => list_run_len(
                rest,
                0,
            ),
        }
    }
}

/// The positional arguments of a token slice: the tokens left once every
/// recognized flag occurrence, together with the value tokens its type
/// consumes, is set aside.  Tokens that no declared flag matches stay, in
/// order.
pub open spec fn spec_strip(tokens: Seq<Seq<char>>, flags: Seq<Flag>) -> Seq<Seq<char>>
    decreases tokens.len(),
    via spec_strip_decreases
{
    if tokens.len() == 0 {
        Seq::empty()
    } else {
        match first_flag_hit(flags, tokens[0]) {
            None => seq![tokens[0]] + spec_strip(tokens.drop_first(), flags),
            Some(fi) => {
                let k = consumed_len(flags[fi], tokens[0], tokens.drop_first());
                spec_strip(tokens.drop_first().skip(k), flags)
            },
        }
    }
}

#[via_fn]
proof fn spec_strip_decreases(tokens: Seq<Seq<char>>, flags: Seq<Flag>) {
    if tokens.len() > 0 {
        match first_flag_hit(flags, tokens[0]) {
            Some(fi) => {
                lemma_list_run_len(tokens.drop_first(), 0);
            },
            None => {},
        }
    }
}

/// The read-only view an action receives: positional arguments, the active
/// flag descriptor set, and the raw tokens flag queries resolve against.
pub struct Context {
    /// The positional arguments: the bound tokens with every recognized flag
    /// occurrence and its value tokens set aside.
    pub args: Vec<String>,
    /// The flag descriptors of the dispatched command.
    pub flags: Vec<Flag>,
    /// The raw tokens of the dispatch level, flags included: the slice every
    /// flag query reads.
    pub tokens: Vec<String>,
}

/// Compute the positional arguments of a token slice under a descriptor set.
#[verifier::loop_isolation(false)]
fn strip_flags(tokens: &Vec<String>, flags: &Vec<Flag>) -> (r: Vec<String>)
    ensures
        r.deep_view() == spec_strip(tokens.deep_view(), flags@),
{
    let ghost all: Seq<Seq<char>> = tokens.deep_view();
    let mut out: Vec<String> = Vec::new();
    let mut i: usize = 0;
    proof {
        assert(all.skip(0) =~= all);
        assert(out.deep_view() + spec_strip(all, flags@) =~= spec_strip(all, flags@));
    }
    while i < tokens.len()
        invariant
            i <= tokens@.len(),
            all == tokens.deep_view(),
            spec_strip(all, flags@) == out.deep_view() + spec_strip(all.skip(i as int), flags@),
        decreases tokens@.len() - i,
    {
        proof {
            assert(all.skip(i as int)[0] == all[i as int]);
            assert(all[i as int] == tokens@[i as int]@);
            lemma_first_flag_hit(flags@, all[i as int]);
        }
        let ghost prev: int = i as int;
        let hit = first_flag_hit_idx(flags, &tokens[i]);
        match hit {
            None => {
                out.push(tokens[i].clone());
                i += 1;
                proof {
                    assert(all.skip(prev).drop_first() =~= all.skip(i as int));
                    assert(out.deep_view() =~= out.deep_view().subrange(
                        0,
                        out.deep_view().len() - 1,
                    ) + seq![all[prev]]);
                    assert(out.deep_view().subrange(0, out.deep_view().len() - 1) + (seq![
                        all[prev],
                    ] + spec_strip(all.skip(i as int), flags@)) =~= (out.deep_view().subrange(
                        0,
                        out.deep_view().len() - 1,
                    ) + seq![all[prev]]) + spec_strip(all.skip(i as int), flags@));
                }
            },
            Some(fi) => {
                let f = &flags[fi];
                let bare = flag_bare_hit(f, tokens[i].as_str());
                let ghost k: int = consumed_len(flags@[fi as int], all[prev], all.skip(prev).drop_first());
                i += 1;
                proof {
                    assert(all.skip(prev).drop_first() =~= all.skip(i as int));
                }
                if bare {
                    match f.flag_type {
                        FlagType::Bool => {
                            proof {
                                assert(k == 0);
                                assert(all.skip(prev).drop_first().skip(0) =~= all.skip(
                                    i as int,
                                ));
                            }
                        },
                        FlagType::Int | FlagType::Float | FlagType::String => {
                            if i < tokens.len() {
                                i += 1;
                            }
                            proof {
                                assert(all.skip(prev).drop_first().skip(k) =~= all.skip(i as int));
                            }
                        },
                        FlagType::IntList | FlagType::FloatList | FlagType::StringList => {
                            let ghost run_from: int = i as int;
                            while i < tokens.len() && !is_dash_token(tokens[i].as_str())
                                invariant
                                    run_from <= i <= tokens@.len(),
                                    all == tokens.deep_view(),
                                    forall|j: int|
                                        run_from <= j < i ==> !starts_dash(all[j]),
                                decreases tokens@.len() - i,
                            {
                                proof {
                                    assert(all[i as int] == tokens@[i as int]@);
                                }
                                i += 1;
                            }
                            proof {
                                let rest = all.skip(run_from);
                                assert(rest.len() == all.len() - run_from);
                                assert forall|j: int| 0 <= j < i - run_from implies !starts_dash(
                                    rest[j],
                                ) by {
                                    assert(rest[j] == all[run_from + j]);
                                }
                                if i - run_from < rest.len() {
                                    assert(all[i as int] == tokens@[i as int]@);
                                    assert(rest[i - run_from] == all[i as int]);
                                }
                                crate::resolver::lemma_list_run_len_exact(
                                    rest,
                                    0,
                                    i - run_from,
                                );
                                assert(k == i - run_from);
                                assert(rest.skip(k) =~= all.skip(i as int));
                            }
                        },
                    }
                } else {
                    proof {
                        assert(k == 0);
                        assert(all.skip(prev).drop_first().skip(0) =~= all.skip(i as int));
                    }
                }
                proof {
                    assert(spec_strip(all.skip(prev), flags@) == spec_strip(
                        all.skip(i as int),
                        flags@,
                    ));
                }
            },
        }
    }
    proof {
        assert(all.skip(i as int) =~= Seq::<Seq<char>>::empty());
        assert(out.deep_view() + spec_strip(all.skip(i as int), flags@) =~= out.deep_view());
    }
    out
}

/// The least descriptor index whose flag the token is an occurrence of, as
/// `first_flag_hit` gives it.
#[verifier::loop_isolation(false)]
fn first_flag_hit_idx(flags: &Vec<Flag>, t: &String) -> (r: Option<usize>)
    ensures
        match r {
            Some(i) => first_flag_hit(flags@, t@) == Some(i as int),
            None => first_flag_hit(flags@, t@) is None,
        },
{
    proof {
        lemma_first_flag_hit(flags@, t@);
    }
    let mut i: usize = 0;
    while i < flags.len()
        invariant
            i <= flags@.len(),
            forall|j: int| 0 <= j < i ==> !flags@[j].token_hit(t@),
        decreases flags@.len() - i,
    {
        if flag_token_hit(&flags[i], t.as_str()) {
            return Some(i);
        }
        i += 1;
    }
    None
}

impl Context {
    /// A fresh context binding the given raw tokens and descriptor set; the
    /// positional arguments are computed from them.
    pub fn new(tokens: Vec<String>, flags: Vec<Flag>) -> (r: Context)
        ensures
            r.tokens == tokens,
            r.flags == flags,
            r.args.deep_view() == spec_strip(tokens.deep_view(), flags@),
    {
        let args = strip_flags(&tokens, &flags);
        Context { args, flags, tokens }
    }

    /// Whether the named boolean flag is present: true exactly when the
    /// identifier names a boolean descriptor with an occurrence in the bound
    /// tokens; false on every resolution failure.
    pub fn bool_flag(&self, name: &str) -> (r: bool)
        ensures
            r == (spec_resolve(name@, self.tokens.deep_view(), self.flags@, FlagType::Bool)
                == Ok::<ValueModel, FlagErrorKind>(ValueModel::VBool(true))),
    {
        match resolve(name, &self.tokens, &self.flags, FlagType::Bool) {
            Ok(FlagValue::Bool(b)) => b,
            _ => false,
        }
    }

    /// The named integer flag's value, or exactly the error the resolver
    /// reports.
    pub fn int_flag(&self, name: &str) -> (r: Result<i64, FlagError>)
        ensures
            ({
                let m = spec_resolve(name@, self.tokens.deep_view(), self.flags@, FlagType::Int);
                match r {
                    Ok(n) => m == Ok::<ValueModel, FlagErrorKind>(ValueModel::VInt(n as int)),
                    Err(e) => m == Err::<ValueModel, FlagErrorKind>(e.kind),
                }
            }),
    {
        proof {
            lemma_resolve_well_typed(name@, self.tokens.deep_view(), self.flags@, FlagType::Int);
        }
        match resolve(name, &self.tokens, &self.flags, FlagType::Int) {
            Ok(v) => match v {
                FlagValue::Int(n) => Ok(n),
                _ => {
                    proof {
                        assert(false);
                    }
                    Err(FlagError { kind: FlagErrorKind::TypeError })
                },
            },
            Err(e) => Err(e),
        }
    }

    /// The named string flag's value, or exactly the error the resolver
    /// reports.
    pub fn string_flag(&self, name: &str) -> (r: Result<String, FlagError>)
        ensures
            ({
                let m = spec_resolve(
                    name@,
                    self.tokens.deep_view(),
                    self.flags@,
                    FlagType::String,
                );
                match r {
                    Ok(s) => m == Ok::<ValueModel, FlagErrorKind>(ValueModel::VStr(s@)),
                    Err(e) => m == Err::<ValueModel, FlagErrorKind>(e.kind),
                }
            }),
    {
        proof {
            lemma_resolve_well_typed(
                name@,
                self.tokens.deep_view(),
                self.flags@,
                FlagType::String,
            );
        }
        match resolve(name, &self.tokens, &self.flags, FlagType::String) {
            Ok(v) => match v {
                FlagValue::Str(s) => Ok(s),
                _ => {
                    proof {
                        assert(false);
                    }
                    Err(FlagError { kind: FlagErrorKind::TypeError })
                },
            },
            Err(e) => Err(e),
        }
    }

    /// The named integer-list flag's values, or exactly the error the
    /// resolver reports.
    pub fn int_list_flag(&self, name: &str) -> (r: Result<Vec<i64>, FlagError>)
        ensures
            ({
                let m = spec_resolve(
                    name@,
                    self.tokens.deep_view(),
                    self.flags@,
                    FlagType::IntList,
                );
                match r {
                    Ok(v) => m == Ok::<ValueModel, FlagErrorKind>(
                        ValueModel::VIntList(v@.map_values(|x: i64| x as int)),
                    ),
                    Err(e) => m == Err::<ValueModel, FlagErrorKind>(e.kind),
                }
            }),
    {
        proof {
            lemma_resolve_well_typed(
                name@,
                self.tokens.deep_view(),
                self.flags@,
                FlagType::IntList,
            );
        }
        match resolve(name, &self.tokens, &self.flags, FlagType::IntList) {
            Ok(v) => match v {
                FlagValue::IntList(v) => Ok(v),
                _ => {
                    proof {
                        assert(false);
                    }
                    Err(FlagError { kind: FlagErrorKind::TypeError })
                },
            },
            Err(e) => Err(e),
        }
    }

    /// The named string-list flag's values, or exactly the error the
    /// resolver reports.
    pub fn string_list_flag(&self, name: &str) -> (r: Result<Vec<String>, FlagError>)
        ensures
            ({
                let m = spec_resolve(
                    name@,
                    self.tokens.deep_view(),
                    self.flags@,
                    FlagType::StringList,
                );
                match r {
                    Ok(v) => m == Ok::<ValueModel, FlagErrorKind>(ValueModel::VStrList(v.deep_view())),
                    Err(e) => m == Err::<ValueModel, FlagErrorKind>(e.kind),
                }
            }),
    {
        proof {
            lemma_resolve_well_typed(
                name@,
                self.tokens.deep_view(),
                self.flags@,
                FlagType::StringList,
            );
        }
        match resolve(name, &self.tokens, &self.flags, FlagType::StringList) {
            Ok(v) => match v {
                FlagValue::StrList(v) => Ok(v),
                _ => {
                    proof {
                        assert(false);
                    }
                    Err(FlagError { kind: FlagErrorKind::TypeError })
                },
            },
            Err(e) => Err(e),
        }
    }

    /// The named float flag's value as its raw text, or exactly the error
    /// the resolver reports.  Numeric conversion of the text is left to the
    /// caller, outside this library's verified core.
    pub fn float_flag_text(&self, name: &str) -> (r: Result<String, FlagError>)
        ensures
            ({
                let m = spec_resolve(
                    name@,
                    self.tokens.deep_view(),
                    self.flags@,
                    FlagType::Float,
                );
                match r {
                    Ok(s) => m == Ok::<ValueModel, FlagErrorKind>(ValueModel::VFloatText(s@)),
                    Err(e) => m == Err::<ValueModel, FlagErrorKind>(e.kind),
                }
            }),
    {
        proof {
            lemma_resolve_well_typed(name@, self.tokens.deep_view(), self.flags@, FlagType::Float);
        }
        match resolve(name, &self.tokens, &self.flags, FlagType::Float) {
            Ok(v) => match v {
                FlagValue::FloatText(s) => Ok(s),
                _ => {
                    proof {
                        assert(false);
                    }
                    Err(FlagError { kind: FlagErrorKind::TypeError })
                },
            },
            Err(e) => Err(e),
        }
    }

    /// The named float-list flag's values as their raw texts, or exactly the
    /// error the resolver reports.  Numeric conversion of the texts is left
    /// to the caller, outside this library's verified core.
    pub fn float_list_flag_text(&self, name: &str) -> (r: Result<Vec<String>, FlagError>)
        ensures
            ({
                let m = spec_resolve(
                    name@,
                    self.tokens.deep_view(),
                    self.flags@,
                    FlagType::FloatList,
                );
                match r {
                    Ok(v) => m == Ok::<ValueModel, FlagErrorKind>(
                        ValueModel::VFloatTextList(v.deep_view()),
                    ),
                    Err(e) => m == Err::<ValueModel, FlagErrorKind>(e.kind),
                }
            }),
    {
        proof {
            lemma_resolve_well_typed(
                name@,
                self.tokens.deep_view(),
                self.flags@,
                FlagType::FloatList,
            );
        }
        match resolve(name, &self.tokens, &self.flags, FlagType::FloatList) {
            Ok(v) => match v {
                FlagValue::FloatTextList(v) => Ok(v),
                _ => {
                    proof {
                        assert(false);
                    }
                    Err(FlagError { kind: FlagErrorKind::TypeError })
                },
            },
            Err(e) => Err(e),
        }
    }
}

} // verus!
