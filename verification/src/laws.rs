//! The engine's general laws, stated over the same spec-level semantics the
//! executable functions are proved against.

use vstd::prelude::*;
use crate::app::rest_tokens;
use crate::app::spec_dispatch;
use crate::command::Command;
use crate::command::first_match;
use crate::error::FlagError;
use crate::flag::Flag;
use crate::flag::FlagType;
use crate::resolver::FlagValue;
use crate::resolver::result_model;
use crate::resolver::spec_resolve;

verus! {

/// One command matches the same tokens whatever the declaration order of its
/// aliases: matching depends only on the name and the set of aliases.
pub proof fn lemma_matches_alias_order<Act>(c1: Command<Act>, c2: Command<Act>, t: Seq<char>)
    requires
        c1.name@ == c2.name@,
        c1.aliases@.map_values(|a: String| a@).to_multiset() == c2.aliases@.map_values(
            |a: String| a@,
        ).to_multiset(),
    ensures
        c1.matches_token(t) == c2.matches_token(t),
{
    let m1 = c1.aliases@.map_values(|a: String| a@);
    let m2 = c2.aliases@.map_values(|a: String| a@);
    m1.to_multiset_ensures();
    m2.to_multiset_ensures();
    if exists|i: int| 0 <= i < c1.aliases@.len() && c1.aliases@[i]@ == t {
        let i = choose|i: int| 0 <= i < c1.aliases@.len() && c1.aliases@[i]@ == t;
        assert(m1[i] == t);
        assert(m1.contains(t));
        assert(m1.to_multiset().count(t) > 0);
        assert(m2.to_multiset().count(t) > 0);
        assert(m2.contains(t));
        let j = choose|j: int| 0 <= j < m2.len() && m2[j] == t;
        assert(c2.aliases@[j]@ == t);
    }
    if exists|i: int| 0 <= i < c2.aliases@.len() && c2.aliases@[i]@ == t {
        let i = choose|i: int| 0 <= i < c2.aliases@.len() && c2.aliases@[i]@ == t;
        assert(m2[i] == t);
        assert(m2.contains(t));
        assert(m2.to_multiset().count(t) > 0);
        assert(m1.to_multiset().count(t) > 0);
        assert(m1.contains(t));
        let j = choose|j: int| 0 <= j < m1.len() && m1[j] == t;
        assert(c1.aliases@[j]@ == t);
    }
}

/// Which candidate a token selects never depends on the declaration order of
/// any candidate's aliases: for two candidate sequences that agree pointwise
/// on names and on alias sets, the selected index is the same, and ties are
/// still broken by candidate declaration order.
pub proof fn lemma_match_command_alias_order<Act>(
    cs1: Seq<Command<Act>>,
    cs2: Seq<Command<Act>>,
    t: Seq<char>,
)
    requires
        cs1.len() == cs2.len(),
        forall|i: int| 0 <= i < cs1.len() ==> (#[trigger] cs1[i]).name@ == cs2[i].name@,
        forall|i: int|
            0 <= i < cs1.len() ==> (#[trigger] cs1[i]).aliases@.map_values(
                |a: String| a@,
            ).to_multiset() == cs2[i].aliases@.map_values(|a: String| a@).to_multiset(),
    ensures
        first_match(t, cs1) == first_match(t, cs2),
    decreases cs1.len(),
{
    if cs1.len() > 0 {
        lemma_matches_alias_order(cs1[0], cs2[0], t);
        assert forall|i: int| 0 <= i < cs1.drop_first().len() implies (#[trigger] cs1.drop_first()[
            i
        ]).name@ == cs2.drop_first()[i].name@ && cs1.drop_first()[i].aliases@.map_values(
            |a: String| a@,
        ).to_multiset() == cs2.drop_first()[i].aliases@.map_values(|a: String| a@).to_multiset() by {
            assert(cs1.drop_first()[i] == cs1[i + 1]);
            assert(cs2.drop_first()[i] == cs2[i + 1]);
        }
        lemma_match_command_alias_order(cs1.drop_first(), cs2.drop_first(), t);
    }
}

/// Resolution is idempotent: it holds no hidden state, so two calls of
/// `resolve` with the same identifier, tokens, descriptors and accessor type
/// return results with the same value.
pub proof fn lemma_resolve_idempotent(
    r1: Result<FlagValue, FlagError>,
    r2: Result<FlagValue, FlagError>,
    id: Seq<char>,
    tokens: Seq<Seq<char>>,
    flags: Seq<Flag>,
    expected: FlagType,
)
    requires
        result_model(r1) == spec_resolve(id, tokens, flags, expected),
        result_model(r2) == spec_resolve(id, tokens, flags, expected),
    ensures
        result_model(r1) == result_model(r2),
{
}

/// The engine is deterministic: dispatch is a pure function of the
/// descriptor tree and the argument vector, so two runs over equal inputs
/// reach the same terminal action, flag set and remaining tokens.
pub proof fn lemma_dispatch_deterministic<Act>(
    commands: Seq<Command<Act>>,
    action: Option<Act>,
    flags: Seq<Flag>,
    args1: Seq<Seq<char>>,
    args2: Seq<Seq<char>>,
)
    requires
        args1 == args2,
    ensures
        spec_dispatch(commands, action, flags, rest_tokens(args1)) == spec_dispatch(
            commands,
            action,
            flags,
            rest_tokens(args2),
        ),
{
}

/// The boundary case of dispatch: with no tokens left after the program
/// name, dispatch stays at the root, whose action (or its absence) decides
/// the outcome.
pub proof fn lemma_empty_tokens_reach_root<Act>(
    commands: Seq<Command<Act>>,
    action: Option<Act>,
    flags: Seq<Flag>,
)
    ensures
        spec_dispatch(commands, action, flags, Seq::<Seq<char>>::empty()) == (
            action,
            flags,
            Seq::<Seq<char>>::empty(),
        ),
{
}

} // verus!
