//! Command descriptors: the static definition of one dispatchable unit, the
//! capability its action supplies, and first-match-wins command matching.

use vstd::prelude::*;
use crate::context::Context;
use crate::error::RunError;
use crate::flag::Flag;
use crate::strutil::str_eq;

verus! {

/// The capability a user-supplied action provides: one callable invoked with
/// the context the dispatcher built.  The engine never inspects an action's
/// behaviour; whatever the call returns propagates unchanged out of `run`.
pub trait Action {
    /// Run the action against the dispatched context.
    fn call(&self, c: &Context) -> Result<(), RunError>;
}

/// Static definition of one command: name, aliases, optional usage and
/// description texts, its own flags, its subcommands, and an optional action.
///
/// Commands form a strict rooted tree, built once and immutable afterwards.
pub struct Command<Act> {
    pub name: String,
    pub aliases: Vec<String>,
    pub usage: Option<String>,
    pub description: Option<String>,
    pub flags: Vec<Flag>,
    pub commands: Vec<Command<Act>>,
    pub action: Option<Act>,
}

impl<Act> Command<Act> {
    /// Whether a token invokes this command: it equals the name or one of
    /// the aliases, exactly and case-sensitively.
    pub open spec fn matches_token(&self, t: Seq<char>) -> bool {
        ||| self.name@ == t
        ||| exists|i: int| 0 <= i < self.aliases@.len() && self.aliases@[i]@ == t
    }

    /// A new command of the given name, with nothing else declared.
    pub fn new(name: &str) -> (r: Command<Act>)
        ensures
            r.name@ == name@,
            r.aliases@ == Seq::<String>::empty(),
            r.usage is None,
            r.description is None,
            r.flags@ == Seq::<Flag>::empty(),
            r.commands@ == Seq::<Command<Act>>::empty(),
            r.action is None,
    {
        Command {
            name: name.to_owned(),
            aliases: Vec::new(),
            usage: None,
            description: None,
            flags: Vec::new(),
            commands: Vec::new(),
            action: None,
        }
    }

    /// The same command with its usage text set.
    pub fn usage(self, usage: &str) -> (r: Command<Act>)
        ensures
            r.name == self.name,
            r.aliases == self.aliases,
            r.usage matches Some(u) && u@ == usage@,
            r.description == self.description,
            r.flags == self.flags,
            r.commands == self.commands,
            r.action == self.action,
    {
        Command { usage: Some(usage.to_owned()), ..self }
    }

    /// The same command with its description set.
    pub fn description(self, description: &str) -> (r: Command<Act>)
        ensures
            r.name == self.name,
            r.aliases == self.aliases,
            r.usage == self.usage,
            r.description matches Some(d) && d@ == description@,
            r.flags == self.flags,
            r.commands == self.commands,
            r.action == self.action,
    {
        Command { description: Some(description.to_owned()), ..self }
    }

    /// The same command with one alias appended after those already
    /// declared.
    pub fn alias(self, alias: &str) -> (r: Command<Act>)
        ensures
            r.name == self.name,
            r.aliases@.len() == self.aliases@.len() + 1,
            r.aliases@.drop_last() == self.aliases@,
            r.aliases@.last()@ == alias@,
            r.usage == self.usage,
            r.description == self.description,
            r.flags == self.flags,
            r.commands == self.commands,
            r.action == self.action,
    {
        let mut aliases = self.aliases;
        aliases.push(alias.to_owned());
        Command { aliases, ..self }
    }

    /// The same command with one flag appended to its flag set.
    pub fn flag(self, flag: Flag) -> (r: Command<Act>)
        ensures
            r.name == self.name,
            r.aliases == self.aliases,
            r.usage == self.usage,
            r.description == self.description,
            r.flags@ == self.flags@.push(flag),
            r.commands == self.commands,
            r.action == self.action,
    {
        let mut flags = self.flags;
        flags.push(flag);
        Command { flags, ..self }
    }

    /// The same command with one subcommand appended after those already
    /// declared.
    pub fn command(self, command: Command<Act>) -> (r: Command<Act>)
        ensures
            r.name == self.name,
            r.aliases == self.aliases,
            r.usage == self.usage,
            r.description == self.description,
            r.flags == self.flags,
            r.commands@ == self.commands@.push(command),
            r.action == self.action,
    {
        let mut commands = self.commands;
        commands.push(command);
        Command { commands, ..self }
    }

    /// The same command with its action set.
    pub fn action(self, action: Act) -> (r: Command<Act>)
        ensures
            r.name == self.name,
            r.aliases == self.aliases,
            r.usage == self.usage,
            r.description == self.description,
            r.flags == self.flags,
            r.commands == self.commands,
            r.action == Some(action),
    {
        Command { action: Some(action), ..self }
    }
}

/// The least index of a candidate the token invokes, if any: ties between
/// candidates are broken by declaration order.
pub open spec fn first_match<Act>(t: Seq<char>, cmds: Seq<Command<Act>>) -> Option<int>
    decreases cmds.len(),
{
    if cmds.len() == 0 {
        None
    } else if cmds[0].matches_token(t) {
        Some(0)
    } else {
        match first_match(t, cmds.drop_first()) {
            Some(i) => Some(i + 1),
            None => None,
        }
    }
}

/// `first_match` returns exactly the least matching index.
pub proof fn lemma_first_match<Act>(t: Seq<char>, cmds: Seq<Command<Act>>)
    ensures
        match first_match(t, cmds) {
            Some(i) => {
                &&& 0 <= i < cmds.len()
                &&& cmds[i].matches_token(t)
                &&& forall|j: int| 0 <= j < i ==> !cmds[j].matches_token(t)
            },
            None => forall|j: int| 0 <= j < cmds.len() ==> !cmds[j].matches_token(t),
        },
    decreases cmds.len(),
{
    if cmds.len() > 0 {
        lemma_first_match(t, cmds.drop_first());
        assert forall|j: int| 1 <= j < cmds.len() implies cmds[j] == cmds.drop_first()[j - 1] by {
        }
    }
}

/// Whether the token invokes this command, decided executably.
#[verifier::loop_isolation(false)]
pub fn command_matches<Act>(c: &Command<Act>, token: &str) -> (r: bool)
    ensures
        r == c.matches_token(token@),
{
    if str_eq(c.name.as_str(), token) {
        return true;
    }
    let mut i: usize = 0;
    while i < c.aliases.len()
        invariant
            i <= c.aliases@.len(),
            forall|j: int| 0 <= j < i ==> c.aliases@[j]@ != token@,
        decreases c.aliases@.len() - i,
    {
        if str_eq(c.aliases[i].as_str(), token) {
            return true;
        }
        i += 1;
    }
    false
}

/// The index of the first candidate the token invokes, as `first_match`
/// gives it.
#[verifier::loop_isolation(false)]
pub fn match_command_idx<Act>(token: &str, candidates: &Vec<Command<Act>>) -> (r: Option<usize>)
    ensures
        match r {
            Some(i) => first_match(token@, candidates@) == Some(i as int),
            None => first_match(token@, candidates@) is None,
        },
{
    proof {
        lemma_first_match(token@, candidates@);
    }
    let mut i: usize = 0;
    while i < candidates.len()
        invariant
            i <= candidates@.len(),
            forall|j: int| 0 <= j < i ==> !candidates@[j].matches_token(token@),
        decreases candidates@.len() - i,
    {
        if command_matches(&candidates[i], token) {
            return Some(i);
        }
        i += 1;
    }
    None
}

/// The first declared candidate whose name or alias equals the token, if
/// any.  No match signals the caller to treat the token as the start of the
/// positional arguments rather than as an error.
pub fn match_command<'a, Act>(token: &str, candidates: &'a Vec<Command<Act>>) -> (r: Option<
    &'a Command<Act>,
>)
    ensures
        r is Some <==> first_match(token@, candidates@) is Some,
        r matches Some(c) ==> *c == candidates@[first_match(token@, candidates@).unwrap()],
{
    proof {
        lemma_first_match(token@, candidates@);
    }
    match match_command_idx(token, candidates) {
        Some(i) => Some(&candidates[i]),
        None => None,
    }
}

} // verus!
