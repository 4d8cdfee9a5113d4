//! The application root: the top of the command tree plus process metadata,
//! and the dispatcher that walks a raw argument vector down the tree and
//! invokes the resolved action.

use vstd::prelude::*;
use crate::command::Action;
use crate::command::Command;
use crate::command::first_match;
use crate::command::lemma_first_match;
use crate::command::match_command_idx;
use crate::context::Context;
use crate::context::spec_strip;
use crate::error::ActionError;
use crate::error::ActionErrorKind;
use crate::error::RunError;
use crate::flag::Flag;

verus! {

/// The root of an application: the root command's own matter (flags,
/// subcommands, optional action) plus process metadata.  Built once, then
/// consumed by a single `run` call.
pub struct App<Act> {
    pub name: String,
    pub author: Option<String>,
    pub description: Option<String>,
    pub usage: Option<String>,
    pub version: Option<String>,
    pub flags: Vec<Flag>,
    pub commands: Vec<Command<Act>>,
    pub action: Option<Act>,
}

/// The token stream dispatch works on: the raw argument vector with its
/// first element, the program name, removed.
pub open spec fn rest_tokens(args: Seq<Seq<char>>) -> Seq<Seq<char>> {
    if args.len() == 0 {
        args
    } else {
        args.drop_first()
    }
}

/// The terminal descriptor dispatch reaches, as its action, flag set and the
/// tokens left: while tokens remain and the first one invokes a subcommand,
/// descend into the first matching subcommand and consume the token.
pub open spec fn spec_dispatch<Act>(
    commands: Seq<Command<Act>>,
    action: Option<Act>,
    flags: Seq<Flag>,
    tokens: Seq<Seq<char>>,
) -> (Option<Act>, Seq<Flag>, Seq<Seq<char>>)
    decreases tokens.len(),
{
    if tokens.len() > 0 && first_match(tokens[0], commands) is Some {
        let i = first_match(tokens[0], commands).unwrap();
        spec_dispatch(
            commands[i].commands@,
            commands[i].action,
            commands[i].flags@,
            tokens.drop_first(),
        )
    } else {
        (action, flags, tokens)
    }
}

impl<Act> App<Act> {
    /// A new application of the given name, with nothing else declared.
    pub fn new(name: &str) -> (r: App<Act>)
        ensures
            r.name@ == name@,
            r.author is None,
            r.description is None,
            r.usage is None,
            r.version is None,
            r.flags@ == Seq::<Flag>::empty(),
            r.commands@ == Seq::<Command<Act>>::empty(),
            r.action is None,
    {
        App {
            name: name.to_owned(),
            author: None,
            description: None,
            usage: None,
            version: None,
            flags: Vec::new(),
            commands: Vec::new(),
            action: None,
        }
    }

    /// The same application with its author set.
    pub fn author(self, author: &str) -> (r: App<Act>)
        ensures
            r.author matches Some(a) && a@ == author@,
            r.name == self.name,
            r.description == self.description,
            r.usage == self.usage,
            r.version == self.version,
            r.flags == self.flags,
            r.commands == self.commands,
            r.action == self.action,
    {
        App { author: Some(author.to_owned()), ..self }
    }

    /// The same application with its description set.
    pub fn description(self, description: &str) -> (r: App<Act>)
        ensures
            r.description matches Some(d) && d@ == description@,
            r.name == self.name,
            r.author == self.author,
            r.usage == self.usage,
            r.version == self.version,
            r.flags == self.flags,
            r.commands == self.commands,
            r.action == self.action,
    {
        App { description: Some(description.to_owned()), ..self }
    }

    /// The same application with its usage text set.
    pub fn usage(self, usage: &str) -> (r: App<Act>)
        ensures
            r.usage matches Some(u) && u@ == usage@,
            r.name == self.name,
            r.author == self.author,
            r.description == self.description,
            r.version == self.version,
            r.flags == self.flags,
            r.commands == self.commands,
            r.action == self.action,
    {
        App { usage: Some(usage.to_owned()), ..self }
    }

    /// The same application with its version set.
    pub fn version(self, version: &str) -> (r: App<Act>)
        ensures
            r.version matches Some(v) && v@ == version@,
            r.name == self.name,
            r.author == self.author,
            r.description == self.description,
            r.usage == self.usage,
            r.flags == self.flags,
            r.commands == self.commands,
            r.action == self.action,
    {
        App { version: Some(version.to_owned()), ..self }
    }

    /// The same application with one root-level flag appended.
    pub fn flag(self, flag: Flag) -> (r: App<Act>)
        ensures
            r.flags@ == self.flags@.push(flag),
            r.name == self.name,
            r.author == self.author,
            r.description == self.description,
            r.usage == self.usage,
            r.version == self.version,
            r.commands == self.commands,
            r.action == self.action,
    {
        let mut flags = self.flags;
        flags.push(flag);
        App { flags, ..self }
    }

    /// The same application with one top-level command appended after those
    /// already declared.
    pub fn command(self, command: Command<Act>) -> (r: App<Act>)
        ensures
            r.commands@ == self.commands@.push(command),
            r.name == self.name,
            r.author == self.author,
            r.description == self.description,
            r.usage == self.usage,
            r.version == self.version,
            r.flags == self.flags,
            r.action == self.action,
    {
        let mut commands = self.commands;
        commands.push(command);
        App { commands, ..self }
    }

    /// The same application with its root action set.
    pub fn action(self, action: Act) -> (r: App<Act>)
        ensures
            r.action == Some(action),
            r.name == self.name,
            r.author == self.author,
            r.description == self.description,
            r.usage == self.usage,
            r.version == self.version,
            r.flags == self.flags,
            r.commands == self.commands,
    {
        App { action: Some(action), ..self }
    }

    /// Walk the argument vector down the command tree: drop the program
    /// name, then, while tokens remain and the first one invokes a
    /// subcommand, descend into it.  Returns the terminal descriptor's
    /// action and the context built from the remaining tokens and the
    /// terminal flag set.
    #[verifier::loop_isolation(false)]
    pub fn dispatch(self, args: Vec<String>) -> (r: (Option<Act>, Context))
        ensures
            ({
                let (act, flags, rest) = spec_dispatch(
                    self.commands@,
                    self.action,
                    self.flags@,
                    rest_tokens(args.deep_view()),
                );
                &&& r.0 == act
                &&& r.1.flags@ == flags
                &&& r.1.tokens.deep_view() == rest
                &&& r.1.args.deep_view() == spec_strip(rest, flags)
            }),
    {
        let ghost orig: (Option<Act>, Seq<Flag>, Seq<Seq<char>>) = spec_dispatch(
            self.commands@,
            self.action,
            self.flags@,
            rest_tokens(args.deep_view()),
        );
        let ghost avw: Seq<Seq<char>> = args.deep_view();
        let mut commands = self.commands;
        let mut action = self.action;
        let mut flags = self.flags;
        let mut rest = args;
        if rest.len() > 0 {
            rest.remove(0);
            proof {
                assert(rest.deep_view() =~= rest_tokens(avw));
            }
        } else {
            proof {
                assert(rest.deep_view() =~= rest_tokens(avw));
            }
        }
        while rest.len() > 0
            invariant
                orig == spec_dispatch(commands@, action, flags@, rest.deep_view()),
            decreases rest@.len(),
        {
            let ghost rv: Seq<Seq<char>> = rest.deep_view();
            proof {
                assert(rv[0] == rest@[0]@);
            }
            match match_command_idx(rest[0].as_str(), &commands) {
                Some(ci) => {
                    proof {
                        lemma_first_match(rv[0], commands@);
                    }
                    let chosen = commands.remove(ci);
                    commands = chosen.commands;
                    action = chosen.action;
                    flags = chosen.flags;
                    rest.remove(0);
                    proof {
                        assert(rest.deep_view() =~= rv.drop_first());
                    }
                },
                None => {
                    break ;
                },
            }
        }
        let ctx = Context::new(rest, flags);
        (action, ctx)
    }
}

impl<Act: Action> App<Act> {
    /// Dispatch the argument vector and invoke the resolved action with the
    /// built context.  When the terminal descriptor binds no action, the
    /// dispatcher reports `ActionErrorKind::NotFound` itself; otherwise
    /// whatever the action returns propagates unchanged.
    pub fn run(self, args: Vec<String>) -> (r: Result<(), RunError>)
        ensures
            ({
                let (act, flags, rest) = spec_dispatch(
                    self.commands@,
                    self.action,
                    self.flags@,
                    rest_tokens(args.deep_view()),
                );
                &&& act is None ==> r == Err::<(), RunError>(
                    RunError::Action(ActionError { kind: ActionErrorKind::NotFound }),
                )
                &&& act matches Some(a) ==> exists|ctx: Context|
                    {
                        &&& ctx.flags@ == flags
                        &&& ctx.tokens.deep_view() == rest
                        &&& ctx.args.deep_view() == spec_strip(rest, flags)
                        &&& call_ensures(<Act as Action>::call, (&a, &ctx), r)
                    }
            }),
    {
        let (act, ctx) = self.dispatch(args);
        match act {
            None => Err(RunError::Action(ActionError { kind: ActionErrorKind::NotFound })),
            Some(a) => a.call(&ctx),
        }
    }
}

} // verus!
