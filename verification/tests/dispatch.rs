use seahorse::{
    Action, ActionError, ActionErrorKind, App, Command, Context, Flag, FlagType, RunError,
    match_command,
};

/// An action that never runs; used where only the dispatch outcome matters.
struct Noop;

impl Action for Noop {
    fn call(&self, _c: &Context) -> Result<(), RunError> {
        Ok(())
    }
}

/// Reports whether the `bye` boolean flag is set, through the error channel.
struct ByeProbe;

impl Action for ByeProbe {
    fn call(&self, c: &Context) -> Result<(), RunError> {
        Err(RunError::Custom(format!("bye={}", c.bool_flag("bye"))))
    }
}

/// Reports the positional arguments, through the error channel.
struct ArgsProbe;

impl Action for ArgsProbe {
    fn call(&self, c: &Context) -> Result<(), RunError> {
        Err(RunError::Custom(c.args.join(",")))
    }
}

/// Propagates whatever `int_flag("age")` reports.
struct AgeProbe;

impl Action for AgeProbe {
    fn call(&self, c: &Context) -> Result<(), RunError> {
        match c.int_flag("age") {
            Ok(n) => Err(RunError::Custom(format!("age={}", n))),
            Err(e) => Err(RunError::Flag(e)),
        }
    }
}

fn strings(v: &[&str]) -> Vec<String> {
    v.iter().map(|s| s.to_string()).collect()
}

#[test]
fn bool_flag_alias_observed_by_action() {
    let app = App::new("prog")
        .action(ByeProbe)
        .flag(Flag::new("bye", FlagType::Bool).alias("b"));
    let r = app.run(strings(&["prog", "-b"]));
    assert_eq!(r, Err(RunError::Custom("bye=true".to_string())));
}

#[test]
fn bool_flag_absent_is_false() {
    let app = App::new("prog")
        .action(ByeProbe)
        .flag(Flag::new("bye", FlagType::Bool).alias("b"));
    let r = app.run(strings(&["prog"]));
    assert_eq!(r, Err(RunError::Custom("bye=false".to_string())));
}

#[test]
fn int_flag_bad_value_is_value_type_error() {
    let app = App::new("prog")
        .action(AgeProbe)
        .flag(Flag::new("age", FlagType::Int));
    let r = app.run(strings(&["prog", "--age", "notanumber"]));
    match r {
        Err(RunError::Flag(e)) => assert_eq!(e.kind, seahorse::FlagErrorKind::ValueTypeError),
        other => panic!("unexpected outcome: {:?}", other),
    }
}

#[test]
fn subcommand_alias_dispatch_binds_args() {
    let app = App::new("prog")
        .command(Command::new("hello").alias("h").action(ArgsProbe));
    let r = app.run(strings(&["prog", "h", "Sam"]));
    assert_eq!(r, Err(RunError::Custom("Sam".to_string())));
}

#[test]
fn no_action_reports_not_found() {
    let app: App<Noop> = App::new("prog");
    let r = app.run(strings(&["prog"]));
    assert_eq!(
        r,
        Err(RunError::Action(ActionError { kind: ActionErrorKind::NotFound }))
    );
}

#[test]
fn empty_tokens_dispatch_to_root_action() {
    let app = App::new("prog").action(ArgsProbe);
    let r = app.run(strings(&["prog"]));
    assert_eq!(r, Err(RunError::Custom(String::new())));
}

#[test]
fn group_command_without_action_reports_not_found() {
    let app: App<Noop> = App::new("prog").command(Command::new("group"));
    let r = app.run(strings(&["prog", "group"]));
    assert_eq!(
        r,
        Err(RunError::Action(ActionError { kind: ActionErrorKind::NotFound }))
    );
}

#[test]
fn nested_subcommands_dispatch_two_levels() {
    let app = App::new("prog").command(
        Command::new("outer").command(Command::new("inner").action(ArgsProbe)),
    );
    let r = app.run(strings(&["prog", "outer", "inner", "x", "y"]));
    assert_eq!(r, Err(RunError::Custom("x,y".to_string())));
}

#[test]
fn unmatched_token_stays_positional() {
    let app = App::new("prog")
        .action(ArgsProbe)
        .command(Command::new("hello").action(ArgsProbe));
    let r = app.run(strings(&["prog", "world", "hello"]));
    assert_eq!(r, Err(RunError::Custom("world,hello".to_string())));
}

#[test]
fn run_is_deterministic_for_equal_inputs() {
    let build = || {
        App::new("prog")
            .action(AgeProbe)
            .flag(Flag::new("age", FlagType::Int).alias("a"))
    };
    let args = strings(&["prog", "-a", "30"]);
    let r1 = build().run(args.clone());
    let r2 = build().run(args);
    assert_eq!(r1, r2);
    assert_eq!(r1, Err(RunError::Custom("age=30".to_string())));
}

#[test]
fn match_command_picks_first_declared() {
    let candidates: Vec<Command<Noop>> = vec![
        Command::new("first").alias("x"),
        Command::new("x"),
    ];
    let hit = match_command("x", &candidates).expect("a command should match");
    assert_eq!(hit.name, "first".to_string());
}

#[test]
fn alias_declaration_order_never_changes_selection() {
    // The same two commands with each alias list reordered: the token still
    // selects the same command, in both candidate orders.
    let a1: Vec<Command<Noop>> = vec![
        Command::new("first").alias("x").alias("y"),
        Command::new("second").alias("z"),
    ];
    let a2: Vec<Command<Noop>> = vec![
        Command::new("first").alias("y").alias("x"),
        Command::new("second").alias("z"),
    ];
    for tok in ["x", "y", "z", "first", "second", "other"] {
        let h1 = match_command(tok, &a1).map(|c| c.name.clone());
        let h2 = match_command(tok, &a2).map(|c| c.name.clone());
        assert_eq!(h1, h2);
    }
}

#[test]
fn match_command_none_when_no_name_matches() {
    let candidates: Vec<Command<Noop>> = vec![Command::new("alpha"), Command::new("beta")];
    assert!(match_command("gamma", &candidates).is_none());
}

#[test]
fn match_command_is_case_sensitive() {
    let candidates: Vec<Command<Noop>> = vec![Command::new("Hello")];
    assert!(match_command("hello", &candidates).is_none());
    assert!(match_command("Hello", &candidates).is_some());
}

#[test]
fn action_error_propagates_unchanged() {
    struct Failing;
    impl Action for Failing {
        fn call(&self, _c: &Context) -> Result<(), RunError> {
            Err(RunError::Custom("test error".to_string()))
        }
    }
    let app = App::new("cli").action(Failing);
    let r = app.run(strings(&["cli"]));
    assert_eq!(r, Err(RunError::Custom("test error".to_string())));
}

#[test]
fn action_success_propagates_unchanged() {
    let app = App::new("cli").action(Noop);
    let r = app.run(strings(&["cli"]));
    assert_eq!(r, Ok(()));
}
