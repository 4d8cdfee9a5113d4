use seahorse::{Context, Flag, FlagError, FlagErrorKind, FlagType, FlagValue, resolve};

fn strings(v: &[&str]) -> Vec<String> {
    v.iter().map(|s| s.to_string()).collect()
}

fn ctx(tokens: &[&str], flags: Vec<Flag>) -> Context {
    Context::new(strings(tokens), flags)
}

#[test]
fn undefined_flag_query() {
    let c = ctx(&["hi"], vec![Flag::new("bye", FlagType::Bool)]);
    assert_eq!(
        c.string_flag("neko"),
        Err(FlagError { kind: FlagErrorKind::Undefined })
    );
}

#[test]
fn type_mismatch_precedes_extraction() {
    // `age` is declared Int; a string accessor fails with TypeError even
    // though no occurrence or value is present at all.
    let c = ctx(&[], vec![Flag::new("age", FlagType::Int)]);
    assert_eq!(
        c.string_flag("age"),
        Err(FlagError { kind: FlagErrorKind::TypeError })
    );
}

#[test]
fn missing_occurrence_is_not_found() {
    let c = ctx(&["positional"], vec![Flag::new("age", FlagType::Int)]);
    assert_eq!(c.int_flag("age"), Err(FlagError { kind: FlagErrorKind::NotFound }));
}

#[test]
fn int_flag_long_form() {
    let c = ctx(&["--age", "42"], vec![Flag::new("age", FlagType::Int)]);
    assert_eq!(c.int_flag("age"), Ok(42));
}

#[test]
fn int_flag_negative_value() {
    let c = ctx(&["--age", "-17"], vec![Flag::new("age", FlagType::Int)]);
    assert_eq!(c.int_flag("age"), Ok(-17));
}

#[test]
fn int_flag_alias_form() {
    let c = ctx(&["-a", "7"], vec![Flag::new("age", FlagType::Int).alias("a")]);
    assert_eq!(c.int_flag("age"), Ok(7));
}

#[test]
fn int_flag_inline_form() {
    let c = ctx(&["--age=21"], vec![Flag::new("age", FlagType::Int)]);
    assert_eq!(c.int_flag("age"), Ok(21));
}

#[test]
fn int_flag_extreme_values() {
    let c = ctx(
        &["--lo", "-9223372036854775808", "--hi", "9223372036854775807"],
        vec![Flag::new("lo", FlagType::Int), Flag::new("hi", FlagType::Int)],
    );
    assert_eq!(c.int_flag("lo"), Ok(i64::MIN));
    assert_eq!(c.int_flag("hi"), Ok(i64::MAX));
}

#[test]
fn int_flag_overflow_is_value_type_error() {
    let c = ctx(
        &["--age", "9223372036854775808"],
        vec![Flag::new("age", FlagType::Int)],
    );
    assert_eq!(
        c.int_flag("age"),
        Err(FlagError { kind: FlagErrorKind::ValueTypeError })
    );
}

#[test]
fn int_flag_missing_value_is_argument_error() {
    let c = ctx(&["--age"], vec![Flag::new("age", FlagType::Int)]);
    assert_eq!(
        c.int_flag("age"),
        Err(FlagError { kind: FlagErrorKind::ArgumentError })
    );
}

#[test]
fn string_flag_takes_following_token_verbatim() {
    let c = ctx(&["--name", "Sam"], vec![Flag::new("name", FlagType::String)]);
    assert_eq!(c.string_flag("name"), Ok("Sam".to_string()));
}

#[test]
fn string_flag_inline_empty_value() {
    let c = ctx(&["--name="], vec![Flag::new("name", FlagType::String)]);
    assert_eq!(c.string_flag("name"), Ok(String::new()));
}

#[test]
fn string_flag_missing_value_is_argument_error() {
    let c = ctx(&["--name"], vec![Flag::new("name", FlagType::String)]);
    assert_eq!(
        c.string_flag("name"),
        Err(FlagError { kind: FlagErrorKind::ArgumentError })
    );
}

#[test]
fn int_list_flag_collects_until_dash() {
    let c = ctx(
        &["--nums", "1", "2", "3", "-x", "9"],
        vec![Flag::new("nums", FlagType::IntList)],
    );
    assert_eq!(c.int_list_flag("nums"), Ok(vec![1, 2, 3]));
}

#[test]
fn int_list_flag_bad_element_is_value_type_error() {
    let c = ctx(
        &["--nums", "1", "two", "3"],
        vec![Flag::new("nums", FlagType::IntList)],
    );
    assert_eq!(
        c.int_list_flag("nums"),
        Err(FlagError { kind: FlagErrorKind::ValueTypeError })
    );
}

#[test]
fn string_list_flag_collects_until_dash() {
    let c = ctx(
        &["--names", "a", "b", "-x"],
        vec![Flag::new("names", FlagType::StringList)],
    );
    assert_eq!(
        c.string_list_flag("names"),
        Ok(vec!["a".to_string(), "b".to_string()])
    );
}

#[test]
fn float_flag_text_is_raw_and_parses_outside() {
    let c = ctx(&["--ratio", "2.5"], vec![Flag::new("ratio", FlagType::Float)]);
    let raw = c.float_flag_text("ratio").expect("flag should resolve");
    assert_eq!(raw, "2.5".to_string());
    let parsed: f64 = raw.parse().expect("raw text should parse");
    assert!(parsed > 2.49 && parsed < 2.51);
}

#[test]
fn resolve_is_idempotent() {
    let tokens = strings(&["--age", "42", "rest"]);
    let flags = vec![Flag::new("age", FlagType::Int).alias("a")];
    let r1 = resolve("age", &tokens, &flags, FlagType::Int);
    let r2 = resolve("age", &tokens, &flags, FlagType::Int);
    assert_eq!(r1, r2);
    assert_eq!(r1, Ok(FlagValue::Int(42)));
}

#[test]
fn resolve_finds_first_descriptor_in_declaration_order() {
    // Two descriptors answer to `n`: the first declared one wins, so the
    // query is type-checked against Bool and the Int accessor fails.
    let tokens = strings(&["-n", "5"]);
    let flags = vec![
        Flag::new("noisy", FlagType::Bool).alias("n"),
        Flag::new("n", FlagType::Int),
    ];
    assert_eq!(
        resolve("n", &tokens, &flags, FlagType::Int),
        Err(FlagError { kind: FlagErrorKind::TypeError })
    );
    assert_eq!(
        resolve("n", &tokens, &flags, FlagType::Bool),
        Ok(FlagValue::Bool(true))
    );
}

#[test]
fn first_occurrence_in_token_order_wins() {
    let c = ctx(
        &["--age", "1", "--age", "2"],
        vec![Flag::new("age", FlagType::Int)],
    );
    assert_eq!(c.int_flag("age"), Ok(1));
}

#[test]
fn args_strip_bool_flag_occurrences() {
    let c = ctx(
        &["a", "--bye", "b"],
        vec![Flag::new("bye", FlagType::Bool).alias("b")],
    );
    assert_eq!(c.args, strings(&["a", "b"]));
}

#[test]
fn args_strip_value_flag_and_its_value() {
    let c = ctx(
        &["--name", "Sam", "world"],
        vec![Flag::new("name", FlagType::String)],
    );
    assert_eq!(c.args, strings(&["world"]));
}

#[test]
fn args_strip_list_flag_run() {
    let c = ctx(
        &["--nums", "1", "2", "keep", "-z"],
        vec![Flag::new("nums", FlagType::IntList)],
    );
    // `keep` is part of the dash-free run the list consumes; `-z` stays.
    assert_eq!(c.args, strings(&["-z"]));
}

#[test]
fn args_keep_unrecognized_tokens() {
    let c = ctx(&["--unknown", "x"], vec![Flag::new("bye", FlagType::Bool)]);
    assert_eq!(c.args, strings(&["--unknown", "x"]));
}

#[test]
fn error_kind_texts() {
    assert_eq!(FlagErrorKind::NotFound.description(), "Flag not found");
    assert_eq!(FlagErrorKind::Undefined.description(), "Flag undefined");
    assert_eq!(FlagErrorKind::TypeError.description(), "Flag type mismatch");
    assert_eq!(FlagErrorKind::ValueTypeError.description(), "Value type mismatch");
    assert_eq!(FlagErrorKind::ArgumentError.description(), "Illegal argument");
    assert_eq!(FlagErrorKind::TypeError.message(), "TypeError");
    assert_eq!(
        FlagError { kind: FlagErrorKind::NotFound }.message(),
        "NotFound"
    );
    assert_eq!(seahorse::ActionErrorKind::NotFound.message(), "NotFound");
    assert_eq!(
        seahorse::ActionError { kind: seahorse::ActionErrorKind::NotFound }.message(),
        "NotFound"
    );
}

#[test]
fn bool_flag_inline_occurrence_is_present() {
    let c = ctx(&["--bye=whatever"], vec![Flag::new("bye", FlagType::Bool)]);
    assert!(c.bool_flag("bye"));
}

#[test]
fn bool_flag_wrong_type_query_is_false() {
    // `bye` is declared Int, so the boolean accessor reports false rather
    // than coercing.
    let c = ctx(&["--bye", "1"], vec![Flag::new("bye", FlagType::Int)]);
    assert!(!c.bool_flag("bye"));
}
