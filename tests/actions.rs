use std::collections::HashSet;

use clipanion::actions::{apply_check, apply_reducer, Check, Reducer};
use clipanion::runner::{OptionValue, PartialRunState, Positional, RunState, Token};
use clipanion::shared::Arg;

fn user(s: &str) -> Arg {
    Arg::User(s.to_string())
}

fn names(list: &[&str]) -> HashSet<String> {
    list.iter().map(|s| s.to_string()).collect()
}

fn check(c: &Check, s: &str) -> bool {
    apply_check(c, &RunState::new(), &user(s), 0)
}

fn with_option(name: &str, value: OptionValue) -> RunState {
    let mut state = RunState::new();
    state.options.push((name.to_string(), value));
    state
}

#[test]
fn push_batch_splits_bundle() {
    let set = names(&["-r", "-f"]);
    assert!(check(&Check::IsBatchOption(set), "-rf"));
    let out = apply_reducer(&Reducer::PushBatch, &RunState::new(), &user("-rf"), 3);
    assert_eq!(
        out.options,
        vec![
            ("-r".to_string(), OptionValue::Bool(true)),
            ("-f".to_string(), OptionValue::Bool(true)),
        ]
    );
    assert_eq!(
        out.tokens,
        vec![
            Token::Option { segment_index: 3, slice: Some((0, 2)), option: "-r".to_string() },
            Token::Option { segment_index: 3, slice: Some((2, 3)), option: "-f".to_string() },
        ]
    );
}

#[test]
fn push_batch_three_letters() {
    let out = apply_reducer(&Reducer::PushBatch, &RunState::new(), &user("-abc"), 0);
    assert_eq!(out.options.len(), 3);
    assert_eq!(out.options[2].0, "-c");
    assert_eq!(
        out.tokens[2],
        Token::Option { segment_index: 0, slice: Some((3, 4)), option: "-c".to_string() }
    );
}

#[test]
fn push_bound_splits_at_first_equals() {
    let out = apply_reducer(&Reducer::PushBound, &RunState::new(), &user("--name=value"), 1);
    assert_eq!(
        out.options,
        vec![("--name".to_string(), OptionValue::String("value".to_string()))]
    );
    assert_eq!(
        out.tokens,
        vec![
            Token::Option { segment_index: 1, slice: Some((0, 6)), option: "--name".to_string() },
            Token::Assign { segment_index: 1, slice: (6, 7) },
            Token::Value { segment_index: 1, slice: Some((7, 12)) },
        ]
    );
}

#[test]
fn push_bound_keeps_later_equals_in_value() {
    let out = apply_reducer(&Reducer::PushBound, &RunState::new(), &user("--x=a=b"), 0);
    assert_eq!(out.options, vec![("--x".to_string(), OptionValue::String("a=b".to_string()))]);
}

#[test]
fn push_bound_empty_value() {
    let out = apply_reducer(&Reducer::PushBound, &RunState::new(), &user("--x="), 0);
    assert_eq!(out.options, vec![("--x".to_string(), OptionValue::String(String::new()))]);
    assert_eq!(out.tokens[2], Token::Value { segment_index: 0, slice: Some((4, 4)) });
}

#[test]
fn is_help_cases() {
    assert!(check(&Check::IsHelp, "-h"));
    assert!(check(&Check::IsHelp, "--help"));
    assert!(check(&Check::IsHelp, "--help=topic"));
    assert!(!check(&Check::IsHelp, "--helper"));
    assert!(!check(&Check::IsHelp, "help"));
}

#[test]
fn invalid_and_unsupported_options() {
    assert!(check(&Check::IsInvalidOption, "--bad!"));
    assert!(check(&Check::IsInvalidOption, "-1"));
    assert!(!check(&Check::IsInvalidOption, "--good-name2"));
    assert!(!check(&Check::IsInvalidOption, "plain"));
    let known = names(&["--known"]);
    assert!(check(&Check::IsUnsupportedOption(known.clone()), "--unknown"));
    assert!(!check(&Check::IsUnsupportedOption(known.clone()), "--bad!"));
    assert!(!check(&Check::IsUnsupportedOption(known), "--known"));
}

#[test]
fn set_error_quotes_user_text() {
    let reducer = Reducer::SetError("Unexpected value".to_string());
    let out = apply_reducer(&reducer, &RunState::new(), &user("x"), 0);
    assert_eq!(out.error_message, Some("Unexpected value (\"x\").".to_string()));
    let out = apply_reducer(&reducer, &RunState::new(), &Arg::EndOfInput, 0);
    assert_eq!(out.error_message, Some("Unexpected value.".to_string()));
    let out = apply_reducer(&reducer, &RunState::new(), &Arg::EndOfPartialInput, 0);
    assert_eq!(out.error_message, Some("Unexpected value.".to_string()));
}

#[test]
fn candidate_with_only_error_keeps_other_fields() {
    let mut state = with_option("-v", OptionValue::Bool(true));
    state.path.push("cp".to_string());
    state.selected_index = Some(2);
    let mut partial = PartialRunState::new();
    partial.error_message = Some(Some("Boom".to_string()));
    let out = apply_reducer(&Reducer::SetCandidateState(partial), &state, &user("a"), 0);
    let mut expected = state.clone();
    expected.error_message = Some("Boom".to_string());
    assert_eq!(out, expected);
}

#[test]
fn candidate_overlays_present_fields() {
    let state = with_option("-v", OptionValue::Bool(true));
    let mut partial = PartialRunState::new();
    partial.options = Some(Vec::new());
    partial.ignore_options = Some(true);
    let out = apply_reducer(&Reducer::SetCandidateState(partial), &state, &Arg::EndOfInput, 0);
    assert!(out.options.is_empty());
    assert!(out.ignore_options);
}

#[test]
fn always_and_noop() {
    let state = with_option("-v", OptionValue::Pending);
    assert!(apply_check(&Check::Always, &state, &Arg::EndOfInput, 9));
    assert!(apply_check(&Check::Always, &state, &user("-x"), 0));
    assert_eq!(apply_reducer(&Reducer::Noop, &state, &user("a"), 0), state);
    assert_eq!(Reducer::default(), Reducer::Noop);
}

#[test]
fn reducer_leaves_input_unchanged() {
    let state = with_option("-v", OptionValue::Pending);
    let before = state.clone();
    let out = apply_reducer(&Reducer::PushStringValue, &state, &user("a"), 0);
    assert_eq!(state, before);
    assert_ne!(out, state);
    let again = apply_reducer(&Reducer::SetStringValue, &state, &user("b"), 0);
    assert_eq!(state, before);
    assert_eq!(again.options[0].1, OptionValue::String("b".to_string()));
}

#[test]
fn string_values_accumulate() {
    let state = with_option("--file", OptionValue::Pending);
    let one = apply_reducer(&Reducer::PushStringValue, &state, &user("a"), 1);
    assert_eq!(one.options[0].1, OptionValue::Array(vec!["a".to_string()]));
    let two = apply_reducer(&Reducer::PushStringValue, &one, &user("b"), 2);
    assert_eq!(two.options[0].1, OptionValue::Array(vec!["a".to_string(), "b".to_string()]));
    assert_eq!(two.tokens, vec![
        Token::Value { segment_index: 1, slice: None },
        Token::Value { segment_index: 2, slice: None },
    ]);
}

#[test]
fn set_string_value_overwrites() {
    let state = with_option("--name", OptionValue::Bool(true));
    let out = apply_reducer(&Reducer::SetStringValue, &state, &user("z"), 4);
    assert_eq!(out.options, vec![("--name".to_string(), OptionValue::String("z".to_string()))]);
    assert_eq!(out.tokens, vec![Token::Value { segment_index: 4, slice: None }]);
}

#[test]
fn arity_error_names_last_option() {
    let state = with_option("--output", OptionValue::Pending);
    let out = apply_reducer(&Reducer::SetOptionArityError, &state, &Arg::EndOfInput, 0);
    assert_eq!(out.error_message, Some("Not enough arguments to option --output.".to_string()));
    assert_eq!(out.options, state.options);
}

#[test]
fn use_help_replaces_options() {
    let state = with_option("-v", OptionValue::Bool(true));
    let out = apply_reducer(&Reducer::UseHelp(42), &state, &user("-h"), 0);
    assert_eq!(out.options, vec![("-c".to_string(), OptionValue::String("42".to_string()))]);
    let out = apply_reducer(&Reducer::UseHelp(0), &state, &user("-h"), 0);
    assert_eq!(out.options, vec![("-c".to_string(), OptionValue::String("0".to_string()))]);
}

#[test]
fn named_pushes_have_no_slice() {
    let s = RunState::new();
    let f = apply_reducer(&Reducer::PushFalse("-q".to_string()), &s, &Arg::EndOfInput, 5);
    assert_eq!(f.options, vec![("-q".to_string(), OptionValue::Bool(false))]);
    assert_eq!(f.tokens, vec![Token::Option { segment_index: 5, slice: None, option: "-q".to_string() }]);
    let t = apply_reducer(&Reducer::PushTrue("-v".to_string()), &s, &user("x"), 1);
    assert_eq!(t.options, vec![("-v".to_string(), OptionValue::Bool(true))]);
    let n = apply_reducer(&Reducer::PushNone("--out".to_string()), &s, &user("x"), 1);
    assert_eq!(n.options, vec![("--out".to_string(), OptionValue::Pending)]);
}

#[test]
fn positionals_and_path() {
    let s = RunState::new();
    let a = apply_reducer(&Reducer::PushPositional, &s, &user("src"), 0);
    let b = apply_reducer(&Reducer::PushExtra, &a, &user("opt"), 1);
    let c = apply_reducer(&Reducer::PushRest, &b, &user("more"), 2);
    assert_eq!(c.positionals, vec![
        Positional::Required("src".to_string()),
        Positional::Optional("opt".to_string()),
        Positional::Rest("more".to_string()),
    ]);
    let p = apply_reducer(&Reducer::PushPath, &s, &user("cp"), 0);
    assert_eq!(p.path, vec!["cp".to_string()]);
}

#[test]
fn inhibit_and_select() {
    let s = RunState::new();
    let i = apply_reducer(&Reducer::InhibateOptions, &s, &user("--"), 0);
    assert!(i.ignore_options);
    assert!(!apply_check(&Check::IsOptionLike, &i, &user("-x"), 1));
    assert!(apply_check(&Check::IsNotOptionLike, &i, &user("-x"), 1));
    assert!(!apply_check(&Check::IsHelp, &i, &user("-h"), 1));
    let k = apply_reducer(&Reducer::SetSelectedIndex(-1), &s, &Arg::EndOfInput, 0);
    assert_eq!(k.selected_index, Some(-1));
}

#[test]
fn option_like_cases() {
    assert!(check(&Check::IsOptionLike, "-x"));
    assert!(!check(&Check::IsOptionLike, "-"));
    assert!(!check(&Check::IsOptionLike, "x"));
    assert!(check(&Check::IsNotOptionLike, "-"));
    assert!(check(&Check::IsNotOptionLike, "file"));
    assert!(!check(&Check::IsNotOptionLike, "--x"));
}

#[test]
fn exact_matches() {
    assert!(check(&Check::IsExact("cp".to_string()), "cp"));
    assert!(!check(&Check::IsExact("cp".to_string()), "cpx"));
    assert!(check(&Check::IsExactString("--".to_string()), "--"));
    assert!(!check(&Check::IsExactString("--".to_string()), "-"));
}

#[test]
fn batch_option_cases() {
    let set = names(&["-r", "-f"]);
    assert!(!check(&Check::IsBatchOption(set.clone()), "-r"));
    assert!(!check(&Check::IsBatchOption(set.clone()), "-rx"));
    assert!(!check(&Check::IsBatchOption(set.clone()), "rf-"));
    assert!(!check(&Check::IsBatchOption(set.clone()), "-r-"));
    assert!(check(&Check::IsBatchOption(set), "-frr"));
}

#[test]
fn bound_option_cases() {
    let set = names(&["--name"]);
    assert!(check(&Check::IsBoundOption(set.clone()), "--name=x"));
    assert!(check(&Check::IsBoundOption(set.clone()), "--name=a=b"));
    assert!(!check(&Check::IsBoundOption(set.clone()), "--name"));
    assert!(!check(&Check::IsBoundOption(set), "--other=x"));
}

#[test]
fn unicode_letters_are_valid_short_options() {
    assert!(!check(&Check::IsInvalidOption, "-é"));
    assert!(check(&Check::IsInvalidOption, "-a1"));
    assert!(!check(&Check::IsInvalidOption, "--a1-b"));
}

#[test]
fn cloned_check_keeps_its_set() {
    let original = Check::IsUnsupportedOption(names(&["--known"]));
    let copy = original.clone();
    assert_eq!(copy, original);
    assert!(!check(&copy, "--known"));
    assert!(check(&copy, "--other"));
}

#[test]
fn defaults_are_empty() {
    let s = RunState::default();
    assert!(s.options.is_empty() && s.tokens.is_empty() && s.path.is_empty());
    assert_eq!(s.error_message, None);
    assert_eq!(s.selected_index, None);
    assert!(!s.ignore_options);
    assert_eq!(PartialRunState::default(), PartialRunState::new());
}
