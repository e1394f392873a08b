//! The checks that gate a transition and the reducers that a transition applies.
use vstd::prelude::*;
use std::collections::HashSet;
use crate::runner::{
    lemma_bindings_push, lemma_bindings_last, lemma_positionals_push, lemma_tokens_push,
    lemma_texts_push, bindings, token_models, texts,
    OptionValue, PartialRunState, Positional, RunState, Token, StateModel, ValueModel,
    PositionalModel, TokenModel, overlay,
};
use crate::shared::{Arg, ArgModel};
use crate::text::{
    alphabetic, alphanumeric, ascii_alphanumeric, has_name, decimal, to_chars, from_chars,
    push_char, push_str, push_decimal, is_alphabetic, is_alphanumeric, is_ascii_alphanumeric,
    set_contains, copy_set,
};

verus! {

/// A state transformation applied when a transition fires.
#[derive(Debug, Clone, PartialEq, Eq)]
pub enum Reducer {
    Noop,
    InhibateOptions,
    PushBatch,
    PushBound,
    PushExtra,
    PushFalse(String),
    PushNone(String),
    PushPath,
    PushPositional,
    PushRest,
    PushStringValue,
    PushTrue(String),
    SetCandidateState(PartialRunState),
    SetError(String),
    SetOptionArityError,
    SetSelectedIndex(isize),
    SetStringValue,
    UseHelp(usize),
}

impl Default for Reducer {
    fn default() -> (r: Self)
        ensures
            r is Noop,
    {
        Reducer::Noop
    }
}

/// A predicate on the current state and argument.
#[derive(Debug, PartialEq, Eq)]
pub enum Check {
    Always,
    IsBatchOption(HashSet<String>),
    IsBoundOption(HashSet<String>),
    IsExact(String),
    IsExactString(String),
    IsHelp,
    IsNotOptionLike,
    IsOptionLike,
    IsUnsupportedOption(HashSet<String>),
    IsInvalidOption,
}

impl Clone for Check {
    fn clone(&self) -> (r: Self) {
        match self {
            Check::Always => Check::Always,
            Check::IsBatchOption(set) => Check::IsBatchOption(copy_set(set)),
            Check::IsBoundOption(set) => Check::IsBoundOption(copy_set(set)),
            Check::IsExact(s) => Check::IsExact(s.clone()),
            Check::IsExactString(s) => Check::IsExactString(s.clone()),
            Check::IsHelp => Check::IsHelp,
            Check::IsNotOptionLike => Check::IsNotOptionLike,
            Check::IsOptionLike => Check::IsOptionLike,
            Check::IsUnsupportedOption(set) => Check::IsUnsupportedOption(copy_set(set)),
            Check::IsInvalidOption => Check::IsInvalidOption,
        }
    }
}

/// The text starts with a dash.
pub open spec fn dashed(t: Seq<char>) -> bool {
    t.len() > 0 && t[0] == '-'
}

/// The text starts with two dashes.
pub open spec fn double_dashed(t: Seq<char>) -> bool {
    t.len() > 1 && t[0] == '-' && t[1] == '-'
}

/// Syntactically well-formed option: `--` then letters, digits and dashes,
/// or `-` then letters only.
pub open spec fn valid_option(t: Seq<char>) -> bool {
    if double_dashed(t) {
        forall|i: int| 2 <= i < t.len() ==> alphanumeric(#[trigger] t[i]) || t[i] == '-'
    } else if dashed(t) {
        forall|i: int| 1 <= i < t.len() ==> alphabetic(#[trigger] t[i])
    } else {
        false
    }
}

/// `i` is the position of the first `=` in `t`.
pub open spec fn first_eq_at(t: Seq<char>, i: int) -> bool {
    0 <= i < t.len() && t[i] == '=' && forall|j: int| 0 <= j < i ==> t[j] != '='
}

/// The position of the first `=` in `t`, which holds one.
pub open spec fn first_eq(t: Seq<char>) -> int {
    choose|i: int| first_eq_at(t, i)
}

/// The first `=` is unique.
pub proof fn lemma_first_eq(t: Seq<char>, i: int)
    requires
        first_eq_at(t, i),
    ensures
        first_eq(t) == i,
{
    let k = first_eq(t);
    assert(first_eq_at(t, k));
    if k < i {
        assert(t[k] != '=');
    } else if i < k {
        assert(t[i] != '=');
    }
}

/// The single-letter option named by the character `c`.
pub open spec fn short_name(c: char) -> Seq<char> {
    seq!['-', c]
}

/// The text begins with the characters of `p`.
pub open spec fn starts_with(t: Seq<char>, p: Seq<char>) -> bool {
    p.len() <= t.len() && t.subrange(0, p.len() as int) == p
}

/// `--help`, `-h`, or `--help=` followed by anything.
pub open spec fn is_help_text(t: Seq<char>) -> bool {
    t == "--help"@ || t == "-h"@ || starts_with(t, "--help="@)
}

/// Whether `check` holds of a state and the text of the argument.
pub open spec fn check_holds(check: Check, s: StateModel, t: Seq<char>) -> bool {
    match check {
        Check::Always => true,
        Check::IsBatchOption(set) => !s.ignore_options && dashed(t) && t.len() > 2 && forall|i: int|
            1 <= i < t.len() ==> ascii_alphanumeric(#[trigger] t[i]) && has_name(set@, short_name(t[i])),
        Check::IsBoundOption(set) => !s.ignore_options && t.contains('=') && has_name(
            set@,
            t.subrange(0, first_eq(t)),
        ),
        Check::IsExact(needle) => !s.ignore_options && t == needle@,
        Check::IsExactString(needle) => !s.ignore_options && t == needle@,
        Check::IsHelp => !s.ignore_options && is_help_text(t),
        Check::IsNotOptionLike => s.ignore_options || t == seq!['-'] || !dashed(t),
        Check::IsOptionLike => !s.ignore_options && t != seq!['-'] && dashed(t),
        Check::IsUnsupportedOption(set) => !s.ignore_options && dashed(t) && valid_option(t)
            && !has_name(set@, t),
        Check::IsInvalidOption => !s.ignore_options && dashed(t) && !valid_option(t),
    }
}


/// The text of an argument; the end markers read as empty.
pub open spec fn arg_text(a: ArgModel) -> Seq<char> {
    match a {
        ArgModel::User(t) => t,
        ArgModel::End => Seq::empty(),
    }
}

/// Whether `c` begins with the characters of `p`.
fn has_prefix(c: &Vec<char>, p: &Vec<char>) -> (r: bool)
    ensures
        r == (p@.len() <= c@.len() && c@.subrange(0, p@.len() as int) == p@),
{
    if p.len() > c.len() {
        return false;
    }
    let mut i: usize = 0;
    while i < p.len()
        invariant
            p@.len() <= c@.len(),
            i <= p.len(),
            forall|j: int| 0 <= j < i ==> c@[j] == p@[j],
        decreases p.len() - i,
    {
        if c[i] != p[i] {
            assert(c@.subrange(0, p@.len() as int)[i as int] != p@[i as int]);
            return false;
        }
        i = i + 1;
    }
    assert(c@.subrange(0, p@.len() as int) =~= p@);
    true
}

/// Whether `c` holds exactly the characters of `p`.
fn same_text(c: &Vec<char>, p: &Vec<char>) -> (r: bool)
    ensures
        r == (c@ == p@),
{
    let r = c.len() == p.len() && has_prefix(c, p);
    proof {
        if c@.len() == p@.len() {
            assert(c@.subrange(0, p@.len() as int) =~= c@);
        }
    }
    r
}

/// The position of the first `=` in `c`, if any.
fn find_eq(c: &Vec<char>) -> (r: Option<usize>)
    ensures
        match r {
            Some(i) => first_eq_at(c@, i as int),
            None => !c@.contains('='),
        },
{
    let mut i: usize = 0;
    while i < c.len()
        invariant
            i <= c.len(),
            forall|j: int| 0 <= j < i ==> c@[j] != '=',
        decreases c.len() - i,
    {
        if c[i] == '=' {
            return Some(i);
        }
        i = i + 1;
    }
    None
}

/// Whether every character of `c` from position `from` on passes the validity rule
/// (letters, digits and dashes when `long`; letters only otherwise).
fn valid_tail(c: &Vec<char>, from: usize, long: bool) -> (r: bool)
    ensures
        r == (forall|i: int| from <= i < c@.len() ==> (if long {
            alphanumeric(#[trigger] c@[i]) || c@[i] == '-'
        } else {
            alphabetic(c@[i])
        })),
{
    let mut i: usize = from;
    while i < c.len()
        invariant
            from <= i,
            forall|j: int| from <= j < i ==> (if long {
                alphanumeric(#[trigger] c@[j]) || c@[j] == '-'
            } else {
                alphabetic(c@[j])
            }),
        decreases c.len() - i,
    {
        let ok = if long {
            is_alphanumeric(c[i]) || c[i] == '-'
        } else {
            is_alphabetic(c[i])
        };
        if !ok {
            return false;
        }
        i = i + 1;
    }
    true
}

/// Whether `option` is a well-formed option name.
fn is_valid_option(option: &str) -> (r: bool)
    ensures
        r == valid_option(option@),
{
    let c = to_chars(option);
    if c.len() > 1 && c[0] == '-' && c[1] == '-' {
        valid_tail(&c, 2, true)
    } else if c.len() > 0 && c[0] == '-' {
        valid_tail(&c, 1, false)
    } else {
        false
    }
}

/// Whether every character after the leading dash is an ASCII letter or digit
/// that names a single-letter option of `set`.
fn all_batchable(c: &Vec<char>, set: &HashSet<String>) -> (r: bool)
    ensures
        r == (forall|i: int| 1 <= i < c@.len() ==> ascii_alphanumeric(#[trigger] c@[i])
            && has_name(set@, short_name(c@[i]))),
{
    let mut i: usize = 1;
    while i < c.len()
        invariant
            1 <= i,
            forall|j: int| 1 <= j < i && j < c@.len() ==> ascii_alphanumeric(#[trigger] c@[j])
                && has_name(set@, short_name(c@[j])),
        decreases c.len() - i,
    {
        if !is_ascii_alphanumeric(c[i]) {
            return false;
        }
        let mut name = String::new();
        push_char(&mut name, '-');
        push_char(&mut name, c[i]);
        assert(name@ =~= short_name(c@[i as int]));
        if !set_contains(set, name.as_str()) {
            return false;
        }
        i = i + 1;
    }
    true
}

/// Evaluates `check` against the state and the argument; has no effect.
pub fn apply_check(check: &Check, state: &RunState, arg: &Arg, _segment_index: usize) -> (r: bool)
    requires
        check is Always || arg is User,
    ensures
        r == check_holds(*check, state@, arg_text(arg@)),
{
    if let Check::Always = check {
        return true;
    }
    let text = arg.unwrap_user();
    let c = to_chars(text.as_str());
    let ignore = state.ignore_options;
    let dash = c.len() > 0 && c[0] == '-';
    let lone_dash = c.len() == 1 && c[0] == '-';
    assert(lone_dash == (c@ == seq!['-'])) by {
        if c@.len() == 1 {
            assert(c@ =~= seq![c@[0]]);
        }
    }
    match check {
        Check::Always => true,
        Check::IsBatchOption(set) => !ignore && dash && c.len() > 2 && all_batchable(&c, set),
        Check::IsBoundOption(set) => {
            if ignore {
                return false;
            }
            match find_eq(&c) {
                Some(e) => {
                    proof {
                        lemma_first_eq(c@, e as int);
                        assert(c@.contains('=')) by { assert(c@[e as int] == '='); }
                    }
                    let name = from_chars(&c, 0, e);
                    set_contains(set, name.as_str())
                },
                None => false,
            }
        },
        Check::IsExact(needle) => !ignore && text.eq(needle),
        Check::IsExactString(needle) => !ignore && text.eq(needle),
        Check::IsHelp => {
            let long = to_chars("--help");
            let short = to_chars("-h");
            let bound = to_chars("--help=");
            !ignore && (same_text(&c, &long) || same_text(&c, &short) || has_prefix(&c, &bound))
        },
        Check::IsNotOptionLike => ignore || lone_dash || !dash,
        Check::IsOptionLike => !ignore && !lone_dash && dash,
        Check::IsUnsupportedOption(set) => !ignore && dash && is_valid_option(text.as_str())
            && !set_contains(set, text.as_str()),
        Check::IsInvalidOption => !ignore && dash && !is_valid_option(text.as_str()),
    }
}


/// Whether `r` may run on this state and argument: reducers that read the
/// argument's text need a user argument, and those that touch the last option
/// need one to exist.
pub open spec fn reducer_ready(r: Reducer, s: StateModel, a: ArgModel) -> bool {
    match r {
        Reducer::PushBatch | Reducer::PushExtra | Reducer::PushPath | Reducer::PushPositional
        | Reducer::PushRest => a is User,
        Reducer::PushBound => a is User && arg_text(a).contains('='),
        Reducer::PushStringValue => a is User && s.options.len() > 0 && (s.options.last().1 is Pending
            || s.options.last().1 is Array),
        Reducer::SetStringValue => a is User && s.options.len() > 0,
        Reducer::SetOptionArityError => s.options.len() > 0,
        _ => true,
    }
}

/// The options that a bundle such as `-rf` stands for, one per character after the dash.
pub open spec fn batch_options(t: Seq<char>, m: int) -> Seq<(Seq<char>, ValueModel)> {
    Seq::new(m as nat, |j: int| (short_name(t[j + 1]), ValueModel::Bool(true)))
}

/// The token for the `j`-th option of a bundle: the first one covers the dash too.
pub open spec fn batch_token(t: Seq<char>, i: usize, j: int) -> TokenModel {
    TokenModel::Option {
        segment_index: i,
        slice: Some(if j == 0 { (0usize, 2usize) } else { ((j + 1) as usize, (j + 2) as usize) }),
        option: short_name(t[j + 1]),
    }
}

pub open spec fn batch_tokens(t: Seq<char>, i: usize, m: int) -> Seq<TokenModel> {
    Seq::new(m as nat, |j: int| batch_token(t, i, j))
}

/// The number of options in a bundle: the characters after the first.
pub open spec fn batch_len(t: Seq<char>) -> int {
    if t.len() == 0 { 0 } else { t.len() - 1 }
}

/// The tokens of a bound option `name=value` whose `=` stands at `e`.
pub open spec fn bound_tokens(t: Seq<char>, i: usize, e: int) -> Seq<TokenModel> {
    seq![
        TokenModel::Option {
            segment_index: i,
            slice: Some((0usize, e as usize)),
            option: t.subrange(0, e),
        },
        TokenModel::Assign { segment_index: i, slice: (e as usize, (e + 1) as usize) },
        TokenModel::Value { segment_index: i, slice: Some(((e + 1) as usize, t.len() as usize)) },
    ]
}

/// An option token that no scanned text backs.
pub open spec fn bare_option_token(name: Seq<char>, i: usize) -> TokenModel {
    TokenModel::Option { segment_index: i, slice: None, option: name }
}

/// The value of the last option once `t` is attached to it.
pub open spec fn appended(v: ValueModel, t: Seq<char>) -> ValueModel {
    match v {
        ValueModel::Array(a) => ValueModel::Array(a.push(t)),
        _ => ValueModel::Array(seq![t]),
    }
}

/// The options with the value of the last one replaced by `v`.
pub open spec fn with_last_value(o: Seq<(Seq<char>, ValueModel)>, v: ValueModel) -> Seq<
    (Seq<char>, ValueModel),
> {
    o.drop_last().push((o.last().0, v))
}

/// The message that `SetError` records.
pub open spec fn error_text(message: Seq<char>, a: ArgModel) -> Seq<char> {
    match a {
        ArgModel::User(t) => message + " (\""@ + t + "\")."@,
        ArgModel::End => message + "."@,
    }
}

/// The state that `r` produces from `s`, reading argument `a` at position `i`.
pub open spec fn reduce(r: Reducer, s: StateModel, a: ArgModel, i: usize) -> StateModel {
    let t = arg_text(a);
    match r {
        Reducer::Noop => s,
        Reducer::InhibateOptions => StateModel { ignore_options: true, ..s },
        Reducer::PushBatch => StateModel {
            options: s.options + batch_options(t, batch_len(t)),
            tokens: s.tokens + batch_tokens(t, i, batch_len(t)),
            ..s
        },
        Reducer::PushBound => {
            let e = first_eq(t);
            StateModel {
                options: s.options.push((t.subrange(0, e), ValueModel::Str(t.subrange(e + 1, t.len() as int)))),
                tokens: s.tokens + bound_tokens(t, i, e),
                ..s
            }
        },
        Reducer::PushExtra => StateModel { positionals: s.positionals.push(PositionalModel::Optional(t)), ..s },
        Reducer::PushPositional => StateModel { positionals: s.positionals.push(PositionalModel::Required(t)), ..s },
        Reducer::PushRest => StateModel { positionals: s.positionals.push(PositionalModel::Rest(t)), ..s },
        Reducer::PushFalse(name) => StateModel {
            options: s.options.push((name@, ValueModel::Bool(false))),
            tokens: s.tokens.push(bare_option_token(name@, i)),
            ..s
        },
        Reducer::PushTrue(name) => StateModel {
            options: s.options.push((name@, ValueModel::Bool(true))),
            tokens: s.tokens.push(bare_option_token(name@, i)),
            ..s
        },
        Reducer::PushNone(name) => StateModel {
            options: s.options.push((name@, ValueModel::Pending)),
            tokens: s.tokens.push(bare_option_token(name@, i)),
            ..s
        },
        Reducer::PushPath => StateModel { path: s.path.push(t), ..s },
        Reducer::PushStringValue => StateModel {
            options: with_last_value(s.options, appended(s.options.last().1, t)),
            tokens: s.tokens.push(TokenModel::Value { segment_index: i, slice: None }),
            ..s
        },
        Reducer::SetStringValue => StateModel {
            options: with_last_value(s.options, ValueModel::Str(t)),
            tokens: s.tokens.push(TokenModel::Value { segment_index: i, slice: None }),
            ..s
        },
        Reducer::SetError(message) => StateModel { error_message: Some(error_text(message@, a)), ..s },
        Reducer::SetOptionArityError => StateModel {
            error_message: Some("Not enough arguments to option "@ + s.options.last().0 + "."@),
            ..s
        },
        Reducer::SetSelectedIndex(k) => StateModel { selected_index: Some(k), ..s },
        Reducer::UseHelp(k) => StateModel { options: seq![("-c"@, ValueModel::Str(decimal(k as nat)))], ..s },
        Reducer::SetCandidateState(p) => overlay(s, p@),
    }
}


/// Appends one `Bool(true)` option and one option token per character after the dash.
fn push_batch(st: &mut RunState, c: &Vec<char>, i: usize)
    ensures
        final(st)@ == (StateModel {
            options: old(st)@.options + batch_options(c@, batch_len(c@)),
            tokens: old(st)@.tokens + batch_tokens(c@, i, batch_len(c@)),
            ..old(st)@
        }),
{
    let ghost s0 = st@;
    let mut k: usize = 1;
    while k < c.len()
        invariant
            1 <= k,
            k <= c.len() || k == 1,
            st@ == (StateModel {
                options: s0.options + batch_options(c@, k - 1),
                tokens: s0.tokens + batch_tokens(c@, i, k - 1),
                ..s0
            }),
        decreases c.len() - k,
    {
        let mut name = String::new();
        push_char(&mut name, '-');
        push_char(&mut name, c[k]);
        assert(name@ =~= short_name(c@[k as int]));
        let slice = if k == 1 { (0usize, 2usize) } else { (k, k + 1) };
        let pair = (name.clone(), OptionValue::Bool(true));
        let token = Token::Option { segment_index: i, slice: Some(slice), option: name };
        proof {
            lemma_bindings_push(st.options@, pair);
            lemma_tokens_push(st.tokens@, token);
        }
        st.options.push(pair);
        st.tokens.push(token);
        assert(batch_options(c@, k as int) =~= batch_options(c@, k - 1).push((pair.0@, pair.1@)));
        assert(batch_tokens(c@, i, k as int) =~= batch_tokens(c@, i, k - 1).push(token@));
        k = k + 1;
    }
    assert(batch_len(c@) == k - 1);
}

/// Splits `name=value` at its first `=` and records the option and its three tokens.
fn push_bound(st: &mut RunState, c: &Vec<char>, i: usize)
    requires
        c@.contains('='),
    ensures
        final(st)@ == (StateModel {
            options: old(st)@.options.push((c@.subrange(0, first_eq(c@)), ValueModel::Str(c@.subrange(first_eq(c@) + 1, c@.len() as int)))),
            tokens: old(st)@.tokens + bound_tokens(c@, i, first_eq(c@)),
            ..old(st)@
        }),
{
    let ghost s0 = st@;
    let found = find_eq(c);
    let e = match found {
        Some(e) => e,
        None => { return; },
    };
    assert(first_eq_at(c@, e as int));
    proof { lemma_first_eq(c@, e as int); }
    let name = from_chars(c, 0, e);
    let n = c.len();
    let value = from_chars(c, e + 1, n);
    let pair = (name.clone(), OptionValue::String(value));
    let t1 = Token::Option { segment_index: i, slice: Some((0, e)), option: name };
    let t2 = Token::Assign { segment_index: i, slice: (e, e + 1) };
    let t3 = Token::Value { segment_index: i, slice: Some((e + 1, n)) };
    proof {
        lemma_bindings_push(st.options@, pair);
        lemma_tokens_push(st.tokens@, t1);
        lemma_tokens_push(st.tokens@.push(t1), t2);
        lemma_tokens_push(st.tokens@.push(t1).push(t2), t3);
    }
    st.options.push(pair);
    st.tokens.push(t1);
    st.tokens.push(t2);
    st.tokens.push(t3);
    assert(st@.tokens =~= s0.tokens + bound_tokens(c@, i, e as int));
}

/// Appends an option bound to `value`, with an option token that no text backs.
fn push_named(st: &mut RunState, name: &String, value: OptionValue, i: usize)
    ensures
        final(st)@ == (StateModel {
            options: old(st)@.options.push((name@, value@)),
            tokens: old(st)@.tokens.push(bare_option_token(name@, i)),
            ..old(st)@
        }),
{
    let pair = (name.clone(), value);
    let token = Token::Option { segment_index: i, slice: None, option: name.clone() };
    proof {
        lemma_bindings_push(st.options@, pair);
        lemma_tokens_push(st.tokens@, token);
    }
    st.options.push(pair);
    st.tokens.push(token);
}

/// Appends a positional.
fn push_positional(st: &mut RunState, p: Positional)
    ensures
        final(st)@ == (StateModel { positionals: old(st)@.positionals.push(p@), ..old(st)@ }),
{
    proof { lemma_positionals_push(st.positionals@, p); }
    st.positionals.push(p);
}

/// Replaces the value of the last option by what `attach` makes of it, and
/// records a value token with no slice.
fn attach_value(st: &mut RunState, text: &String, overwrite: bool, i: usize)
    requires
        old(st)@.options.len() > 0,
        !overwrite ==> (old(st)@.options.last().1 is Pending || old(st)@.options.last().1 is Array),
    ensures
        final(st)@ == (StateModel {
            options: with_last_value(
                old(st)@.options,
                if overwrite { ValueModel::Str(text@) } else { appended(old(st)@.options.last().1, text@) },
            ),
            tokens: old(st)@.tokens.push(TokenModel::Value { segment_index: i, slice: None }),
            ..old(st)@
        }),
{
    let ghost s0 = st@;
    proof { lemma_bindings_last(st.options@); }
    let last = st.options.pop();
    let (name, value) = match last {
        Some(p) => p,
        None => { return; },
    };
    let ghost old_value = value@;
    let new_value = if overwrite {
        OptionValue::String(text.clone())
    } else {
        match value {
            OptionValue::Array(v) => {
                let mut v = v;
                let item = text.clone();
                proof { lemma_texts_push(v@, item); }
                v.push(item);
                OptionValue::Array(v)
            },
            _ => {
                let v = vec![text.clone()];
                assert(texts(v@) =~= seq![text@]);
                OptionValue::Array(v)
            },
        }
    };
    assert(new_value@ == (if overwrite { ValueModel::Str(text@) } else { appended(old_value, text@) }));
    let pair = (name, new_value);
    let token = Token::Value { segment_index: i, slice: None };
    proof {
        lemma_bindings_push(st.options@, pair);
        lemma_tokens_push(st.tokens@, token);
    }
    st.options.push(pair);
    st.tokens.push(token);
}

/// Applies `reducer` and returns the new state; `state` itself is left as it was.
pub fn apply_reducer(reducer: &Reducer, state: &RunState, arg: &Arg, segment_index: usize) -> (r: RunState)
    requires
        reducer_ready(*reducer, state@, arg@),
    ensures
        r@ == reduce(*reducer, state@, arg@, segment_index),
{
    let mut st = state.clone();
    let i = segment_index;
    match reducer {
        Reducer::Noop => {},
        Reducer::InhibateOptions => {
            st.ignore_options = true;
        },
        Reducer::PushBatch => {
            let c = to_chars(arg.unwrap_user().as_str());
            push_batch(&mut st, &c, i);
        },
        Reducer::PushBound => {
            let c = to_chars(arg.unwrap_user().as_str());
            push_bound(&mut st, &c, i);
        },
        Reducer::PushExtra => {
            push_positional(&mut st, Positional::Optional(arg.unwrap_user().clone()));
        },
        Reducer::PushPositional => {
            push_positional(&mut st, Positional::Required(arg.unwrap_user().clone()));
        },
        Reducer::PushRest => {
            push_positional(&mut st, Positional::Rest(arg.unwrap_user().clone()));
        },
        Reducer::PushFalse(name) => {
            push_named(&mut st, name, OptionValue::Bool(false), i);
        },
        Reducer::PushTrue(name) => {
            push_named(&mut st, name, OptionValue::Bool(true), i);
        },
        Reducer::PushNone(name) => {
            push_named(&mut st, name, OptionValue::Pending, i);
        },
        Reducer::PushPath => {
            let text = arg.unwrap_user().clone();
            proof { lemma_texts_push(st.path@, text); }
            st.path.push(text);
        },
        Reducer::PushStringValue => {
            attach_value(&mut st, arg.unwrap_user(), false, i);
        },
        Reducer::SetStringValue => {
            attach_value(&mut st, arg.unwrap_user(), true, i);
        },
        Reducer::SetError(message) => {
            let mut m = message.clone();
            match arg {
                Arg::User(text) => {
                    push_str(&mut m, " (\"");
                    push_str(&mut m, text.as_str());
                    push_str(&mut m, "\").");
                },
                _ => {
                    push_str(&mut m, ".");
                },
            }
            st.error_message = Some(m);
        },
        Reducer::SetOptionArityError => {
            let n = state.options.len();
            proof { lemma_bindings_last(state.options@); }
            let mut m = String::new();
            push_str(&mut m, "Not enough arguments to option ");
            push_str(&mut m, state.options[n - 1].0.as_str());
            push_str(&mut m, ".");
            assert(m@ =~= "Not enough arguments to option "@ + state@.options.last().0 + "."@);
            st.error_message = Some(m);
        },
        Reducer::SetSelectedIndex(k) => {
            st.selected_index = Some(*k);
        },
        Reducer::UseHelp(k) => {
            let mut name = String::new();
            push_str(&mut name, "-c");
            let mut v = String::new();
            push_decimal(&mut v, *k);
            assert(name@ =~= "-c"@);
            assert(v@ =~= decimal(*k as nat));
            st.options = vec![(name, OptionValue::String(v))];
            assert(bindings(st.options@) =~= seq![("-c"@, ValueModel::Str(decimal(*k as nat)))]);
        },
        Reducer::SetCandidateState(partial) => {
            st.apply_some(partial.clone());
        },
    }
    st
}

} // verus!
