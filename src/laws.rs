//! General facts about checks and reducers.
use vstd::prelude::*;
use crate::actions::{
    Check, Reducer, check_holds, reduce, reducer_ready, batch_tokens, batch_token, batch_len,
    bound_tokens, bare_option_token,
};
use crate::runner::{PartialRunState, StateModel, TokenModel};
use crate::shared::ArgModel;

verus! {

/// `Always` holds of every state and every argument.
pub proof fn lemma_always_holds(s: StateModel, t: Seq<char>)
    ensures
        check_holds(Check::Always, s, t),
{
}

/// `Noop` leaves every state as it was.
pub proof fn lemma_noop_is_identity(s: StateModel, a: ArgModel, i: usize)
    ensures
        reduce(Reducer::Noop, s, a, i) == s,
{
}

/// Adopting a candidate that holds only an error message sets that message and
/// leaves every other field of the state unchanged.
pub proof fn lemma_candidate_error_only(s: StateModel, p: PartialRunState, a: ArgModel, i: usize)
    requires
        p@.ignore_options is None,
        p@.options is None,
        p@.positionals is None,
        p@.tokens is None,
        p@.path is None,
        p@.selected_index is None,
        p@.error_message is Some,
    ensures
        reduce(Reducer::SetCandidateState(p), s, a, i) == (StateModel {
            error_message: p@.error_message->0,
            ..s
        }),
{
}


/// The argument position that a token records.
pub open spec fn token_segment(t: TokenModel) -> usize {
    match t {
        TokenModel::Option { segment_index, .. } => segment_index,
        TokenModel::Assign { segment_index, .. } => segment_index,
        TokenModel::Value { segment_index, .. } => segment_index,
    }
}

/// Tokens never go back to an earlier argument.
pub open spec fn tokens_ordered(ts: Seq<TokenModel>) -> bool {
    forall|j: int, k: int|
        0 <= j <= k < ts.len() ==> token_segment(#[trigger] ts[j]) <= token_segment(#[trigger] ts[k])
}

/// Every token records an argument at or before `i`.
pub open spec fn tokens_up_to(ts: Seq<TokenModel>, i: usize) -> bool {
    forall|k: int| 0 <= k < ts.len() ==> token_segment(#[trigger] ts[k]) <= i
}

proof fn lemma_ordered_append(ts: Seq<TokenModel>, extra: Seq<TokenModel>, i: usize)
    requires
        tokens_ordered(ts),
        tokens_up_to(ts, i),
        forall|k: int| 0 <= k < extra.len() ==> token_segment(#[trigger] extra[k]) == i,
    ensures
        tokens_ordered(ts + extra),
{
    let all = ts + extra;
    assert forall|j: int, k: int| 0 <= j <= k < all.len() implies token_segment(#[trigger] all[j])
        <= token_segment(#[trigger] all[k]) by {
        if k >= ts.len() {
            assert(all[k] == extra[k - ts.len()]);
            if j >= ts.len() {
                assert(all[j] == extra[j - ts.len()]);
            } else {
                assert(all[j] == ts[j]);
            }
        } else {
            assert(all[j] == ts[j] && all[k] == ts[k]);
        }
    }
}

/// A reducer run at argument `i` keeps the tokens in argument order, provided
/// no earlier token lies beyond `i` and an adopted candidate's tokens are in order.
pub proof fn lemma_tokens_stay_ordered(r: Reducer, s: StateModel, a: ArgModel, i: usize)
    requires
        reducer_ready(r, s, a),
        tokens_ordered(s.tokens),
        tokens_up_to(s.tokens, i),
        r matches Reducer::SetCandidateState(p) ==> (p@.tokens matches Some(ts) ==> tokens_ordered(ts)),
    ensures
        tokens_ordered(reduce(r, s, a, i).tokens),
{
    let t = crate::actions::arg_text(a);
    match r {
        Reducer::PushBatch => {
            lemma_ordered_append(s.tokens, batch_tokens(t, i, batch_len(t)), i);
        },
        Reducer::PushBound => {
            let e = crate::actions::first_eq(t);
            lemma_ordered_append(s.tokens, bound_tokens(t, i, e), i);
        },
        Reducer::PushFalse(name) | Reducer::PushTrue(name) | Reducer::PushNone(name) => {
            let x = bare_option_token(name@, i);
            assert(s.tokens.push(x) =~= s.tokens + seq![x]);
            lemma_ordered_append(s.tokens, seq![x], i);
        },
        Reducer::PushStringValue | Reducer::SetStringValue => {
            let x = TokenModel::Value { segment_index: i, slice: None };
            assert(s.tokens.push(x) =~= s.tokens + seq![x]);
            lemma_ordered_append(s.tokens, seq![x], i);
        },
        _ => {},
    }
}

/// Apart from `UseHelp` and `SetCandidateState`, which replace fields wholesale,
/// reducers only append: earlier tokens, positionals and path segments stay in
/// place, and earlier options keep their names (only the last one may get a new value).
pub proof fn lemma_append_only(r: Reducer, s: StateModel, a: ArgModel, i: usize)
    requires
        reducer_ready(r, s, a),
        !(r is UseHelp),
        !(r is SetCandidateState),
    ensures
        ({
            let out = reduce(r, s, a, i);
            &&& s.tokens.len() <= out.tokens.len()
            &&& out.tokens.subrange(0, s.tokens.len() as int) == s.tokens
            &&& s.positionals.len() <= out.positionals.len()
            &&& out.positionals.subrange(0, s.positionals.len() as int) == s.positionals
            &&& s.path.len() <= out.path.len()
            &&& out.path.subrange(0, s.path.len() as int) == s.path
            &&& s.options.len() <= out.options.len()
            &&& forall|j: int| 0 <= j < s.options.len() ==> (#[trigger] out.options[j]).0 == s.options[j].0
            &&& forall|j: int| 0 <= j < s.options.len() - 1 ==> #[trigger] out.options[j] == s.options[j]
        }),
{
    let out = reduce(r, s, a, i);
    assert(out.tokens.subrange(0, s.tokens.len() as int) =~= s.tokens);
    assert(out.positionals.subrange(0, s.positionals.len() as int) =~= s.positionals);
    assert(out.path.subrange(0, s.path.len() as int) =~= s.path);
}

} // verus!
