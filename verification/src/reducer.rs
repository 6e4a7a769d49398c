//! Reducers as mathematical objects.
//!
//! A reducer is any function value `R: Fn(&TState, TAction) -> TState`. What it may return
//! is given by its postcondition, so in general it is a relation between a state, an action
//! and a next state. This module says what it means to run such a relation over a sequence
//! of actions, and when the outcome is the left fold of a function.

use vstd::prelude::*;

verus! {

/// A reducer given as a plain function pointer.
pub type Reducer<TState, TAction> = fn(&TState, TAction) -> TState;

/// `state` is an outcome of starting in `initial` and applying `reducer` to each action of
/// `actions`, first to last, every step feeding its result to the next.
pub open spec fn reaches<TState, TAction, R: Fn(&TState, TAction) -> TState>(
    reducer: R,
    initial: TState,
    actions: Seq<TAction>,
    state: TState,
) -> bool
    decreases actions.len(),
{
    if actions.len() == 0 {
        state == initial
    } else {
        exists|prior: TState|
            reaches(reducer, initial, actions.drop_last(), prior) && #[trigger] call_ensures(
                reducer,
                (&prior, actions.last()),
                state,
            )
    }
}

/// `reducer` is an implementation of the function `f`: whatever it returns for a state and
/// an action is the value of `f` there.
pub open spec fn computes<TState, TAction, R: Fn(&TState, TAction) -> TState>(
    reducer: R,
    f: spec_fn(TState, TAction) -> TState,
) -> bool {
    forall|state: TState, action: TAction, next: TState| #[trigger]
        call_ensures(reducer, (&state, action), next) ==> next == f(state, action)
}

/// One more step extends a run: if `prior` is an outcome of `actions` and the reducer can
/// return `next` for `prior` and `action`, then `next` is an outcome of `actions` followed
/// by `action`.
pub proof fn lemma_reaches_push<TState, TAction, R: Fn(&TState, TAction) -> TState>(
    reducer: R,
    initial: TState,
    actions: Seq<TAction>,
    prior: TState,
    action: TAction,
    next: TState,
)
    requires
        reaches(reducer, initial, actions, prior),
        call_ensures(reducer, (&prior, action), next),
    ensures
        reaches(reducer, initial, actions.push(action), next),
{
    let extended = actions.push(action);
    assert(extended.drop_last() =~= actions);
    assert(extended.last() == action);
}

/// A run of a reducer that computes `f` ends in the left fold of `f` over the actions:
/// `f(..f(f(initial, a_1), a_2).., a_n)`.
pub proof fn lemma_reaches_is_fold<TState, TAction, R: Fn(&TState, TAction) -> TState>(
    reducer: R,
    f: spec_fn(TState, TAction) -> TState,
    initial: TState,
    actions: Seq<TAction>,
    state: TState,
)
    requires
        computes(reducer, f),
        reaches(reducer, initial, actions, state),
    ensures
        state == actions.fold_left(initial, f),
    decreases actions.len(),
{
    if actions.len() > 0 {
        let prior = choose|prior: TState|
            reaches(reducer, initial, actions.drop_last(), prior) && #[trigger] call_ensures(
                reducer,
                (&prior, actions.last()),
                state,
            );
        lemma_reaches_is_fold(reducer, f, initial, actions.drop_last(), prior);
    }
}

} // verus!
