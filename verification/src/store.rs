//! The store: one state value, the reducer that replaces it, and the subscribers that are
//! told of every replacement.

use crate::reducer::{computes, lemma_reaches_is_fold, lemma_reaches_push, reaches};
use crate::subscriber::{
    all_backed, lemma_backed_after_delivery, lemma_backed_after_subscribe, lemma_round_push, round,
    Delivery,
};
use vstd::prelude::*;

verus! {

/// A state container driven by actions.
///
/// `R` is the type of the reducer and `S` the type of the subscribers. Both are fixed for
/// the lifetime of the store; the reducer itself is set once, by [`Store::new`], and the
/// list of subscribers only grows.
///
/// Besides what it needs to run, a store carries three ghost values that describe its past:
/// the state it was created with, the actions dispatched since, and the notifications
/// delivered since. They cost nothing in compiled code.
#[verifier::reject_recursive_types(TState)]
pub struct Store<TState, TAction, R: Fn(&TState, TAction) -> TState, S: Fn(&TState)> {
    reducer: R,
    state: TState,
    subscribers: Vec<S>,
    initial: Ghost<TState>,
    history: Ghost<Seq<TAction>>,
    deliveries: Ghost<Seq<Delivery<TState>>>,
}

impl<TState, TAction, R: Fn(&TState, TAction) -> TState, S: Fn(&TState)> Store<
    TState,
    TAction,
    R,
    S,
> {
    /// The reducer the store was created with.
    pub closed spec fn reducer(&self) -> R {
        self.reducer
    }

    /// The state the store holds. In a contract, `store.state()` means this.
    pub closed spec fn spec_state(&self) -> &TState {
        &self.state
    }

    /// The registered subscribers, in registration order.
    pub closed spec fn subscribers(&self) -> Seq<S> {
        self.subscribers@
    }

    /// The state the store was created with.
    pub closed spec fn initial(&self) -> TState {
        self.initial@
    }

    /// Every action dispatched so far, oldest first.
    pub closed spec fn history(&self) -> Seq<TAction> {
        self.history@
    }

    /// Every notification delivered so far, oldest first.
    pub closed spec fn deliveries(&self) -> Seq<Delivery<TState>> {
        self.deliveries@
    }

    /// The invariant of a store: its state is an outcome of running the reducer over the
    /// whole history, starting from the initial state, and every recorded notification
    /// stands for a call of a registered subscriber that has returned.
    pub open spec fn wf(&self) -> bool {
        &&& reaches(self.reducer(), self.initial(), self.history(), *self.state())
        &&& all_backed(self.subscribers(), self.deliveries())
    }

    /// Whether `action` can be dispatched now without a callback being called outside its
    /// precondition: the reducer takes the current state with `action`, and each registered
    /// subscriber takes every state that the reducer may return for them.
    pub open spec fn accepts(&self, action: TAction) -> bool {
        &&& call_requires(self.reducer(), (self.state(), action))
        &&& forall|next: TState, i: int|
            #![trigger
                call_ensures(self.reducer(), (self.state(), action), next),
                self.subscribers()[i]
            ]
            call_ensures(self.reducer(), (self.state(), action), next)
                && 0 <= i < self.subscribers().len()
                ==> call_requires(self.subscribers()[i], (&next,))
    }

    /// Creates a store that holds `default_state` and changes it with `reducer`.
    ///
    /// The new store has no subscribers and no past: reading its state gives
    /// `default_state`, and nothing has been dispatched or delivered.
    pub fn new(reducer: R, default_state: TState) -> (store: Self)
        ensures
            store.wf(),
            store.reducer() == reducer,
            *store.state() == default_state,
            store.initial() == default_state,
            store.history() == Seq::<TAction>::empty(),
            store.subscribers() == Seq::<S>::empty(),
            store.deliveries() == Seq::<Delivery<TState>>::empty(),
    {
        Store {
            reducer,
            initial: Ghost(default_state),
            state: default_state,
            subscribers: Vec::new(),
            history: Ghost(Seq::empty()),
            deliveries: Ghost(Seq::empty()),
        }
    }

    /// Runs one update cycle: the reducer is applied to the current state and `action`, its
    /// result becomes the state, and then each subscriber is called with the new state.
    ///
    /// The subscribers registered at the time of the call are notified once each, in
    /// registration order, and all of them are given the state that this dispatch produced.
    /// The record of deliveries grows by exactly that round, and for each subscriber the
    /// postcondition of its call on the new state holds.
    ///
    /// The store is borrowed exclusively for the whole cycle. A subscriber therefore has no
    /// way to dispatch into the store that is notifying it: nested dispatch is ruled out.
    pub fn dispatch(&mut self, action: TAction)
        requires
            old(self).wf(),
            old(self).accepts(action),
        ensures
            final(self).wf(),
            call_ensures(old(self).reducer(), (old(self).state(), action), *final(self).state()),
            final(self).history() == old(self).history().push(action),
            final(self).deliveries() == old(self).deliveries() + round(
                old(self).subscribers().len(),
                *final(self).state(),
            ),
            forall|i: int|
                0 <= i < old(self).subscribers().len() ==> call_ensures(
                    #[trigger] old(self).subscribers()[i],
                    (final(self).state(),),
                    (),
                ),
            final(self).reducer() == old(self).reducer(),
            final(self).initial() == old(self).initial(),
            final(self).subscribers() == old(self).subscribers(),
    {
        let ghost taken = action;
        let next = (self.reducer)(&self.state, action);
        proof {
            lemma_reaches_push(
                self.reducer,
                self.initial@,
                self.history@,
                self.state,
                taken,
                next,
            );
        }
        self.state = next;
        self.history = Ghost(self.history@.push(taken));
        let count = self.subscribers.len();
        let mut index: usize = 0;
        while index < count
            invariant
                index <= count == self.subscribers@.len(),
                self.reducer == old(self).reducer,
                self.initial == old(self).initial,
                self.subscribers == old(self).subscribers,
                self.history@ == old(self).history@.push(taken),
                call_ensures(old(self).reducer, (&old(self).state, taken), self.state),
                reaches(self.reducer, self.initial@, self.history@, self.state),
                self.deliveries@ == old(self).deliveries@ + round(index as nat, self.state),
                all_backed(self.subscribers@, self.deliveries@),
                forall|i: int|
                    0 <= i < count ==> call_requires(#[trigger] self.subscribers@[i], (&self.state,)),
                forall|i: int|
                    0 <= i < index ==> call_ensures(
                        #[trigger] self.subscribers@[i],
                        (&self.state,),
                        (),
                    ),
            decreases count - index,
        {
            let ghost delivery = Delivery { subscriber: index as nat, state: self.state };
            (self.subscribers[index])(&self.state);
            proof {
                lemma_backed_after_delivery(self.subscribers@, self.deliveries@, delivery);
                lemma_round_push(index as nat, self.state);
            }
            self.deliveries = Ghost(self.deliveries@.push(delivery));
            index += 1;
        }
    }

    /// Registers `subscriber` behind all subscribers registered before it.
    ///
    /// Nothing else changes: the state is the same, and the subscriber is not called until
    /// the next dispatch.
    pub fn subscribe(&mut self, subscriber: S)
        requires
            old(self).wf(),
        ensures
            final(self).wf(),
            final(self).subscribers() == old(self).subscribers().push(subscriber),
            final(self).state() == old(self).state(),
            final(self).reducer() == old(self).reducer(),
            final(self).initial() == old(self).initial(),
            final(self).history() == old(self).history(),
            final(self).deliveries() == old(self).deliveries(),
    {
        self.subscribers.push(subscriber);
        proof {
            lemma_backed_after_subscribe(old(self).subscribers@, self.deliveries@, subscriber);
        }
    }

    /// Reads the current state.
    ///
    /// The result is the state of the store and depends on nothing else, so reading twice
    /// gives the same value unless a dispatch came in between.
    #[verifier::when_used_as_spec(spec_state)]
    pub fn state(&self) -> (current: &TState)
        ensures
            current == self.spec_state(),
    {
        &self.state
    }

    /// The state of a store is the left fold of its reducer over its history: if the
    /// reducer computes the function `f`, then after the actions `a_1, .., a_n` have been
    /// dispatched the state is `f(..f(f(initial, a_1), a_2).., a_n)`.
    pub proof fn lemma_state_is_fold(&self, f: spec_fn(TState, TAction) -> TState)
        requires
            self.wf(),
            computes(self.reducer(), f),
        ensures
            *self.state() == self.history().fold_left(self.initial(), f),
    {
        lemma_reaches_is_fold(self.reducer(), f, self.initial(), self.history(), *self.state());
    }
}

} // verus!
