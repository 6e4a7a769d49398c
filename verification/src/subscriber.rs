//! Subscribers and the record of what they were told.
//!
//! A subscriber is any function value `S: Fn(&TState)`. It is called for its effects, which
//! are outside of what a contract can see. What a contract can speak of is the call itself:
//! which subscriber was called, with which state, and after which other calls. The store
//! keeps that record as a ghost sequence of [`Delivery`] values.

use vstd::prelude::*;

verus! {

/// A subscriber given as a boxed closure, so that closures of different types can be
/// registered with one store.
pub type Subscriber<TState> = Box<dyn Fn(&TState)>;

/// One notification: the subscriber with registration number `subscriber` was called with
/// `state`. Registration numbers count from zero in the order of registration.
pub struct Delivery<TState> {
    pub subscriber: nat,
    pub state: TState,
}

/// The notifications of one dispatch that ends in `state` while `count` subscribers are
/// registered: one for each subscriber, in registration order, all with `state`.
pub open spec fn round<TState>(count: nat, state: TState) -> Seq<Delivery<TState>> {
    Seq::new(count, |i: int| Delivery { subscriber: i as nat, state })
}

/// `delivery` names one of `subscribers`, and a call of that subscriber with the delivered
/// state has returned.
pub open spec fn backed<TState, S: Fn(&TState)>(
    subscribers: Seq<S>,
    delivery: Delivery<TState>,
) -> bool {
    &&& delivery.subscriber < subscribers.len()
    &&& call_ensures(subscribers[delivery.subscriber as int], (&delivery.state,), ())
}

/// Every entry of `deliveries` is backed by a call of one of `subscribers`.
pub open spec fn all_backed<TState, S: Fn(&TState)>(
    subscribers: Seq<S>,
    deliveries: Seq<Delivery<TState>>,
) -> bool {
    forall|k: int| 0 <= k < deliveries.len() ==> backed(subscribers, #[trigger] deliveries[k])
}

/// A round names every subscriber exactly once, lists them in registration order, and
/// carries the same state in every entry: entry `i` is the notification of subscriber `i`,
/// and registration numbers strictly increase along the round.
pub proof fn lemma_round_once_each_in_order<TState>(count: nat, state: TState)
    ensures
        round(count, state).len() == count,
        forall|i: int|
            0 <= i < count ==> #[trigger] round(count, state)[i] == (Delivery {
                subscriber: i as nat,
                state,
            }),
        forall|i: int, j: int|
            0 <= i < j < count ==> (#[trigger] round(count, state)[i]).subscriber < (
            #[trigger] round(count, state)[j]).subscriber,
{
}

/// A round for one more subscriber is the shorter round followed by that subscriber's
/// notification.
pub proof fn lemma_round_push<TState>(count: nat, state: TState)
    ensures
        round(count + 1, state) == round(count, state).push(Delivery { subscriber: count, state }),
{
    assert(round(count + 1, state) =~= round(count, state).push(
        Delivery { subscriber: count, state },
    ));
}

/// Registering a subscriber keeps every recorded notification backed.
pub proof fn lemma_backed_after_subscribe<TState, S: Fn(&TState)>(
    subscribers: Seq<S>,
    deliveries: Seq<Delivery<TState>>,
    subscriber: S,
)
    requires
        all_backed(subscribers, deliveries),
    ensures
        all_backed(subscribers.push(subscriber), deliveries),
{
    assert forall|k: int| 0 <= k < deliveries.len() implies backed(
        subscribers.push(subscriber),
        #[trigger] deliveries[k],
    ) by {
        assert(backed(subscribers, deliveries[k]));
    }
}

/// Recording a notification that is backed keeps the whole record backed.
pub proof fn lemma_backed_after_delivery<TState, S: Fn(&TState)>(
    subscribers: Seq<S>,
    deliveries: Seq<Delivery<TState>>,
    delivery: Delivery<TState>,
)
    requires
        all_backed(subscribers, deliveries),
        backed(subscribers, delivery),
    ensures
        all_backed(subscribers, deliveries.push(delivery)),
{
    assert forall|k: int| 0 <= k < deliveries.push(delivery).len() implies backed(
        subscribers,
        #[trigger] deliveries.push(delivery)[k],
    ) by {
        if k < deliveries.len() {
            assert(backed(subscribers, deliveries[k]));
        }
    }
}

} // verus!
