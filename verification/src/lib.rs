//! A minimal unidirectional state container.
//!
//! A [`Store`] owns one state value. The state changes only when an action is dispatched:
//! the store's reducer computes the next state from the current one and the action, the
//! store takes that state in place of the old one, and then every subscriber is called with
//! the new state, in the order in which the subscribers were registered.
//!
//! The contracts describe a store by the run that led to it: the state it started in, the
//! actions dispatched since, the state it holds now, and the notifications it has delivered.

pub mod reducer;
pub mod store;
pub mod subscriber;

pub use reducer::Reducer;
pub use store::Store;
pub use subscriber::Subscriber;
