use redux_rs::{Reducer, Store, Subscriber};

enum TestActions {
    INCREMENT(i32),
    DECREMENT(i32),
}

fn test_reducer(state: &i32, action: TestActions) -> i32 {
    match action {
        TestActions::INCREMENT(x) => state + x,
        TestActions::DECREMENT(x) => state - x,
    }
}

type Counter = Store<i32, TestActions, Reducer<i32, TestActions>, Subscriber<i32>>;

#[test]
fn new_default_state_works() {
    // Create the store
    let store = Counter::new(test_reducer, 1);

    // Test if the default state is set as desired
    let expected = &1;
    let actual = store.state();
    assert_eq!(expected, actual)
}

#[test]
fn dispatch_increment_once() {
    // Create the store
    let mut store = Counter::new(test_reducer, 1);

    // Dispatch our first action
    store.dispatch(TestActions::INCREMENT(1));

    // Test if the new state has the desired value
    let expected = &2;
    let actual = store.state();
    assert_eq!(expected, actual)
}

#[test]
fn dispatch_decrement_once() {
    // Create the store
    let mut store = Counter::new(test_reducer, 1);

    // Dispatch our first action
    store.dispatch(TestActions::DECREMENT(1));

    // Test if the new state has the desired value
    let expected = &0;
    let actual = store.state();
    assert_eq!(expected, actual)
}

#[test]
fn dispatch_mixed() {
    // Create the store
    let mut store = Counter::new(test_reducer, 0);

    // Dispatch multiple actions
    store.dispatch(TestActions::DECREMENT(12));
    store.dispatch(TestActions::DECREMENT(31));
    store.dispatch(TestActions::INCREMENT(15));
    store.dispatch(TestActions::DECREMENT(78));
    store.dispatch(TestActions::INCREMENT(12));
    store.dispatch(TestActions::INCREMENT(14));

    // Test if the new state has the desired value
    let expected = &-80;
    let actual = store.state();
    assert_eq!(expected, actual)
}

#[test]
fn dispatch_mixed_passes_through_every_partial_sum() {
    let mut store = Counter::new(test_reducer, 0);
    let mut seen = Vec::new();

    store.dispatch(TestActions::DECREMENT(12));
    seen.push(*store.state());
    store.dispatch(TestActions::DECREMENT(31));
    seen.push(*store.state());
    store.dispatch(TestActions::INCREMENT(15));
    seen.push(*store.state());
    store.dispatch(TestActions::DECREMENT(78));
    seen.push(*store.state());
    store.dispatch(TestActions::INCREMENT(12));
    seen.push(*store.state());
    store.dispatch(TestActions::INCREMENT(14));
    seen.push(*store.state());

    assert_eq!(seen, vec![-12, -43, -28, -106, -94, -80]);
}

#[test]
fn state_can_be_read_repeatedly() {
    let mut store = Counter::new(test_reducer, 7);
    assert_eq!(store.state(), store.state());
    assert_eq!(*store.state(), 7);

    store.dispatch(TestActions::INCREMENT(3));
    let first = *store.state();
    let second = *store.state();
    let third = *store.state();
    assert_eq!(first, 10);
    assert_eq!(second, 10);
    assert_eq!(third, 10);
}

#[test]
fn subscribe_leaves_state_alone() {
    let mut store = Counter::new(test_reducer, 5);
    store.subscribe(Box::new(|_state: &i32| {}));
    assert_eq!(*store.state(), 5);

    store.dispatch(TestActions::DECREMENT(8));
    assert_eq!(*store.state(), -3);
    store.subscribe(Box::new(|_state: &i32| {}));
    store.subscribe(Box::new(|_state: &i32| {}));
    assert_eq!(*store.state(), -3);
}

#[test]
fn state_is_not_copied_for_owned_types() {
    fn append(state: &String, action: char) -> String {
        let mut next = state.clone();
        next.push(action);
        next
    }
    let mut store =
        Store::<String, char, Reducer<String, char>, Subscriber<String>>::new(append, String::new());
    assert_eq!(store.state(), "");
    store.dispatch('a');
    store.dispatch('b');
    store.dispatch('c');
    assert_eq!(store.state(), "abc");
}

#[test]
fn reducer_may_be_a_capturing_closure() {
    let base = 10;
    let shift_in = move |state: &i64, digit: i64| state * base + digit;
    let mut store = Store::new(shift_in, 0);
    store.subscribe(|_state: &i64| {});
    store.dispatch(1);
    store.dispatch(2);
    store.dispatch(3);
    assert_eq!(*store.state(), 123);
}
