use mini_ray::actors::{ActorInstanceStore, ActorRegistry};
use mini_ray::codec::{decode, encode};
use mini_ray::error::MiniRayError;
use mini_ray::runtime::{expect_arg_count, TaskRegistry};
use std::any::Any;

#[derive(Debug)]
struct Counter {
    value: u64,
}

type State = Box<dyn Any + Send>;

fn counter(state: State) -> Result<Counter, State> {
    state.downcast::<Counter>().map(|counter| *counter)
}

fn boxed(counter: Counter) -> State {
    Box::new(counter)
}

fn increment(mut counter: Counter, delta: u64) -> (Counter, u64) {
    counter.value += delta;
    let value = counter.value;
    (counter, value)
}

fn counters() -> ActorRegistry<State> {
    let mut registry = ActorRegistry::new();
    registry
        .register_constructor_unary("Counter", |initial: u64| boxed(Counter { value: initial }))
        .unwrap();
    registry
        .register_method_unary("Counter", "increment", counter, boxed, increment)
        .unwrap();
    registry
}

#[test]
fn register_and_execute_unary_handler() {
    let mut registry = TaskRegistry::new();
    registry
        .register_unary("add_one", |value: u64| value + 1)
        .unwrap();

    let output = registry
        .execute("add_one", vec![encode(&41u64).unwrap()])
        .unwrap();
    let value: u64 = decode(&output).unwrap();

    assert_eq!(value, 42);
}

#[test]
fn register_and_execute_binary_handler() {
    let mut registry = TaskRegistry::new();
    registry
        .register_binary("add", |left: u64, right: u64| left + right)
        .unwrap();

    let output = registry
        .execute("add", vec![encode(&40u64).unwrap(), encode(&2u64).unwrap()])
        .unwrap();
    let value: u64 = decode(&output).unwrap();

    assert_eq!(value, 42);
}

#[test]
fn register_and_execute_nullary_handler() {
    let mut registry = TaskRegistry::new();
    registry.register_nullary("answer", || 42u64).unwrap();

    let output = registry.execute("answer", vec![]).unwrap();
    let value: u64 = decode(&output).unwrap();

    assert_eq!(value, 42);
}

#[test]
fn unknown_handler_returns_error() {
    let registry = TaskRegistry::new();
    let err = registry.execute("missing", vec![]).unwrap_err();

    assert!(matches!(err, MiniRayError::TaskFailed(_)));
    assert_eq!(err.to_string(), "task failed: unknown handler missing");
}

#[test]
fn duplicate_handler_is_rejected() {
    let mut registry = TaskRegistry::new();
    registry.register_nullary("answer", || 42u64).unwrap();
    let err = registry.register_nullary("answer", || 43u64).unwrap_err();

    assert!(matches!(err, MiniRayError::TaskFailed(_)));
    assert_eq!(
        err.to_string(),
        "task failed: handler answer is already registered"
    );
    let output = registry.execute("answer", vec![]).unwrap();
    assert_eq!(decode::<u64>(&output).unwrap(), 42);
}

#[test]
fn wrong_arg_count_returns_error() {
    let mut registry = TaskRegistry::new();
    registry
        .register_unary("add_one", |value: u64| value + 1)
        .unwrap();

    let err = registry.execute("add_one", vec![]).unwrap_err();

    assert!(matches!(err, MiniRayError::TaskFailed(_)));
    assert_eq!(err.to_string(), "task failed: expected 1 args, got 0");
}

#[test]
fn decode_error_is_returned() {
    let mut registry = TaskRegistry::new();
    registry
        .register_unary("add_one", |value: u64| value + 1)
        .unwrap();

    let err = registry
        .execute("add_one", vec![vec![1, 2, 3]])
        .unwrap_err();

    assert!(matches!(err, MiniRayError::Decode(_)));
}

#[test]
fn actor_instance_preserves_state_across_method_calls() {
    let registry = counters();
    let mut instances = ActorInstanceStore::new();

    let first = instances
        .execute(
            &registry,
            "actor-1",
            "Counter",
            "increment",
            vec![encode(&10u64).unwrap()],
            vec![encode(&2u64).unwrap()],
        )
        .unwrap();
    let second = instances
        .execute(
            &registry,
            "actor-1",
            "Counter",
            "increment",
            vec![],
            vec![encode(&5u64).unwrap()],
        )
        .unwrap();

    assert_eq!(decode::<u64>(&first).unwrap(), 12);
    assert_eq!(decode::<u64>(&second).unwrap(), 17);
    assert_eq!(instances.len(), 1);
}

#[test]
fn unknown_actor_method_returns_error() {
    let mut registry = ActorRegistry::new();
    registry
        .register_constructor_nullary("Counter", || boxed(Counter { value: 0 }))
        .unwrap();
    let mut instances = ActorInstanceStore::new();

    let err = instances
        .execute(&registry, "actor-1", "Counter", "missing", vec![], vec![])
        .unwrap_err();

    assert!(matches!(err, MiniRayError::TaskFailed(_)));
    assert_eq!(
        err.to_string(),
        "task failed: unknown actor method Counter.missing"
    );
    assert_eq!(instances.len(), 1);
}

#[test]
fn registered_names_are_counted() {
    let mut registry = TaskRegistry::new();
    assert!(registry.is_empty());
    assert_eq!(registry.len(), 0);
    assert!(!registry.contains("echo"));

    registry
        .register_raw("echo", |args: Vec<Vec<u8>>| Ok(args.concat()))
        .unwrap();
    registry.register_nullary("answer", || 42u64).unwrap();

    assert!(!registry.is_empty());
    assert_eq!(registry.len(), 2);
    assert!(registry.contains("echo"));
    assert!(!registry.contains("ech"));
    assert_eq!(
        registry.execute("echo", vec![vec![1, 2], vec![3]]).unwrap(),
        vec![1, 2, 3]
    );
}

#[test]
fn the_first_bad_argument_is_reported() {
    let mut registry = TaskRegistry::new();
    registry
        .register_binary("add", |left: u64, right: u64| left + right)
        .unwrap();

    let good = encode(&40u64).unwrap();
    let err = registry
        .execute("add", vec![good.clone(), vec![1]])
        .unwrap_err();
    assert!(matches!(err, MiniRayError::Decode(_)));
    let err = registry.execute("add", vec![good.clone()]).unwrap_err();
    assert_eq!(err.to_string(), "task failed: expected 2 args, got 1");
    let err = registry
        .execute("add", vec![good.clone(), good.clone(), good])
        .unwrap_err();
    assert_eq!(err.to_string(), "task failed: expected 2 args, got 3");
}

#[test]
fn argument_counts_are_written_out() {
    let twelve = vec![Vec::new(); 12];
    assert!(expect_arg_count(&twelve, 12).is_ok());
    let err = expect_arg_count(&twelve, 107).unwrap_err();
    assert_eq!(err.to_string(), "task failed: expected 107 args, got 12");
}

#[test]
fn constructors_and_methods_are_registered_once() {
    let mut registry = counters();
    let err = registry
        .register_constructor_nullary("Counter", || boxed(Counter { value: 0 }))
        .unwrap_err();
    assert_eq!(
        err.to_string(),
        "task failed: actor constructor Counter is already registered"
    );
    let err = registry
        .register_method_raw("Counter", "increment", |state: State, _args| {
            (state, Ok(vec![]))
        })
        .unwrap_err();
    assert_eq!(
        err.to_string(),
        "task failed: actor method Counter.increment is already registered"
    );
    registry
        .register_method_raw("Counter", "reset", |_state: State, _args| {
            (boxed(Counter { value: 0 }), Ok(vec![9]))
        })
        .unwrap();
    registry
        .register_constructor_raw("Other", |_args| Ok(Box::new(7u8) as State))
        .unwrap();

    let mut instances = ActorInstanceStore::new();
    let args = || vec![encode(&10u64).unwrap()];
    instances
        .execute(&registry, "a", "Counter", "increment", args(), args())
        .unwrap();
    let reset = instances
        .execute(&registry, "a", "Counter", "reset", vec![], vec![])
        .unwrap();
    assert_eq!(reset, vec![9]);
    let after = instances
        .execute(&registry, "a", "Counter", "increment", vec![], args())
        .unwrap();
    assert_eq!(decode::<u64>(&after).unwrap(), 10);
}

#[test]
fn an_actor_keeps_its_type() {
    let mut registry = counters();
    registry
        .register_constructor_raw("Other", |_args| Ok(Box::new(7u8) as State))
        .unwrap();
    let mut instances = ActorInstanceStore::new();
    let args = || vec![encode(&10u64).unwrap()];
    instances
        .execute(&registry, "a", "Counter", "increment", args(), args())
        .unwrap();

    let err = instances
        .execute(&registry, "a", "Other", "increment", vec![], args())
        .unwrap_err();
    assert_eq!(err.to_string(), "task failed: actor a is Counter, not Other");
    let after = instances
        .execute(&registry, "a", "Counter", "increment", vec![], args())
        .unwrap();
    assert_eq!(decode::<u64>(&after).unwrap(), 30);
}

#[test]
fn an_actor_that_cannot_be_made_does_not_exist() {
    let registry = counters();
    let mut instances = ActorInstanceStore::new();

    let err = instances
        .execute(&registry, "a", "Missing", "increment", vec![], vec![])
        .unwrap_err();
    assert_eq!(
        err.to_string(),
        "task failed: unknown actor constructor Missing"
    );
    let err = instances
        .execute(&registry, "a", "Counter", "increment", vec![], vec![])
        .unwrap_err();
    assert_eq!(err.to_string(), "task failed: expected 1 args, got 0");
    let err = instances
        .execute(&registry, "a", "Counter", "increment", vec![vec![1]], vec![])
        .unwrap_err();
    assert!(matches!(err, MiniRayError::Decode(_)));
    assert_eq!(instances.len(), 0);
}

#[test]
fn a_failed_call_leaves_the_state() {
    let mut registry = counters();
    registry
        .register_constructor_raw("Other", |_args| Ok(Box::new(7u8) as State))
        .unwrap();
    registry
        .register_method_unary("Other", "increment", counter, boxed, increment)
        .unwrap();
    let mut instances = ActorInstanceStore::new();
    let args = || vec![encode(&10u64).unwrap()];
    instances
        .execute(&registry, "a", "Counter", "increment", args(), args())
        .unwrap();

    let err = instances
        .execute(&registry, "a", "Counter", "increment", vec![], vec![])
        .unwrap_err();
    assert_eq!(err.to_string(), "task failed: expected 1 args, got 0");
    let err = instances
        .execute(&registry, "a", "Counter", "increment", vec![], vec![vec![1]])
        .unwrap_err();
    assert!(matches!(err, MiniRayError::Decode(_)));
    let err = instances
        .execute(&registry, "b", "Other", "increment", vec![], args())
        .unwrap_err();
    assert_eq!(
        err.to_string(),
        "task failed: actor state type mismatch for Other"
    );
    let after = instances
        .execute(&registry, "a", "Counter", "increment", vec![], args())
        .unwrap();
    assert_eq!(decode::<u64>(&after).unwrap(), 30);
    assert_eq!(instances.len(), 2);
}

#[test]
fn default_registries_are_empty() {
    assert!(TaskRegistry::default().is_empty());
    let registry: ActorRegistry<State> = ActorRegistry::default();
    let mut instances = ActorInstanceStore::default();
    assert_eq!(instances.len(), 0);
    assert!(instances
        .execute(&registry, "a", "Counter", "increment", vec![], vec![])
        .is_err());
}

#[test]
fn a_copied_registry_runs_the_same() {
    let mut registry = TaskRegistry::new();
    registry
        .register_unary("add_one", |value: u64| value + 1)
        .unwrap();
    let mut copy = registry.clone();
    copy.register_nullary("answer", || 42u64).unwrap();

    assert_eq!(registry.len(), 1);
    assert_eq!(copy.len(), 2);
    let args = || vec![encode(&41u64).unwrap()];
    assert_eq!(
        copy.execute("add_one", args()).unwrap(),
        registry.execute("add_one", args()).unwrap()
    );

    let actors = counters().clone();
    let mut instances = ActorInstanceStore::new();
    let out = instances
        .execute(&actors, "a", "Counter", "increment", args(), args())
        .unwrap();
    assert_eq!(decode::<u64>(&out).unwrap(), 82);
}
