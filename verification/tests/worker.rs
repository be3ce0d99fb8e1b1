use mini_ray::actors::{ActorInstanceStore, ActorRegistry};
use mini_ray::client;
use mini_ray::codec::{decode, encode};
use mini_ray::error::MiniRayError;
use mini_ray::head::HeadService;
use mini_ray::ids::{ObjectId, TaskId};
use mini_ray::messages::{CompleteTaskRequest, FailTaskRequest, TaskLease};
use mini_ray::refs::ObjectRef;
use mini_ray::runtime::TaskRegistry;
use mini_ray::worker::{
    execute_actor_lease, execute_lease, LeaseStep, Report, TaskExecution, Worker, WorkerConfig,
};
use std::time::Duration;

#[derive(Debug)]
struct Counter {
    value: u64,
}

fn increment(mut counter: Counter, delta: u64) -> (Counter, u64) {
    counter.value += delta;
    let value = counter.value;
    (counter, value)
}

fn counters() -> ActorRegistry<Counter> {
    let mut registry = ActorRegistry::new();
    registry
        .register_constructor_unary("Counter", |initial: u64| Counter { value: initial })
        .unwrap();
    registry
        .register_method_unary(
            "Counter",
            "increment",
            |state: Counter| Ok(state),
            |counter: Counter| counter,
            increment,
        )
        .unwrap();
    registry
}

fn lease(function_id: &str, dependencies: Vec<ObjectId>, output_id: ObjectId) -> TaskLease {
    TaskLease {
        task_id: TaskId::new().to_string(),
        function_id: function_id.to_string(),
        dependencies: dependencies
            .into_iter()
            .map(|object_id| object_id.to_string())
            .collect(),
        output_id: output_id.to_string(),
        attempt: 0,
        actor_id: String::new(),
        actor_type: String::new(),
        method_id: String::new(),
        constructor_dependencies: Vec::new(),
    }
}

fn call(dependencies: Vec<ObjectId>, constructor: Vec<ObjectId>) -> TaskLease {
    let mut lease = lease("actor:Counter:increment", dependencies, ObjectId::new());
    lease.actor_id = "counter-1".to_string();
    lease.actor_type = "Counter".to_string();
    lease.method_id = "increment".to_string();
    lease.constructor_dependencies = constructor
        .into_iter()
        .map(|object_id| object_id.to_string())
        .collect();
    lease
}

#[test]
fn execute_lease_runs_registered_handler() {
    let input_id = ObjectId::new();
    let output_id = ObjectId::new();
    let lease = lease("add_one", vec![input_id], output_id);
    let mut registry = TaskRegistry::new();
    registry
        .register_unary("add_one", |value: u64| value + 1)
        .unwrap();

    let execution = execute_lease(&registry, &lease, vec![encode(&41u64).unwrap()]).unwrap();
    let value: u64 = decode(&execution.data).unwrap();

    assert_eq!(execution.task_id, lease.task_id);
    assert_eq!(execution.output_id, output_id.to_string());
    assert_eq!(value, 42);
}

#[test]
fn execute_lease_rejects_missing_dependency_payloads() {
    let lease = lease("add_one", vec![ObjectId::new()], ObjectId::new());
    let registry = TaskRegistry::new();

    let err = execute_lease(&registry, &lease, vec![]).unwrap_err();

    assert!(matches!(err, MiniRayError::TaskFailed(_)));
    assert_eq!(
        err.to_string(),
        format!(
            "task failed: task {} expected 1 dependencies, got 0 payloads",
            lease.task_id
        )
    );
}

#[test]
fn execute_lease_returns_unknown_handler_error() {
    let lease = lease("missing", vec![], ObjectId::new());
    let registry = TaskRegistry::new();

    let err = execute_lease(&registry, &lease, vec![]).unwrap_err();

    assert!(matches!(err, MiniRayError::TaskFailed(_)));
}

#[test]
fn execute_actor_lease_preserves_actor_state() {
    let constructor_id = ObjectId::new();
    let first_delta_id = ObjectId::new();
    let second_delta_id = ObjectId::new();
    let output_id = ObjectId::new();
    let mut lease = lease("actor:Counter:increment", vec![first_delta_id], output_id);
    lease.actor_id = "counter-1".to_string();
    lease.actor_type = "Counter".to_string();
    lease.method_id = "increment".to_string();
    lease.constructor_dependencies = vec![constructor_id.to_string()];

    let registry = counters();
    let mut instances = ActorInstanceStore::new();

    let first = execute_actor_lease(
        &registry,
        &mut instances,
        &lease,
        vec![encode(&10u64).unwrap()],
        vec![encode(&2u64).unwrap()],
    )
    .unwrap();
    let mut second_lease = lease.clone();
    second_lease.dependencies = vec![second_delta_id.to_string()];
    let second = execute_actor_lease(
        &registry,
        &mut instances,
        &second_lease,
        vec![encode(&10u64).unwrap()],
        vec![encode(&5u64).unwrap()],
    )
    .unwrap();

    assert_eq!(decode::<u64>(&first.data).unwrap(), 12);
    assert_eq!(decode::<u64>(&second.data).unwrap(), 17);
}

#[test]
fn actor_leases_are_checked_before_they_run() {
    let registry = counters();
    let mut instances = ActorInstanceStore::new();
    let payload = || vec![encode(&1u64).unwrap()];

    let plain = lease("add_one", vec![], ObjectId::new());
    let err =
        execute_actor_lease(&registry, &mut instances, &plain, vec![], vec![]).unwrap_err();
    assert_eq!(
        err.to_string(),
        format!("task failed: task {} is not an actor lease", plain.task_id)
    );

    let lease = call(vec![ObjectId::new()], vec![ObjectId::new()]);
    let err =
        execute_actor_lease(&registry, &mut instances, &lease, vec![], payload()).unwrap_err();
    assert_eq!(
        err.to_string(),
        format!(
            "task failed: actor task {} expected 1 constructor dependencies, got 0 payloads",
            lease.task_id
        )
    );
    let err =
        execute_actor_lease(&registry, &mut instances, &lease, payload(), vec![]).unwrap_err();
    assert_eq!(
        err.to_string(),
        format!(
            "task failed: actor task {} expected 1 method dependencies, got 0 payloads",
            lease.task_id
        )
    );
    assert_eq!(instances.len(), 0);
}

#[test]
fn worker_config_has_at_least_one_slot() {
    let config = WorkerConfig::new("http://127.0.0.1:50051", 0);
    assert_eq!(config.head_endpoint, "http://127.0.0.1:50051");
    assert_eq!(config.slots, 1);
    assert_eq!(config.poll_capacity, 1);
    assert_eq!(config.poll_interval, Duration::from_millis(100));
    assert_eq!(config.heartbeat_interval, Duration::from_secs(1));

    let config = WorkerConfig::new("http://127.0.0.1:50051", 4).clone();
    assert_eq!(config.slots, 4);
    assert_eq!(config.poll_capacity, 4);
    assert_eq!(config.head_endpoint, "http://127.0.0.1:50051");
}

#[test]
fn worker_requests_name_the_worker() {
    let worker: Worker<Counter> = Worker::new(
        WorkerConfig::new("http://127.0.0.1:50051", 3),
        TaskRegistry::new(),
        ActorRegistry::new(),
    );
    let id = worker.worker_id().to_string();
    assert_eq!(worker.config().slots, 3);
    let register = worker.register_request();
    assert_eq!((register.worker_id, register.slots), (id.clone(), 3));
    let poll = worker.poll_request();
    assert_eq!((poll.worker_id, poll.capacity), (id.clone(), 3));
    let heartbeat = worker.heartbeat_request();
    assert_eq!(
        (heartbeat.worker_id, heartbeat.running, heartbeat.queued),
        (id, 0, 0)
    );
}

#[test]
fn a_lease_is_fetched_for_in_order_and_then_run() {
    let mut worker = Worker::new(
        WorkerConfig::new("http://127.0.0.1:50051", 1),
        TaskRegistry::new(),
        counters(),
    );
    let delta = ObjectId::new();
    let initial = ObjectId::new();
    let lease = call(vec![delta], vec![initial]);
    let task_id = lease.task_id.clone();
    let output_id = lease.output_id.clone();

    let LeaseStep::Fetch(request, run) = worker.start_lease(lease) else {
        panic!("nothing was fetched");
    };
    assert_eq!(request.object_id, delta.to_string());
    let LeaseStep::Fetch(request, run) =
        worker.continue_lease(run, Ok(encode(&2u64).unwrap()))
    else {
        panic!("the constructor's object was not fetched");
    };
    assert_eq!(request.object_id, initial.to_string());
    let LeaseStep::Report(Report::Complete(report)) =
        worker.continue_lease(run, Ok(encode(&10u64).unwrap()))
    else {
        panic!("the call was not run");
    };
    assert_eq!(
        report,
        CompleteTaskRequest {
            worker_id: worker.worker_id().to_string(),
            task_id,
            output_id,
            data: encode(&12u64).unwrap(),
        }
    );
}

#[test]
fn a_failed_fetch_is_reported() {
    let mut worker: Worker<Counter> = Worker::new(
        WorkerConfig::new("http://127.0.0.1:50051", 1),
        TaskRegistry::new(),
        ActorRegistry::new(),
    );
    let lease = lease("add_one", vec![ObjectId::new()], ObjectId::new());
    let task_id = lease.task_id.clone();

    let LeaseStep::Fetch(_, run) = worker.start_lease(lease) else {
        panic!("nothing was fetched");
    };
    let LeaseStep::Report(Report::Fail(report)) =
        worker.continue_lease(run, Err("gone".to_string()))
    else {
        panic!("the failure was not reported");
    };
    assert_eq!(
        report,
        FailTaskRequest {
            worker_id: worker.worker_id().to_string(),
            task_id,
            error: "transport error: gone".to_string(),
        }
    );
}

#[test]
fn a_failed_task_is_reported() {
    let mut worker: Worker<Counter> = Worker::new(
        WorkerConfig::new("http://127.0.0.1:50051", 1),
        TaskRegistry::new(),
        ActorRegistry::new(),
    );
    let LeaseStep::Report(Report::Fail(report)) =
        worker.start_lease(lease("missing", vec![], ObjectId::new()))
    else {
        panic!("the failure was not reported");
    };
    assert_eq!(report.error, "task failed: unknown handler missing");
}

#[test]
fn executions_are_copied() {
    let execution = TaskExecution {
        task_id: "t".to_string(),
        output_id: "o".to_string(),
        data: vec![1, 2],
    };
    assert_eq!(execution.clone(), execution);
}

#[test]
fn object_ref_ids_preserves_dependency_order() {
    let first = ObjectRef::<()>::new(ObjectId::new(), "()");
    let second = ObjectRef::<()>::new(ObjectId::new(), "()");

    let ids = client::object_ref_ids(vec![first, second]);

    assert_eq!(ids, vec![first.id().to_string(), second.id().to_string()]);
}

fn poll_and_execute_once<S>(head: &mut HeadService, worker: &mut Worker<S>) -> usize {
    let response = head.poll_task(worker.poll_request()).unwrap();
    let task_count = response.tasks.len();
    for lease in response.tasks {
        let mut step = worker.start_lease(lease);
        loop {
            step = match step {
                LeaseStep::Fetch(request, run) => {
                    let answer = head
                        .get_object(request)
                        .map(|response| response.data)
                        .map_err(|status| status.message);
                    worker.continue_lease(run, answer)
                }
                LeaseStep::Report(Report::Complete(request)) => {
                    head.complete_task(request).unwrap();
                    break;
                }
                LeaseStep::Report(Report::Fail(request)) => {
                    head.fail_task(request).unwrap();
                    break;
                }
            };
        }
    }
    task_count
}

fn put(head: &mut HeadService, value: u64) -> ObjectRef<u64> {
    let response = head.put_object(client::put_request(&value).unwrap()).unwrap();
    client::put_response(response, "u64").unwrap()
}

fn get(head: &HeadService, object_ref: ObjectRef<u64>) -> Result<u64, String> {
    match head.get_object(client::get_request(object_ref)) {
        Ok(response) => Ok(client::get_response(response).unwrap()),
        Err(status) => Err(status.message),
    }
}

#[test]
fn task_runs_end_to_end() {
    let mut head = HeadService::with_defaults();
    let mut registry = TaskRegistry::new();
    registry
        .register_unary("add_one", |value: u64| value + 1)
        .unwrap();
    let mut worker: Worker<Counter> = Worker::new(
        WorkerConfig::new("http://127.0.0.1:50051", 1),
        registry,
        ActorRegistry::new(),
    );
    head.register_worker(worker.register_request()).unwrap();

    let input = put(&mut head, 41);
    let request = client::submit_request("add_one", client::erase_refs(vec![input]));
    let output =
        client::submit_response(head.submit_task(request).unwrap(), "u64").unwrap();

    assert_eq!(poll_and_execute_once(&mut head, &mut worker), 1);
    assert_eq!(get(&head, output), Ok(42u64));
}

#[test]
fn actor_preserves_state_end_to_end() {
    let mut head = HeadService::with_defaults();
    let mut worker = Worker::new(
        WorkerConfig::new("http://127.0.0.1:50051", 1),
        TaskRegistry::new(),
        counters(),
    );
    head.register_worker(worker.register_request()).unwrap();

    let initial = put(&mut head, 10);
    let request = client::create_actor_request("Counter", client::erase_refs(vec![initial]), 0);
    let counter = client::create_actor_response::<Counter>(
        head.create_actor(request).unwrap(),
        "Counter",
    )
    .unwrap();

    let first_delta = put(&mut head, 2);
    let request = client::call_actor_request(
        counter.erase(),
        "increment",
        client::erase_refs(vec![first_delta]),
    );
    let first =
        client::call_actor_response(head.submit_actor_task(request).unwrap(), "u64").unwrap();
    assert_eq!(poll_and_execute_once(&mut head, &mut worker), 1);
    assert_eq!(get(&head, first), Ok(12u64));

    let second_delta = put(&mut head, 5);
    let request = client::call_actor_request(
        counter.erase(),
        "increment",
        client::erase_refs(vec![second_delta]),
    );
    let second =
        client::call_actor_response(head.submit_actor_task(request).unwrap(), "u64").unwrap();
    assert_eq!(poll_and_execute_once(&mut head, &mut worker), 1);
    assert_eq!(get(&head, second), Ok(17u64));
}
