use mini_ray::codec::{decode, encode};
use mini_ray::error::MiniRayError;
use mini_ray::head::HeadService;
use mini_ray::ids::{ActorId, ObjectId, WorkerId};
use mini_ray::messages::{
    Code, CompleteTaskRequest, CreateActorRequest, GetObjectRequest, HeartbeatRequest,
    PollTaskRequest, PutObjectRequest, RegisterWorkerRequest, SubmitActorTaskRequest,
    SubmitTaskRequest, UnregisterWorkerRequest,
};
use mini_ray::object_store::InMemoryObjectStore;
use mini_ray::scheduler::Scheduler;
use std::time::{Duration, Instant};

#[test]
fn put_and_get_object_round_trip() {
    let mut service = HeadService::with_defaults();
    let object_id = ObjectId::new();
    let data = encode(&41u64).unwrap();

    service
        .put_object(PutObjectRequest {
            object_id: object_id.to_string(),
            data,
        })
        .unwrap();

    let response = service
        .get_object(GetObjectRequest {
            object_id: object_id.to_string(),
        })
        .unwrap();
    let value: u64 = decode(&response.data).unwrap();

    assert_eq!(response.object_id, object_id.to_string());
    assert_eq!(value, 41);
}

#[test]
fn submit_and_poll_ready_task() {
    let mut service = HeadService::with_defaults();
    let worker_id = WorkerId::new();
    let output_id = ObjectId::new();

    service
        .register_worker(RegisterWorkerRequest {
            worker_id: worker_id.to_string(),
            slots: 1,
        })
        .unwrap();
    let submitted = service
        .submit_task(SubmitTaskRequest {
            function_id: "add_one".to_string(),
            dependencies: vec![],
            output_id: output_id.to_string(),
            max_retries: 1,
        })
        .unwrap();

    let polled = service
        .poll_task(PollTaskRequest {
            worker_id: worker_id.to_string(),
            capacity: 1,
        })
        .unwrap();

    assert_eq!(polled.tasks.len(), 1);
    assert_eq!(polled.tasks[0].task_id, submitted.task_id);
    assert_eq!(polled.tasks[0].function_id, "add_one");
    assert_eq!(polled.tasks[0].output_id, output_id.to_string());
}

#[test]
fn completion_stores_output_for_get() {
    let mut service = HeadService::with_defaults();
    let worker_id = WorkerId::new();
    let output_id = ObjectId::new();

    service
        .register_worker(RegisterWorkerRequest {
            worker_id: worker_id.to_string(),
            slots: 1,
        })
        .unwrap();
    let submitted = service
        .submit_task(SubmitTaskRequest {
            function_id: "add_one".to_string(),
            dependencies: vec![],
            output_id: output_id.to_string(),
            max_retries: 1,
        })
        .unwrap();
    service
        .poll_task(PollTaskRequest {
            worker_id: worker_id.to_string(),
            capacity: 1,
        })
        .unwrap();

    service
        .complete_task(CompleteTaskRequest {
            worker_id: worker_id.to_string(),
            task_id: submitted.task_id,
            output_id: output_id.to_string(),
            data: encode(&42u64).unwrap(),
        })
        .unwrap();

    let response = service
        .get_object(GetObjectRequest {
            object_id: output_id.to_string(),
        })
        .unwrap();
    let value: u64 = decode(&response.data).unwrap();

    assert_eq!(value, 42);
}

#[test]
fn wrong_worker_completion_does_not_store_output() {
    let mut service = HeadService::with_defaults();
    let owner = WorkerId::new();
    let other = WorkerId::new();
    let output_id = ObjectId::new();

    service
        .register_worker(RegisterWorkerRequest {
            worker_id: owner.to_string(),
            slots: 1,
        })
        .unwrap();
    service
        .register_worker(RegisterWorkerRequest {
            worker_id: other.to_string(),
            slots: 1,
        })
        .unwrap();
    let submitted = service
        .submit_task(SubmitTaskRequest {
            function_id: "add_one".to_string(),
            dependencies: vec![],
            output_id: output_id.to_string(),
            max_retries: 1,
        })
        .unwrap();
    service
        .poll_task(PollTaskRequest {
            worker_id: owner.to_string(),
            capacity: 1,
        })
        .unwrap();

    let err = service
        .complete_task(CompleteTaskRequest {
            worker_id: other.to_string(),
            task_id: submitted.task_id,
            output_id: output_id.to_string(),
            data: encode(&42u64).unwrap(),
        })
        .unwrap_err();

    assert_eq!(err.code, Code::FailedPrecondition);
    assert!(matches!(
        service.object_store().get_bytes(output_id),
        Err(MiniRayError::MissingObject(_))
    ));
}

#[test]
fn dependency_becomes_ready_after_put() {
    let mut service = HeadService::with_defaults();
    let worker_id = WorkerId::new();
    let input_id = ObjectId::new();
    let output_id = ObjectId::new();

    service
        .register_worker(RegisterWorkerRequest {
            worker_id: worker_id.to_string(),
            slots: 1,
        })
        .unwrap();
    service
        .submit_task(SubmitTaskRequest {
            function_id: "add_one".to_string(),
            dependencies: vec![input_id.to_string()],
            output_id: output_id.to_string(),
            max_retries: 1,
        })
        .unwrap();

    let before_put = service
        .poll_task(PollTaskRequest {
            worker_id: worker_id.to_string(),
            capacity: 1,
        })
        .unwrap();
    assert!(before_put.tasks.is_empty());

    service
        .put_object(PutObjectRequest {
            object_id: input_id.to_string(),
            data: encode(&41u64).unwrap(),
        })
        .unwrap();

    let after_put = service
        .poll_task(PollTaskRequest {
            worker_id: worker_id.to_string(),
            capacity: 1,
        })
        .unwrap();
    assert_eq!(after_put.tasks.len(), 1);
}

#[test]
fn actor_creation_records_metadata_and_actor_task_can_be_polled() {
    let mut service = HeadService::with_defaults();
    let actor_id = ActorId::new();
    let worker_id = WorkerId::new();
    let output_id = ObjectId::new();

    service
        .register_worker(RegisterWorkerRequest {
            worker_id: worker_id.to_string(),
            slots: 1,
        })
        .unwrap();
    let created = service
        .create_actor(CreateActorRequest {
            actor_type: "Counter".to_string(),
            constructor_dependencies: vec![],
            actor_id: actor_id.to_string(),
            max_restarts: 0,
        })
        .unwrap();
    assert_eq!(created.actor_id, actor_id.to_string());
    assert_eq!(service.actor_count(), 1);

    service
        .submit_actor_task(SubmitActorTaskRequest {
            actor_id: actor_id.to_string(),
            method_id: "increment".to_string(),
            dependencies: vec![],
            output_id: output_id.to_string(),
            max_retries: 1,
        })
        .unwrap();

    let polled = service
        .poll_task(PollTaskRequest {
            worker_id: worker_id.to_string(),
            capacity: 1,
        })
        .unwrap();

    assert_eq!(polled.tasks.len(), 1);
    assert!(polled.tasks[0].function_id.contains("Counter"));
    assert!(polled.tasks[0].function_id.contains("increment"));
}

#[test]
fn actor_tasks_are_pinned_to_first_worker_that_polls_actor() {
    let mut service = HeadService::with_defaults();
    let actor_id = ActorId::new();
    let owner = WorkerId::new();
    let other = WorkerId::new();
    let first_output = ObjectId::new();
    let second_output = ObjectId::new();

    for worker_id in [owner, other] {
        service
            .register_worker(RegisterWorkerRequest {
                worker_id: worker_id.to_string(),
                slots: 1,
            })
            .unwrap();
    }
    service
        .create_actor(CreateActorRequest {
            actor_type: "Counter".to_string(),
            constructor_dependencies: vec![],
            actor_id: actor_id.to_string(),
            max_restarts: 0,
        })
        .unwrap();
    let first = service
        .submit_actor_task(SubmitActorTaskRequest {
            actor_id: actor_id.to_string(),
            method_id: "increment".to_string(),
            dependencies: vec![],
            output_id: first_output.to_string(),
            max_retries: 1,
        })
        .unwrap();

    let first_poll = service
        .poll_task(PollTaskRequest {
            worker_id: owner.to_string(),
            capacity: 1,
        })
        .unwrap();
    assert_eq!(first_poll.tasks.len(), 1);
    assert_eq!(first_poll.tasks[0].actor_id, actor_id.to_string());
    assert_eq!(first_poll.tasks[0].actor_type, "Counter");
    assert_eq!(first_poll.tasks[0].method_id, "increment");

    service
        .complete_task(CompleteTaskRequest {
            worker_id: owner.to_string(),
            task_id: first.task_id,
            output_id: first_output.to_string(),
            data: encode(&1u64).unwrap(),
        })
        .unwrap();

    service
        .submit_actor_task(SubmitActorTaskRequest {
            actor_id: actor_id.to_string(),
            method_id: "increment".to_string(),
            dependencies: vec![],
            output_id: second_output.to_string(),
            max_retries: 1,
        })
        .unwrap();

    let wrong_worker_poll = service
        .poll_task(PollTaskRequest {
            worker_id: other.to_string(),
            capacity: 1,
        })
        .unwrap();
    assert!(wrong_worker_poll.tasks.is_empty());

    let owner_poll = service
        .poll_task(PollTaskRequest {
            worker_id: owner.to_string(),
            capacity: 1,
        })
        .unwrap();
    assert_eq!(owner_poll.tasks.len(), 1);
    assert_eq!(owner_poll.tasks[0].actor_id, actor_id.to_string());
}

#[test]
fn unregistering_worker_releases_actor_to_replacement_worker() {
    let mut service = HeadService::with_defaults();
    let actor_id = ActorId::new();
    let owner = WorkerId::new();
    let replacement = WorkerId::new();

    for worker_id in [owner, replacement] {
        service
            .register_worker(RegisterWorkerRequest {
                worker_id: worker_id.to_string(),
                slots: 1,
            })
            .unwrap();
    }
    service
        .create_actor(CreateActorRequest {
            actor_type: "Counter".to_string(),
            constructor_dependencies: vec![],
            actor_id: actor_id.to_string(),
            max_restarts: 1,
        })
        .unwrap();
    let first_output = ObjectId::new();
    let first = service
        .submit_actor_task(SubmitActorTaskRequest {
            actor_id: actor_id.to_string(),
            method_id: "increment".to_string(),
            dependencies: vec![],
            output_id: first_output.to_string(),
            max_retries: 1,
        })
        .unwrap();
    service
        .poll_task(PollTaskRequest {
            worker_id: owner.to_string(),
            capacity: 1,
        })
        .unwrap();
    service
        .complete_task(CompleteTaskRequest {
            worker_id: owner.to_string(),
            task_id: first.task_id,
            output_id: first_output.to_string(),
            data: encode(&1u64).unwrap(),
        })
        .unwrap();

    service
        .unregister_worker(UnregisterWorkerRequest {
            worker_id: owner.to_string(),
        })
        .unwrap();
    service
        .submit_actor_task(SubmitActorTaskRequest {
            actor_id: actor_id.to_string(),
            method_id: "increment".to_string(),
            dependencies: vec![],
            output_id: ObjectId::new().to_string(),
            max_retries: 1,
        })
        .unwrap();

    let polled = service
        .poll_task(PollTaskRequest {
            worker_id: replacement.to_string(),
            capacity: 1,
        })
        .unwrap();

    assert_eq!(polled.tasks.len(), 1);
    assert_eq!(polled.tasks[0].actor_id, actor_id.to_string());
}

#[test]
fn cleanup_expired_workers_retries_leased_task() {
    let mut service = HeadService::new(
        InMemoryObjectStore::new(),
        Scheduler::new(Duration::from_secs(1)),
    );
    let expired = WorkerId::new();
    let replacement = WorkerId::new();
    for worker_id in [expired, replacement] {
        service
            .register_worker(RegisterWorkerRequest {
                worker_id: worker_id.to_string(),
                slots: 1,
            })
            .unwrap();
    }
    let submitted = service
        .submit_task(SubmitTaskRequest {
            function_id: "noop".to_string(),
            dependencies: vec![],
            output_id: ObjectId::new().to_string(),
            max_retries: 1,
        })
        .unwrap();
    service
        .poll_task(PollTaskRequest {
            worker_id: expired.to_string(),
            capacity: 1,
        })
        .unwrap();
    service
        .heartbeat_at(
            HeartbeatRequest {
                worker_id: expired.to_string(),
                running: 0,
                queued: 0,
            },
            Instant::now() - Duration::from_secs(2),
        )
        .unwrap();

    assert_eq!(service.cleanup_expired_workers(), 1);
    let polled = service
        .poll_task(PollTaskRequest {
            worker_id: replacement.to_string(),
            capacity: 1,
        })
        .unwrap();

    assert_eq!(polled.tasks.len(), 1);
    assert_eq!(polled.tasks[0].task_id, submitted.task_id);
    assert_eq!(polled.tasks[0].attempt, 1);
}

#[test]
fn unknown_actor_task_is_rejected() {
    let mut service = HeadService::with_defaults();
    let err = service
        .submit_actor_task(SubmitActorTaskRequest {
            actor_id: ActorId::new().to_string(),
            method_id: "increment".to_string(),
            dependencies: vec![],
            output_id: ObjectId::new().to_string(),
            max_retries: 1,
        })
        .unwrap_err();

    assert_eq!(err.code, Code::NotFound);
}
