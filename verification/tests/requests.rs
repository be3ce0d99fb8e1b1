use mini_ray::client;
use mini_ray::error::MiniRayError;
use mini_ray::head::{
    object_texts, parse_actor_id, parse_object_id, parse_object_ids, parse_task_id,
    parse_worker_id, HeadService,
};
use mini_ray::ids::{ActorId, ObjectId, TaskId, WorkerId};
use mini_ray::messages::{
    Code, CompleteTaskRequest, CreateActorRequest, CreateActorResponse, FailTaskRequest,
    GetObjectRequest, GetObjectResponse, HeartbeatRequest, PollTaskRequest, PutObjectRequest,
    PutObjectResponse, RegisterWorkerRequest, SubmitActorTaskRequest, SubmitActorTaskResponse,
    SubmitTaskRequest, SubmitTaskResponse, TaskLease, UnregisterWorkerRequest,
};
use mini_ray::object_store::InMemoryObjectStore;
use mini_ray::refs::{ActorRef, ObjectRef};
use mini_ray::scheduler::Scheduler;
use std::time::{Duration, Instant};

fn register(head: &mut HeadService, worker_id: WorkerId, slots: u32) {
    let response = head
        .register_worker(RegisterWorkerRequest {
            worker_id: worker_id.to_string(),
            slots,
        })
        .unwrap();
    assert_eq!(response.worker_id, worker_id.to_string());
}

fn poll(head: &mut HeadService, worker_id: WorkerId, capacity: u32) -> Vec<TaskLease> {
    head.poll_task(PollTaskRequest {
        worker_id: worker_id.to_string(),
        capacity,
    })
    .unwrap()
    .tasks
}

fn put(head: &mut HeadService, data: Vec<u8>) -> ObjectId {
    let object_id = ObjectId::new();
    head.put_object(PutObjectRequest {
        object_id: object_id.to_string(),
        data,
    })
    .unwrap();
    object_id
}

fn create(head: &mut HeadService, constructor: Vec<ObjectId>) -> ActorId {
    let actor_id = ActorId::new();
    head.create_actor(CreateActorRequest {
        actor_type: "Counter".to_string(),
        constructor_dependencies: object_texts(&constructor),
        actor_id: actor_id.to_string(),
        max_restarts: 0,
    })
    .unwrap();
    actor_id
}

fn call(head: &mut HeadService, actor_id: ActorId, dependencies: Vec<ObjectId>) -> String {
    head.submit_actor_task(SubmitActorTaskRequest {
        actor_id: actor_id.to_string(),
        method_id: "increment".to_string(),
        dependencies: object_texts(&dependencies),
        output_id: ObjectId::new().to_string(),
        max_retries: 1,
    })
    .unwrap()
    .task_id
}

fn complete(head: &mut HeadService, worker_id: WorkerId, lease: &TaskLease, data: Vec<u8>) {
    head.complete_task(CompleteTaskRequest {
        worker_id: worker_id.to_string(),
        task_id: lease.task_id.clone(),
        output_id: lease.output_id.clone(),
        data,
    })
    .unwrap();
}

#[test]
fn identifiers_in_requests_are_read() {
    let text = "00000000-0000-0000-0000-00000000000a".to_string();
    assert_eq!(parse_object_id(&text).unwrap(), ObjectId(10));
    assert_eq!(parse_task_id(&text).unwrap(), TaskId(10));
    assert_eq!(parse_worker_id(&text).unwrap(), WorkerId(10));
    assert_eq!(parse_actor_id(&text).unwrap(), ActorId(10));
    assert_eq!(
        parse_object_ids(object_texts(&vec![ObjectId(3), ObjectId(1), ObjectId(2)])).unwrap(),
        vec![ObjectId(3), ObjectId(1), ObjectId(2)]
    );
    assert!(parse_object_ids(vec![]).unwrap().is_empty());

    let err = parse_object_ids(vec![text, "x".to_string()]).unwrap_err();
    assert_eq!(err.code, Code::InvalidArgument);
    assert!(err.message.starts_with("failed to decode value: "));
}

#[test]
fn unreadable_identifiers_are_refused() {
    let mut head = HeadService::with_defaults();
    let bad = || "x".to_string();
    let good = || ObjectId::new().to_string();
    let actor_id = create(&mut head, vec![]);

    let codes = [
        head.put_object(PutObjectRequest {
            object_id: bad(),
            data: vec![],
        })
        .unwrap_err()
        .code,
        head.get_object(GetObjectRequest { object_id: bad() })
            .unwrap_err()
            .code,
        head.submit_task(SubmitTaskRequest {
            function_id: "f".to_string(),
            dependencies: vec![],
            output_id: bad(),
            max_retries: 1,
        })
        .unwrap_err()
        .code,
        head.submit_task(SubmitTaskRequest {
            function_id: "f".to_string(),
            dependencies: vec![good(), bad()],
            output_id: good(),
            max_retries: 1,
        })
        .unwrap_err()
        .code,
        head.create_actor(CreateActorRequest {
            actor_type: "Counter".to_string(),
            constructor_dependencies: vec![bad()],
            actor_id: good(),
            max_restarts: 0,
        })
        .unwrap_err()
        .code,
        head.submit_actor_task(SubmitActorTaskRequest {
            actor_id: actor_id.to_string(),
            method_id: "increment".to_string(),
            dependencies: vec![],
            output_id: bad(),
            max_retries: 1,
        })
        .unwrap_err()
        .code,
        head.register_worker(RegisterWorkerRequest {
            worker_id: bad(),
            slots: 1,
        })
        .unwrap_err()
        .code,
        head.unregister_worker(UnregisterWorkerRequest { worker_id: bad() })
            .unwrap_err()
            .code,
        head.poll_task(PollTaskRequest {
            worker_id: bad(),
            capacity: 1,
        })
        .unwrap_err()
        .code,
        head.complete_task(CompleteTaskRequest {
            worker_id: good(),
            task_id: good(),
            output_id: bad(),
            data: vec![],
        })
        .unwrap_err()
        .code,
        head.fail_task(FailTaskRequest {
            worker_id: good(),
            task_id: bad(),
            error: "boom".to_string(),
        })
        .unwrap_err()
        .code,
        head.heartbeat(HeartbeatRequest {
            worker_id: bad(),
            running: 0,
            queued: 0,
        })
        .unwrap_err()
        .code,
    ];
    assert!(codes.iter().all(|code| *code == Code::InvalidArgument));
    assert_eq!(head.actor_count(), 1);
}

#[test]
fn an_object_that_was_never_put_is_not_found() {
    let head = HeadService::with_defaults();
    let err = head
        .get_object(GetObjectRequest {
            object_id: ObjectId(10).to_string(),
        })
        .unwrap_err();
    assert_eq!(err.code, Code::NotFound);
    assert_eq!(
        err.message,
        "object 00000000-0000-0000-0000-00000000000a was not found"
    );
}

#[test]
fn an_object_is_got_by_any_of_its_names() {
    let mut head = HeadService::with_defaults();
    let stored = head
        .put_object(PutObjectRequest {
            object_id: "67E5504410B1426F9247BB680E5FE0C8".to_string(),
            data: vec![1, 2],
        })
        .unwrap();
    assert_eq!(stored.object_id, "67e55044-10b1-426f-9247-bb680e5fe0c8");
    let response = head
        .get_object(GetObjectRequest {
            object_id: "{67e55044-10b1-426f-9247-bb680e5fe0c8}".to_string(),
        })
        .unwrap();
    assert_eq!(response.object_id, stored.object_id);
    assert_eq!(response.data, vec![1, 2]);
}

#[test]
fn an_unknown_worker_gets_no_tasks() {
    let mut head = HeadService::with_defaults();
    let err = head
        .poll_task(PollTaskRequest {
            worker_id: WorkerId(10).to_string(),
            capacity: 1,
        })
        .unwrap_err();
    assert_eq!(err.code, Code::FailedPrecondition);
    assert_eq!(
        err.message,
        "scheduler error: unknown worker 00000000-0000-0000-0000-00000000000a"
    );
}

#[test]
fn a_task_identifier_is_given_once() {
    let mut head = HeadService::with_defaults();
    let task_id = TaskId(10);
    let request = || SubmitTaskRequest {
        function_id: "f".to_string(),
        dependencies: vec![],
        output_id: ObjectId(11).to_string(),
        max_retries: 1,
    };
    let submitted = head.submit_task_as(request(), task_id).unwrap();
    assert_eq!(submitted.task_id, task_id.to_string());
    assert_eq!(submitted.output_id, ObjectId(11).to_string());

    let err = head.submit_task_as(request(), task_id).unwrap_err();
    assert_eq!(err.code, Code::FailedPrecondition);
    assert_eq!(
        err.message,
        "scheduler error: task 00000000-0000-0000-0000-00000000000a already exists"
    );
}

#[test]
fn a_plain_lease_says_what_was_submitted() {
    let mut head = HeadService::with_defaults();
    let worker = WorkerId::new();
    register(&mut head, worker, 1);
    let input = put(&mut head, vec![7]);
    let output = ObjectId::new();
    head.submit_task_as(
        SubmitTaskRequest {
            function_id: "add_one".to_string(),
            dependencies: vec![input.to_string()],
            output_id: output.to_string(),
            max_retries: 3,
        },
        TaskId(10),
    )
    .unwrap();

    assert_eq!(
        poll(&mut head, worker, 1),
        vec![TaskLease {
            task_id: TaskId(10).to_string(),
            function_id: "add_one".to_string(),
            dependencies: vec![input.to_string()],
            output_id: output.to_string(),
            attempt: 0,
            actor_id: String::new(),
            actor_type: String::new(),
            method_id: String::new(),
            constructor_dependencies: vec![],
        }]
    );
}

#[test]
fn a_call_waits_for_the_constructor_until_the_actor_lives() {
    let mut head = HeadService::with_defaults();
    let worker = WorkerId::new();
    register(&mut head, worker, 4);
    let initial = ObjectId::new();
    let actor_id = create(&mut head, vec![initial]);
    let delta = put(&mut head, vec![1]);
    call(&mut head, actor_id, vec![delta]);
    assert!(poll(&mut head, worker, 1).is_empty());

    head.put_object(PutObjectRequest {
        object_id: initial.to_string(),
        data: vec![2],
    })
    .unwrap();
    let leases = poll(&mut head, worker, 1);
    assert_eq!(leases.len(), 1);
    assert_eq!(
        leases[0].function_id,
        format!("actor:{}:Counter:increment", actor_id.to_string())
    );
    assert_eq!(leases[0].actor_id, actor_id.to_string());
    assert_eq!(leases[0].dependencies, vec![delta.to_string()]);
    assert_eq!(
        leases[0].constructor_dependencies,
        vec![initial.to_string()]
    );
    for object_id in leases[0]
        .dependencies
        .iter()
        .chain(&leases[0].constructor_dependencies)
    {
        head.get_object(GetObjectRequest {
            object_id: object_id.clone(),
        })
        .unwrap();
    }

    let second = call(&mut head, actor_id, vec![]);
    let leases = poll(&mut head, worker, 1);
    assert_eq!(leases[0].task_id, second);
    assert!(leases[0].dependencies.is_empty());
}

#[test]
fn actors_leave_a_worker_that_is_given_up() {
    let mut head = HeadService::new(
        InMemoryObjectStore::new(),
        Scheduler::new(Duration::from_secs(1)),
    );
    let silent = WorkerId::new();
    let replacement = WorkerId::new();
    register(&mut head, silent, 1);
    register(&mut head, replacement, 1);
    let actor_id = create(&mut head, vec![]);
    let task_id = call(&mut head, actor_id, vec![]);
    assert_eq!(poll(&mut head, silent, 1).len(), 1);
    assert!(poll(&mut head, replacement, 1).is_empty());

    let later = Instant::now() + Duration::from_secs(5);
    head.heartbeat_at(
        HeartbeatRequest {
            worker_id: replacement.to_string(),
            running: 0,
            queued: 0,
        },
        later,
    )
    .unwrap();
    assert_eq!(head.cleanup_expired_workers_at(later), 1);
    let leases = head
        .poll_task_at(
            PollTaskRequest {
                worker_id: replacement.to_string(),
                capacity: 1,
            },
            later,
        )
        .unwrap()
        .tasks;
    assert_eq!(leases.len(), 1);
    assert_eq!(leases[0].task_id, task_id);
    assert_eq!(leases[0].attempt, 1);

    complete(&mut head, replacement, &leases[0], vec![1]);
    let other = WorkerId::new();
    head.register_worker_at(
        RegisterWorkerRequest {
            worker_id: other.to_string(),
            slots: 1,
        },
        later,
    )
    .unwrap();
    call(&mut head, actor_id, vec![]);
    let none = head
        .poll_task_at(
            PollTaskRequest {
                worker_id: other.to_string(),
                capacity: 1,
            },
            later,
        )
        .unwrap();
    assert!(none.tasks.is_empty());
}

#[test]
fn an_actor_that_is_created_again_lives_nowhere() {
    let mut head = HeadService::with_defaults();
    let owner = WorkerId::new();
    let other = WorkerId::new();
    register(&mut head, owner, 1);
    register(&mut head, other, 1);
    let actor_id = create(&mut head, vec![]);
    call(&mut head, actor_id, vec![]);
    let leases = poll(&mut head, owner, 1);
    complete(&mut head, owner, &leases[0], vec![1]);

    head.create_actor(CreateActorRequest {
        actor_type: "Timer".to_string(),
        constructor_dependencies: vec![],
        actor_id: actor_id.to_string(),
        max_restarts: 0,
    })
    .unwrap();
    assert_eq!(head.actor_count(), 1);
    call(&mut head, actor_id, vec![]);
    let leases = poll(&mut head, other, 1);
    assert_eq!(leases.len(), 1);
    assert_eq!(leases[0].actor_type, "Timer");
}

#[test]
fn a_failed_task_is_tried_again_and_then_given_up() {
    let mut head = HeadService::with_defaults();
    let worker = WorkerId::new();
    register(&mut head, worker, 1);
    head.submit_task_as(
        SubmitTaskRequest {
            function_id: "flaky".to_string(),
            dependencies: vec![],
            output_id: ObjectId::new().to_string(),
            max_retries: 1,
        },
        TaskId(10),
    )
    .unwrap();
    let fail = |head: &mut HeadService| {
        head.fail_task(FailTaskRequest {
            worker_id: worker.to_string(),
            task_id: TaskId(10).to_string(),
            error: "boom".to_string(),
        })
    };

    assert_eq!(poll(&mut head, worker, 1)[0].attempt, 0);
    fail(&mut head).unwrap();
    assert_eq!(poll(&mut head, worker, 1)[0].attempt, 1);
    fail(&mut head).unwrap();
    assert!(poll(&mut head, worker, 1).is_empty());
    let err = fail(&mut head).unwrap_err();
    assert_eq!(err.code, Code::FailedPrecondition);
    assert_eq!(
        err.message,
        format!(
            "scheduler error: task {} is not owned by worker {}",
            TaskId(10).to_string(),
            worker.to_string()
        )
    );
}

#[test]
fn an_unknown_actor_is_named_in_the_refusal() {
    let mut head = HeadService::with_defaults();
    let err = head
        .submit_actor_task(SubmitActorTaskRequest {
            actor_id: ActorId(10).to_string(),
            method_id: "increment".to_string(),
            dependencies: vec!["x".to_string()],
            output_id: "x".to_string(),
            max_retries: 1,
        })
        .unwrap_err();
    assert_eq!(err.code, Code::NotFound);
    assert_eq!(
        err.message,
        "actor 00000000-0000-0000-0000-00000000000a was not found"
    );
}

#[test]
fn taking_out_an_unknown_worker_is_granted() {
    let mut head = HeadService::with_defaults();
    head.unregister_worker(UnregisterWorkerRequest {
        worker_id: WorkerId::new().to_string(),
    })
    .unwrap();
    head.heartbeat(HeartbeatRequest {
        worker_id: WorkerId::new().to_string(),
        running: 0,
        queued: 0,
    })
    .unwrap();
    assert_eq!(head.cleanup_expired_workers(), 0);
}

#[test]
fn client_requests_say_what_was_asked_for() {
    let input = ObjectRef::<u64>::new(ObjectId(1), "u64");
    let request =
        client::submit_request_as("add", client::erase_refs(vec![input, input]), ObjectId(2));
    assert_eq!(
        request,
        SubmitTaskRequest {
            function_id: "add".to_string(),
            dependencies: vec![ObjectId(1).to_string(), ObjectId(1).to_string()],
            output_id: ObjectId(2).to_string(),
            max_retries: 1,
        }
    );
    let request = client::create_actor_request_as(
        "Counter",
        client::erase_refs(vec![input]),
        3,
        ActorId(4),
    );
    assert_eq!(
        request,
        CreateActorRequest {
            actor_type: "Counter".to_string(),
            constructor_dependencies: vec![ObjectId(1).to_string()],
            actor_id: ActorId(4).to_string(),
            max_restarts: 3,
        }
    );
    let counter = ActorRef::<()>::new(ActorId(4), "()");
    let request = client::call_actor_request_as(
        counter,
        "increment",
        client::erase_refs(vec![input]),
        ObjectId(5),
    );
    assert_eq!(
        request,
        SubmitActorTaskRequest {
            actor_id: ActorId(4).to_string(),
            method_id: "increment".to_string(),
            dependencies: vec![ObjectId(1).to_string()],
            output_id: ObjectId(5).to_string(),
            max_retries: 1,
        }
    );
    assert_eq!(
        client::get_request(input).object_id,
        ObjectId(1).to_string()
    );
    let request = client::put_request_as(ObjectId(6), Ok(vec![1])).unwrap();
    assert_eq!(request.object_id, ObjectId(6).to_string());
    assert_eq!(request.data, vec![1]);
    let err =
        client::put_request_as(ObjectId(6), Err(MiniRayError::Encode("no".to_string())));
    assert!(matches!(err, Err(MiniRayError::Encode(_))));
    assert_eq!(
        client::put_request(&41u64).unwrap().data,
        vec![41, 0, 0, 0, 0, 0, 0, 0]
    );
}

#[test]
fn client_answers_are_read() {
    let object = client::put_response::<u64>(
        PutObjectResponse {
            object_id: ObjectId(1).to_string(),
        },
        "u64",
    )
    .unwrap();
    assert_eq!(object.id(), ObjectId(1));
    assert_eq!(object.type_label(), "u64");

    let value: u64 = client::get_response(GetObjectResponse {
        object_id: ObjectId(1).to_string(),
        data: vec![41, 0, 0, 0, 0, 0, 0, 0],
    })
    .unwrap();
    assert_eq!(value, 41);

    let submitted = |task_id: String, output_id: String| {
        client::submit_response::<u64>(SubmitTaskResponse { task_id, output_id }, "u64")
    };
    let good = ObjectId(2).to_string();
    assert_eq!(
        submitted(good.clone(), good.clone()).unwrap().id(),
        ObjectId(2)
    );
    assert!(matches!(
        submitted("x".to_string(), good.clone()),
        Err(MiniRayError::Decode(_))
    ));
    assert!(matches!(
        submitted(good.clone(), "x".to_string()),
        Err(MiniRayError::Decode(_))
    ));

    let called = client::call_actor_response::<u64>(
        SubmitActorTaskResponse {
            task_id: good.clone(),
            output_id: good.clone(),
        },
        "u64",
    )
    .unwrap();
    assert_eq!(called.id(), ObjectId(2));

    let created = client::create_actor_response::<u64>(
        CreateActorResponse {
            actor_id: ActorId(3).to_string(),
        },
        "u64",
    )
    .unwrap();
    assert_eq!(created.id(), ActorId(3));
    assert!(client::create_actor_response::<u64>(
        CreateActorResponse {
            actor_id: "x".to_string(),
        },
        "u64",
    )
    .is_err());
    assert!(client::put_response::<u64>(
        PutObjectResponse {
            object_id: "x".to_string(),
        },
        "u64",
    )
    .is_err());
    assert_eq!(
        client::transport_error("down".to_string()).to_string(),
        "transport error: down"
    );
}

#[test]
fn objects_can_be_looked_at_through_the_head() {
    let mut head = HeadService::with_defaults();
    let object_id = put(&mut head, vec![1, 2, 3]);
    assert!(head.object_store().contains(object_id));
    assert_eq!(
        head.object_store().get_bytes(object_id).unwrap(),
        vec![1, 2, 3]
    );
}
