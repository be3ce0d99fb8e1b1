use mini_ray::error::MiniRayError;
use mini_ray::ids::{ObjectId, WorkerId};
use mini_ray::scheduler::{Scheduler, TaskState, WorkerExpiry};
use mini_ray::task::TaskSpec;
use std::time::{Duration, Instant};

#[test]
fn dependency_resolution_moves_task_to_ready() {
    let input = ObjectId::new();
    let output = ObjectId::new();
    let spec = TaskSpec::new("add_one", vec![input], output);
    let task_id = spec.task_id;
    let mut scheduler = Scheduler::default();

    scheduler.submit(spec).unwrap();
    assert_eq!(scheduler.task_state(task_id), Some(TaskState::Pending));

    scheduler.object_available(input);
    assert_eq!(scheduler.task_state(task_id), Some(TaskState::Ready));
}

#[test]
fn duplicate_task_submission_is_rejected() {
    let spec = TaskSpec::new("noop", vec![], ObjectId::new());
    let mut scheduler = Scheduler::default();

    scheduler.submit(spec.clone()).unwrap();
    let err = scheduler.submit(spec).unwrap_err();

    assert!(matches!(err, MiniRayError::Scheduler(_)));
}

#[test]
fn multiple_workers_get_independent_tasks() {
    let mut scheduler = Scheduler::default();
    let worker_a = WorkerId::new();
    let worker_b = WorkerId::new();
    scheduler.register_worker(worker_a, 1);
    scheduler.register_worker(worker_b, 1);

    for _ in 0..2 {
        scheduler
            .submit(TaskSpec::new("noop", vec![], ObjectId::new()))
            .unwrap();
    }

    assert_eq!(scheduler.lease_tasks(worker_a, 1).unwrap().len(), 1);
    assert_eq!(scheduler.lease_tasks(worker_b, 1).unwrap().len(), 1);
}

#[test]
fn pinned_task_only_leases_to_target_worker() {
    let mut scheduler = Scheduler::default();
    let target = WorkerId::new();
    let other = WorkerId::new();
    scheduler.register_worker(target, 1);
    scheduler.register_worker(other, 1);
    let mut spec = TaskSpec::new("actor_method", vec![], ObjectId::new());
    spec.target_worker = Some(target);
    let task_id = spec.task_id;
    scheduler.submit(spec).unwrap();

    assert!(scheduler.lease_tasks(other, 1).unwrap().is_empty());
    let leased = scheduler.lease_tasks(target, 1).unwrap();

    assert_eq!(leased.len(), 1);
    assert_eq!(leased[0].task_id, task_id);
}

#[test]
fn pinned_task_is_not_stolen_by_non_target_worker() {
    let mut scheduler = Scheduler::default();
    let target = WorkerId::new();
    let other = WorkerId::new();
    scheduler.register_worker(target, 2);
    scheduler.register_worker(other, 1);
    let mut pinned = TaskSpec::new("actor_method", vec![], ObjectId::new());
    pinned.target_worker = Some(target);
    scheduler.submit(pinned).unwrap();
    let leased_to_target = scheduler.lease_tasks(target, 1).unwrap();

    assert!(scheduler.lease_tasks(other, 1).unwrap().is_empty());
    assert_eq!(
        scheduler.task_state(leased_to_target[0].task_id),
        Some(TaskState::Leased(target))
    );
}

#[test]
fn leasing_marks_task_as_leased_to_worker() {
    let mut scheduler = Scheduler::default();
    let worker = WorkerId::new();
    scheduler.register_worker(worker, 1);
    let spec = TaskSpec::new("noop", vec![], ObjectId::new());
    let task_id = spec.task_id;
    scheduler.submit(spec).unwrap();

    let leased = scheduler.lease_tasks(worker, 1).unwrap();

    assert_eq!(leased.len(), 1);
    assert_eq!(
        scheduler.task_state(task_id),
        Some(TaskState::Leased(worker))
    );
}

#[test]
fn unknown_worker_cannot_lease_tasks() {
    let mut scheduler = Scheduler::default();
    let err = scheduler.lease_tasks(WorkerId::new(), 1).unwrap_err();

    assert!(matches!(err, MiniRayError::Scheduler(_)));
}

#[test]
fn wrong_worker_cannot_mark_task_running() {
    let mut scheduler = Scheduler::default();
    let owner = WorkerId::new();
    let other = WorkerId::new();
    scheduler.register_worker(owner, 1);
    scheduler.register_worker(other, 1);
    scheduler
        .submit(TaskSpec::new("noop", vec![], ObjectId::new()))
        .unwrap();
    let task_id = scheduler.lease_tasks(owner, 1).unwrap()[0].task_id;

    let err = scheduler.mark_running(other, task_id).unwrap_err();

    assert!(matches!(err, MiniRayError::Scheduler(_)));
    assert_eq!(
        scheduler.task_state(task_id),
        Some(TaskState::Leased(owner))
    );
}

#[test]
fn idle_worker_steals_queued_not_running_task() {
    let mut scheduler = Scheduler::default();
    let busy = WorkerId::new();
    let idle = WorkerId::new();
    scheduler.register_worker(busy, 4);
    scheduler.register_worker(idle, 1);

    for _ in 0..3 {
        scheduler
            .submit(TaskSpec::new("noop", vec![], ObjectId::new()))
            .unwrap();
    }
    let leased = scheduler.lease_tasks(busy, 3).unwrap();
    scheduler.mark_running(busy, leased[0].task_id).unwrap();

    let stolen = scheduler.lease_tasks(idle, 1).unwrap();
    assert_eq!(stolen.len(), 1);
    assert_ne!(stolen[0].task_id, leased[0].task_id);
    assert_eq!(
        scheduler.task_state(leased[0].task_id),
        Some(TaskState::Running(busy))
    );
}

#[test]
fn failed_task_retries_once_then_fails() {
    let mut scheduler = Scheduler::default();
    let worker = WorkerId::new();
    scheduler.register_worker(worker, 1);
    let spec = TaskSpec::new("noop", vec![], ObjectId::new());
    let task_id = spec.task_id;
    scheduler.submit(spec).unwrap();

    scheduler.lease_tasks(worker, 1).unwrap();
    scheduler.fail(worker, task_id, "boom".to_string()).unwrap();
    assert_eq!(scheduler.task_state(task_id), Some(TaskState::Ready));

    scheduler.lease_tasks(worker, 1).unwrap();
    scheduler
        .fail(worker, task_id, "boom again".to_string())
        .unwrap();
    assert_eq!(
        scheduler.task_state(task_id),
        Some(TaskState::Failed("boom again".to_string()))
    );
}

#[test]
fn complete_makes_output_available_for_dependent_task() {
    let mut scheduler = Scheduler::default();
    let worker = WorkerId::new();
    scheduler.register_worker(worker, 1);
    let output = ObjectId::new();
    let producer = TaskSpec::new("produce", vec![], output);
    let producer_id = producer.task_id;
    let consumer = TaskSpec::new("consume", vec![output], ObjectId::new());
    let consumer_id = consumer.task_id;
    scheduler.submit(producer).unwrap();
    scheduler.submit(consumer).unwrap();

    scheduler.lease_tasks(worker, 1).unwrap();
    scheduler.complete(worker, producer_id, output).unwrap();

    assert_eq!(scheduler.task_state(producer_id), Some(TaskState::Finished));
    assert_eq!(scheduler.task_state(consumer_id), Some(TaskState::Ready));
}

#[test]
fn heartbeat_expiry_retries_task_once() {
    let mut scheduler = Scheduler::new(Duration::from_millis(1));
    let worker = WorkerId::new();
    let replacement = WorkerId::new();
    scheduler.register_worker(worker, 1);
    scheduler.register_worker(replacement, 1);
    let spec = TaskSpec::new("noop", vec![], ObjectId::new());
    let task_id = spec.task_id;
    scheduler.submit(spec).unwrap();
    scheduler.lease_tasks(worker, 1).unwrap();
    scheduler.force_worker_last_heartbeat(worker, Instant::now() - Duration::from_secs(1));

    let expiries = scheduler.expire_workers();
    let retried = scheduler.lease_tasks(replacement, 1).unwrap();

    assert_eq!(
        expiries,
        vec![WorkerExpiry {
            worker_id: worker,
            retried_tasks: vec![task_id],
            failed_tasks: vec![],
        }]
    );
    assert_eq!(retried.len(), 1);
    assert_eq!(retried[0].task_id, task_id);
    assert_eq!(retried[0].attempt, 1);
}

#[test]
fn removing_worker_retries_tasks_and_releases_affinity() {
    let mut scheduler = Scheduler::default();
    let owner = WorkerId::new();
    let replacement = WorkerId::new();
    scheduler.register_worker(owner, 1);
    scheduler.register_worker(replacement, 1);
    let mut spec = TaskSpec::new("actor_method", vec![], ObjectId::new());
    spec.target_worker = Some(owner);
    spec.max_retries = 1;
    let task_id = spec.task_id;
    scheduler.submit(spec).unwrap();
    scheduler.lease_tasks(owner, 1).unwrap();

    let expiry = scheduler
        .remove_worker(owner, "worker unregistered".to_string())
        .unwrap();
    let retried = scheduler.lease_tasks(replacement, 1).unwrap();

    assert_eq!(expiry.retried_tasks, vec![task_id]);
    assert!(expiry.failed_tasks.is_empty());
    assert_eq!(retried.len(), 1);
    assert_eq!(retried[0].task_id, task_id);
    assert_eq!(retried[0].target_worker, None);
}

#[test]
fn removing_worker_releases_affinity_for_queued_tasks() {
    let mut scheduler = Scheduler::default();
    let owner = WorkerId::new();
    let replacement = WorkerId::new();
    scheduler.register_worker(owner, 1);
    scheduler.register_worker(replacement, 1);
    let mut spec = TaskSpec::new("actor_method", vec![], ObjectId::new());
    spec.target_worker = Some(owner);
    let task_id = spec.task_id;
    scheduler.submit(spec).unwrap();

    scheduler
        .remove_worker(owner, "worker unregistered".to_string())
        .unwrap();
    let leased = scheduler.lease_tasks(replacement, 1).unwrap();

    assert_eq!(leased.len(), 1);
    assert_eq!(leased[0].task_id, task_id);
    assert_eq!(leased[0].target_worker, None);
}

#[test]
fn fail_tasks_removes_ready_and_leased_tasks_from_scheduling() {
    let mut scheduler = Scheduler::default();
    let worker = WorkerId::new();
    let replacement = WorkerId::new();
    scheduler.register_worker(worker, 1);
    scheduler.register_worker(replacement, 1);

    let ready = TaskSpec::new("ready", vec![], ObjectId::new());
    let ready_id = ready.task_id;
    scheduler.submit(ready).unwrap();

    let leased = TaskSpec::new("leased", vec![], ObjectId::new());
    let leased_id = leased.task_id;
    scheduler.submit(leased).unwrap();
    scheduler.lease_tasks(worker, 1).unwrap();

    let failed = scheduler.fail_tasks(&[ready_id, leased_id], "actor failed".to_string());
    let replacement_tasks = scheduler.lease_tasks(replacement, 2).unwrap();

    assert_eq!(failed, vec![ready_id, leased_id]);
    assert_eq!(
        scheduler.task_state(ready_id),
        Some(TaskState::Failed("actor failed".to_string()))
    );
    assert_eq!(
        scheduler.task_state(leased_id),
        Some(TaskState::Failed("actor failed".to_string()))
    );
    assert!(replacement_tasks.is_empty());
}

#[test]
fn heartbeat_expiry_reports_task_when_retries_are_exhausted() {
    let mut scheduler = Scheduler::new(Duration::from_millis(1));
    let worker = WorkerId::new();
    scheduler.register_worker(worker, 1);
    let mut spec = TaskSpec::new("noop", vec![], ObjectId::new());
    spec.max_retries = 0;
    let task_id = spec.task_id;
    scheduler.submit(spec).unwrap();
    scheduler.lease_tasks(worker, 1).unwrap();
    scheduler.force_worker_last_heartbeat(worker, Instant::now() - Duration::from_secs(1));

    let expiries = scheduler.expire_workers();

    assert_eq!(
        expiries,
        vec![WorkerExpiry {
            worker_id: worker,
            retried_tasks: vec![],
            failed_tasks: vec![task_id],
        }]
    );
    assert_eq!(
        scheduler.task_state(task_id),
        Some(TaskState::Failed("worker heartbeat expired".to_string()))
    );
}

#[test]
fn expire_workers_returns_empty_report_when_workers_are_healthy() {
    let mut scheduler = Scheduler::new(Duration::from_secs(10));
    scheduler.register_worker(WorkerId::new(), 1);

    assert!(scheduler.expire_workers().is_empty());
}
