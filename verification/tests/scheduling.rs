use mini_ray::clock::{default_heartbeat_timeout, heartbeat_expired};
use mini_ray::error::MiniRayError;
use mini_ray::ids::{ObjectId, TaskId, WorkerId};
use mini_ray::scheduler::{steal_capacity, Scheduler, TaskState};
use mini_ray::task::TaskSpec;
use std::time::{Duration, Instant};

fn task(name: &str) -> TaskSpec {
    TaskSpec::new(name, vec![], ObjectId::new())
}

fn submit(scheduler: &mut Scheduler, name: &str) -> TaskId {
    let spec = task(name);
    let task_id = spec.task_id;
    scheduler.submit(spec).unwrap();
    task_id
}

fn names(specs: &[TaskSpec]) -> Vec<&str> {
    specs.iter().map(|spec| spec.function_id.as_str()).collect()
}

#[test]
fn an_idle_worker_is_served_in_the_order_of_submission() {
    let mut scheduler = Scheduler::default();
    let worker = WorkerId::new();
    let other = WorkerId::new();
    scheduler.register_worker(worker, 1);
    scheduler.register_worker(other, 1);
    let mut pinned = task("pinned");
    pinned.target_worker = Some(other);
    scheduler.submit(pinned).unwrap();
    submit(&mut scheduler, "first");
    submit(&mut scheduler, "second");

    assert_eq!(
        names(&scheduler.lease_tasks(worker, 2).unwrap()),
        vec!["first", "second"]
    );
}

#[test]
fn a_busy_worker_gets_what_its_slots_allow() {
    let mut scheduler = Scheduler::default();
    let worker = WorkerId::new();
    scheduler.register_worker(worker, 3);
    for name in ["a", "b", "c", "d", "e"] {
        submit(&mut scheduler, name);
    }

    assert_eq!(names(&scheduler.lease_tasks(worker, 1).unwrap()), vec!["a"]);
    assert_eq!(
        names(&scheduler.lease_tasks(worker, 5).unwrap()),
        vec!["b", "c"]
    );
    assert!(scheduler.lease_tasks(worker, 5).unwrap().is_empty());
}

#[test]
fn an_idle_worker_gets_all_that_it_asks_for() {
    let mut scheduler = Scheduler::default();
    let worker = WorkerId::new();
    scheduler.register_worker(worker, 1);
    for name in ["a", "b", "c"] {
        submit(&mut scheduler, name);
    }

    assert!(scheduler.lease_tasks(worker, 0).unwrap().is_empty());
    assert_eq!(
        names(&scheduler.lease_tasks(worker, 2).unwrap()),
        vec!["a", "b"]
    );
}

#[test]
fn a_worker_with_a_single_task_is_not_stolen_from() {
    let mut scheduler = Scheduler::default();
    let busy = WorkerId::new();
    let idle = WorkerId::new();
    scheduler.register_worker(busy, 1);
    scheduler.register_worker(idle, 1);
    let task_id = submit(&mut scheduler, "only");
    scheduler.lease_tasks(busy, 1).unwrap();

    assert!(scheduler.lease_tasks(idle, 1).unwrap().is_empty());
    assert_eq!(
        scheduler.task_state(task_id),
        Some(TaskState::Leased(busy))
    );
}

#[test]
fn the_busiest_worker_loses_a_task() {
    let mut scheduler = Scheduler::default();
    let busy = WorkerId::new();
    let busier = WorkerId::new();
    let idle = WorkerId::new();
    scheduler.register_worker(busy, 2);
    scheduler.register_worker(busier, 3);
    scheduler.register_worker(idle, 1);
    for name in ["a", "b", "c", "d", "e"] {
        submit(&mut scheduler, name);
    }
    scheduler.lease_tasks(busy, 2).unwrap();
    let held = scheduler.lease_tasks(busier, 3).unwrap();

    let stolen = scheduler.lease_tasks(idle, 1).unwrap();

    assert_eq!(stolen[0].task_id, held[0].task_id);
    assert_eq!(
        scheduler.task_state(held[0].task_id),
        Some(TaskState::Leased(idle))
    );
    let err = scheduler
        .complete(busier, held[0].task_id, held[0].output_id)
        .unwrap_err();
    assert!(matches!(err, MiniRayError::Scheduler(_)));
}

#[test]
fn steal_capacity_is_for_workers_without_tasks() {
    assert_eq!(steal_capacity(3, 0), 3);
    assert_eq!(steal_capacity(0, 0), 0);
    assert_eq!(steal_capacity(3, 1), 0);
}

#[test]
fn attempts_never_exceed_what_is_allowed() {
    let mut scheduler = Scheduler::default();
    let worker = WorkerId::new();
    scheduler.register_worker(worker, 1);
    let mut spec = task("flaky");
    spec.max_retries = 2;
    let task_id = spec.task_id;
    scheduler.submit(spec).unwrap();

    let mut attempts = Vec::new();
    loop {
        let leased = scheduler.lease_tasks(worker, 1).unwrap();
        if leased.is_empty() {
            break;
        }
        attempts.push(leased[0].attempt);
        scheduler.fail(worker, task_id, "boom".to_string()).unwrap();
    }

    assert_eq!(attempts, vec![0, 1, 2]);
    assert_eq!(
        scheduler.task_state(task_id),
        Some(TaskState::Failed("boom".to_string()))
    );
}

#[test]
fn a_task_that_came_to_its_end_stays_there() {
    let mut scheduler = Scheduler::default();
    let worker = WorkerId::new();
    scheduler.register_worker(worker, 1);
    let spec = task("done");
    let task_id = spec.task_id;
    let output = spec.output_id;
    scheduler.submit(spec).unwrap();
    scheduler.lease_tasks(worker, 1).unwrap();
    scheduler.mark_running(worker, task_id).unwrap();
    assert_eq!(
        scheduler.task_state(task_id),
        Some(TaskState::Running(worker))
    );
    scheduler.validate_task_owner(worker, task_id).unwrap();
    scheduler.complete(worker, task_id, output).unwrap();

    assert!(scheduler.complete(worker, task_id, output).is_err());
    assert!(scheduler
        .fail(worker, task_id, "late".to_string())
        .is_err());
    assert!(scheduler
        .fail_tasks(&[task_id], "late".to_string())
        .is_empty());
    scheduler.object_available(output);
    scheduler.remove_worker(worker, "gone".to_string()).unwrap();
    assert_eq!(scheduler.task_state(task_id), Some(TaskState::Finished));
}

#[test]
fn errors_of_the_scheduler_say_what_is_wrong() {
    let mut scheduler = Scheduler::default();
    let worker = WorkerId(1);
    let other = WorkerId(2);
    let missing = TaskId(3);
    let w = "00000000-0000-0000-0000-000000000001";
    let o = "00000000-0000-0000-0000-000000000002";
    let t = "00000000-0000-0000-0000-000000000003";

    assert_eq!(
        scheduler.lease_tasks(worker, 1).unwrap_err().to_string(),
        format!("scheduler error: unknown worker {w}")
    );
    assert_eq!(
        scheduler
            .mark_running(worker, missing)
            .unwrap_err()
            .to_string(),
        format!("scheduler error: unknown task {t}")
    );
    assert_eq!(
        scheduler
            .validate_task_owner(worker, missing)
            .unwrap_err()
            .to_string(),
        format!("scheduler error: unknown task {t}")
    );

    scheduler.register_worker(worker, 1);
    scheduler.register_worker(other, 1);
    let spec = TaskSpec::with_id(missing, "noop", vec![], ObjectId::new());
    scheduler.submit(spec.clone()).unwrap();
    assert_eq!(
        scheduler.submit(spec).unwrap_err().to_string(),
        format!("scheduler error: task {t} already exists")
    );
    scheduler.lease_tasks(worker, 1).unwrap();
    assert_eq!(
        scheduler
            .mark_running(other, missing)
            .unwrap_err()
            .to_string(),
        format!("scheduler error: task {t} is not leased to worker {o}")
    );
    assert_eq!(
        scheduler
            .fail(other, missing, "boom".to_string())
            .unwrap_err()
            .to_string(),
        format!("scheduler error: task {t} is not owned by worker {o}")
    );
    assert_eq!(scheduler.task_state(TaskId::new()), None);
}

#[test]
fn a_pin_to_an_unknown_worker_is_dropped() {
    let mut scheduler = Scheduler::default();
    let worker = WorkerId::new();
    scheduler.register_worker(worker, 1);
    let mut spec = task("pinned");
    spec.target_worker = Some(WorkerId::new());
    scheduler.submit(spec).unwrap();

    let leased = scheduler.lease_tasks(worker, 1).unwrap();
    assert_eq!(leased[0].target_worker, None);
}

#[test]
fn a_task_waits_for_all_its_dependencies() {
    let mut scheduler = Scheduler::default();
    let first = ObjectId::new();
    let second = ObjectId::new();
    let spec = TaskSpec::new("join", vec![first, second, first], ObjectId::new());
    let task_id = spec.task_id;
    scheduler.submit(spec).unwrap();

    scheduler.object_available(second);
    assert_eq!(scheduler.task_state(task_id), Some(TaskState::Pending));
    scheduler.object_available(second);
    assert_eq!(scheduler.task_state(task_id), Some(TaskState::Pending));
    scheduler.object_available(first);
    assert_eq!(scheduler.task_state(task_id), Some(TaskState::Ready));
}

#[test]
fn a_removed_worker_leaves_nothing_behind() {
    let mut scheduler = Scheduler::default();
    let worker = WorkerId::new();
    let replacement = WorkerId::new();
    scheduler.register_worker(worker, 2);
    scheduler.register_worker(replacement, 1);
    let retried = submit(&mut scheduler, "retried");
    let mut spec = task("exhausted");
    spec.max_retries = 0;
    let exhausted = spec.task_id;
    scheduler.submit(spec).unwrap();
    scheduler.lease_tasks(worker, 2).unwrap();
    scheduler.mark_running(worker, retried).unwrap();

    let expiry = scheduler
        .remove_worker(worker, "worker unregistered".to_string())
        .unwrap();

    assert_eq!(expiry.worker_id, worker);
    assert_eq!(expiry.retried_tasks, vec![retried]);
    assert_eq!(expiry.failed_tasks, vec![exhausted]);
    assert_eq!(scheduler.task_state(retried), Some(TaskState::Ready));
    assert_eq!(
        scheduler.task_state(exhausted),
        Some(TaskState::Failed("worker unregistered".to_string()))
    );
    assert!(scheduler.lease_tasks(worker, 1).is_err());
    assert!(scheduler
        .remove_worker(worker, "again".to_string())
        .is_none());
    assert_eq!(
        names(&scheduler.lease_tasks(replacement, 5).unwrap()),
        vec!["retried"]
    );
}

#[test]
fn registering_again_starts_over() {
    let mut scheduler = Scheduler::default();
    let worker = WorkerId::new();
    scheduler.register_worker(worker, 0);
    let first = submit(&mut scheduler, "first");
    submit(&mut scheduler, "second");
    assert_eq!(scheduler.lease_tasks(worker, 1).unwrap().len(), 1);
    assert!(scheduler.lease_tasks(worker, 1).unwrap().is_empty());

    scheduler.register_worker(worker, 1);
    assert_eq!(
        scheduler.task_state(first),
        Some(TaskState::Leased(worker))
    );
    assert_eq!(
        names(&scheduler.lease_tasks(worker, 1).unwrap()),
        vec!["second"]
    );
}

#[test]
fn a_silence_of_exactly_the_timeout_is_tolerated() {
    let timeout = default_heartbeat_timeout();
    assert_eq!(timeout, Duration::from_secs(10));
    assert!(!heartbeat_expired(Duration::from_secs(10), timeout));
    assert!(heartbeat_expired(
        Duration::from_secs(10) + Duration::from_nanos(1),
        timeout
    ));
    assert!(!heartbeat_expired(Duration::from_millis(9_999), timeout));
}

#[test]
fn workers_are_given_up_when_they_are_silent_for_too_long() {
    let mut scheduler = Scheduler::new(Duration::from_secs(10));
    let silent = WorkerId::new();
    let alive = WorkerId::new();
    let start = Instant::now();
    scheduler.register_worker_at(silent, 1, start);
    scheduler.register_worker_at(alive, 1, start);
    let later = start + Duration::from_secs(11);
    scheduler.force_worker_last_heartbeat(alive, later);
    scheduler.force_worker_last_heartbeat(WorkerId::new(), later);

    assert!(scheduler
        .expire_workers_at(start + Duration::from_secs(10))
        .is_empty());
    let report = scheduler.expire_workers_at(later);

    assert_eq!(report.len(), 1);
    assert_eq!(report[0].worker_id, silent);
    assert!(scheduler.lease_tasks(silent, 1).is_err());
    assert!(scheduler.lease_tasks(alive, 1).is_ok());
}

#[test]
fn a_heartbeat_keeps_a_worker() {
    let mut scheduler = Scheduler::new(Duration::from_secs(10));
    let worker = WorkerId::new();
    scheduler.register_worker(worker, 1);
    scheduler.force_worker_last_heartbeat(worker, Instant::now() - Duration::from_secs(11));
    scheduler.heartbeat(worker);

    assert!(scheduler.expire_workers().is_empty());
    assert!(scheduler.lease_tasks(worker, 1).is_ok());
}

#[test]
fn tasks_that_are_made_to_fail_are_listed_once() {
    let mut scheduler = Scheduler::default();
    let pending = TaskSpec::new("pending", vec![ObjectId::new()], ObjectId::new());
    let pending_id = pending.task_id;
    scheduler.submit(pending).unwrap();
    let ready_id = submit(&mut scheduler, "ready");

    let failed = scheduler.fail_tasks(
        &[ready_id, TaskId::new(), pending_id, ready_id],
        "cancelled".to_string(),
    );

    assert_eq!(failed, vec![ready_id, pending_id]);
    assert_eq!(
        scheduler.task_state(pending_id),
        Some(TaskState::Failed("cancelled".to_string()))
    );
}
