//! The scheduler: which tasks there are, which of them may run, and which worker runs what.
//!
//! A task waits until all its dependencies are available, queues for a worker, is leased, runs, and
//! finishes or fails. A failed attempt is repeated as often as the task allows. An idle worker may
//! take over a task that is leased to another one and has not been started.
use crate::clock;
use crate::error::{ErrorView, MiniRayError};
use crate::ids::{ObjectId, TaskId, WorkerId};
use crate::maps::keys_of;
use crate::task::{TaskSpec, TaskSpecView};
use std::collections::{HashMap, HashSet, VecDeque};
use std::time::{Duration, Instant};
use vstd::prelude::*;
use vstd::string::StringExecFns;

pub mod effects;
pub mod laws;
pub mod leasing;
pub mod model;

use model::{ExpiryView, Pick, SchedulerView, TaskStateView, TaskView, WorkerView};

verus! {

/// How far a task has come.
#[derive(Debug, PartialEq, Eq)]
pub enum TaskState {
    /// It waits for a dependency.
    Pending,
    /// It waits for a worker.
    Ready,
    /// It has been given to a worker.
    Leased(WorkerId),
    /// A worker has started it.
    Running(WorkerId),
    /// It is done.
    Finished,
    /// It failed for good, for this reason.
    Failed(String),
}

impl View for TaskState {
    type V = TaskStateView;

    open spec fn view(&self) -> TaskStateView {
        match self {
            TaskState::Pending => TaskStateView::Pending,
            TaskState::Ready => TaskStateView::Ready,
            TaskState::Leased(w) => TaskStateView::Leased(w@),
            TaskState::Running(w) => TaskStateView::Running(w@),
            TaskState::Finished => TaskStateView::Finished,
            TaskState::Failed(error) => TaskStateView::Failed(error@),
        }
    }
}

impl Clone for TaskState {
    fn clone(&self) -> (copy: Self)
        ensures
            copy@ == self@,
    {
        match self {
            TaskState::Pending => TaskState::Pending,
            TaskState::Ready => TaskState::Ready,
            TaskState::Leased(w) => TaskState::Leased(*w),
            TaskState::Running(w) => TaskState::Running(*w),
            TaskState::Finished => TaskState::Finished,
            TaskState::Failed(error) => TaskState::Failed(error.clone()),
        }
    }
}

/// A task with its state.
#[derive(Debug)]
pub struct TaskRecord {
    pub spec: TaskSpec,
    pub state: TaskState,
}

impl View for TaskRecord {
    type V = TaskView;

    open spec fn view(&self) -> TaskView {
        TaskView { spec: self.spec@, state: self.state@ }
    }
}

impl Clone for TaskRecord {
    fn clone(&self) -> (copy: Self)
        ensures
            copy@ == self@,
    {
        TaskRecord { spec: self.spec.clone(), state: self.state.clone() }
    }
}

/// The numbers of a list of task identifiers.
pub open spec fn task_numbers(ids: Seq<TaskId>) -> Seq<u128> {
    ids.map_values(|id: TaskId| id@)
}

/// The numbers of a list of worker identifiers.
pub open spec fn worker_numbers(ids: Seq<WorkerId>) -> Seq<u128> {
    ids.map_values(|id: WorkerId| id@)
}

/// Whether a list of workers holds a worker.
pub fn lists_worker(ids: &Vec<WorkerId>, worker_id: WorkerId) -> (r: bool)
    ensures
        r == worker_numbers(ids@).contains(worker_id@),
{
    let n = ids.len();
    for i in 0..n
        invariant
            n == ids@.len(),
            forall|j: int| 0 <= j < i ==> worker_numbers(ids@)[j] != worker_id@,
    {
        if ids[i].0 == worker_id.0 {
            assert(worker_numbers(ids@)[i as int] == worker_id@);
            return true;
        }
    }
    false
}

/// What became of the tasks of a worker that was removed.
#[derive(Debug, PartialEq, Eq)]
pub struct WorkerExpiry {
    pub worker_id: WorkerId,
    /// The tasks that are tried again.
    pub retried_tasks: Vec<TaskId>,
    /// The tasks that had no attempt left.
    pub failed_tasks: Vec<TaskId>,
}

impl View for WorkerExpiry {
    type V = ExpiryView;

    open spec fn view(&self) -> ExpiryView {
        ExpiryView {
            worker_id: self.worker_id@,
            retried_tasks: task_numbers(self.retried_tasks@),
            failed_tasks: task_numbers(self.failed_tasks@),
        }
    }
}

/// The contents of a list of reports on removed workers.
pub open spec fn expiry_views(report: Seq<WorkerExpiry>) -> Seq<ExpiryView> {
    report.map_values(|expiry: WorkerExpiry| expiry@)
}

/// The contents of a list of task descriptions.
pub open spec fn spec_views(specs: Seq<TaskSpec>) -> Seq<TaskSpecView> {
    specs.map_values(|spec: TaskSpec| spec@)
}

#[derive(Debug)]
struct WorkerRecord {
    slots: usize,
    last_heartbeat: Instant,
    leased: VecDeque<u128>,
}

impl View for WorkerRecord {
    type V = WorkerView;

    closed spec fn view(&self) -> WorkerView {
        WorkerView {
            slots: self.slots as nat,
            last_heartbeat: self.last_heartbeat,
            leased: self.leased@,
        }
    }
}

/// The scheduler.
#[derive(Debug)]
pub struct Scheduler {
    tasks: HashMap<u128, TaskRecord>,
    ready: VecDeque<u128>,
    known_objects: HashSet<u128>,
    workers: HashMap<u128, WorkerRecord>,
    heartbeat_timeout: Duration,
}

impl View for Scheduler {
    type V = SchedulerView;

    closed spec fn view(&self) -> SchedulerView {
        SchedulerView {
            tasks: self.tasks@.map_values(|r: TaskRecord| r@),
            ready: self.ready@,
            known_objects: self.known_objects@,
            workers: self.workers@.map_values(|r: WorkerRecord| r@),
            heartbeat_timeout: self.heartbeat_timeout,
        }
    }
}

/// Whether an idle worker may take over tasks of others, and how many: all that it asks for, while
/// it holds none.
pub fn steal_capacity(requested: usize, held: usize) -> (count: usize)
    ensures
        count == (if held == 0 {
            requested
        } else {
            0
        }),
{
    if requested > 0 && held == 0 {
        requested
    } else {
        0
    }
}

/// `error`, as the scheduler words it when a task is unknown.
pub open spec fn unknown_task(t: TaskId) -> ErrorView {
    ErrorView::Scheduler("unknown task "@ + t.text())
}

/// The error for a worker that is not registered.
pub open spec fn unknown_worker(w: WorkerId) -> ErrorView {
    ErrorView::Scheduler("unknown worker "@ + w.text())
}

/// The error for a task that is submitted twice.
pub open spec fn task_exists(t: TaskId) -> ErrorView {
    ErrorView::Scheduler("task "@ + t.text() + " already exists"@)
}

/// The error for a worker that starts a task it has not been given.
pub open spec fn not_leased(t: TaskId, w: WorkerId) -> ErrorView {
    ErrorView::Scheduler("task "@ + t.text() + " is not leased to worker "@ + w.text())
}

/// The error for a worker that reports on a task it does not have.
pub open spec fn not_owned(t: TaskId, w: WorkerId) -> ErrorView {
    ErrorView::Scheduler("task "@ + t.text() + " is not owned by worker "@ + w.text())
}

fn unknown_task_error(t: TaskId) -> (error: MiniRayError)
    ensures
        error@ == unknown_task(t),
{
    MiniRayError::Scheduler("unknown task ".to_owned().concat(t.to_string().as_str()))
}

fn unknown_worker_error(w: WorkerId) -> (error: MiniRayError)
    ensures
        error@ == unknown_worker(w),
{
    MiniRayError::Scheduler("unknown worker ".to_owned().concat(w.to_string().as_str()))
}

fn task_exists_error(t: TaskId) -> (error: MiniRayError)
    ensures
        error@ == task_exists(t),
{
    MiniRayError::Scheduler(
        "task ".to_owned().concat(t.to_string().as_str()).concat(" already exists"),
    )
}

fn not_leased_error(t: TaskId, w: WorkerId) -> (error: MiniRayError)
    ensures
        error@ == not_leased(t, w),
{
    MiniRayError::Scheduler(
        "task ".to_owned().concat(t.to_string().as_str()).concat(" is not leased to worker ").concat(
            w.to_string().as_str(),
        ),
    )
}

fn not_owned_error(t: TaskId, w: WorkerId) -> (error: MiniRayError)
    ensures
        error@ == not_owned(t, w),
{
    MiniRayError::Scheduler(
        "task ".to_owned().concat(t.to_string().as_str()).concat(" is not owned by worker ").concat(
            w.to_string().as_str(),
        ),
    )
}

/// What a sequence with one more element contains.
proof fn lemma_push_contains(s: Seq<u128>, last: u128, x: u128)
    ensures
        s.push(last).contains(x) <==> s.contains(x) || x == last,
{
    if s.contains(x) {
        let i = choose|i: int| 0 <= i < s.len() && s[i] == x;
        assert(s.push(last)[i] == x);
    }
    assert(s.push(last)[s.len() as int] == last);
}

/// A queue without one of its tasks.
fn drop_task(queue: VecDeque<u128>, t: u128) -> (rest: VecDeque<u128>)
    ensures
        rest@ == model::without(queue@, t),
{
    let mut rest: VecDeque<u128> = VecDeque::new();
    let n = queue.len();
    for i in 0..n
        invariant
            n == queue@.len(),
            rest@ == model::without(queue@.take(i as int), t),
    {
        assert(queue@.take(i + 1).drop_last() =~= queue@.take(i as int));
        reveal(Seq::filter);
        if queue[i] != t {
            rest.push_back(queue[i]);
        }
    }
    assert(queue@.take(n as int) =~= queue@);
    rest
}

impl Scheduler {
    /// An empty scheduler that gives up on a worker after `heartbeat_timeout`.
    pub fn new(heartbeat_timeout: Duration) -> (scheduler: Self)
        ensures
            scheduler@ == SchedulerView::empty(heartbeat_timeout),
            scheduler@.wf(),
    {
        let scheduler = Scheduler {
            tasks: HashMap::new(),
            ready: VecDeque::new(),
            known_objects: HashSet::new(),
            workers: HashMap::new(),
            heartbeat_timeout,
        };
        assert(scheduler@ =~= SchedulerView::empty(heartbeat_timeout));
        scheduler
    }

    /// Registers a worker, with at least one slot. A worker that was registered before starts
    /// over.
    pub fn register_worker(&mut self, worker_id: WorkerId, slots: usize)
        requires
            old(self)@.wf(),
        ensures
            exists|now: Instant|
                {
                    &&& clock::may_read(now)
                    &&& final(self)@ == #[trigger] old(self)@.after_register(
                        worker_id@,
                        slots as nat,
                        now,
                    )
                },
            final(self)@.wf(),
    {
        self.register_worker_at(worker_id, slots, Instant::now());
    }

    /// Registers a worker that was heard of at `now`.
    pub fn register_worker_at(&mut self, worker_id: WorkerId, slots: usize, now: Instant)
        requires
            old(self)@.wf(),
        ensures
            final(self)@ == old(self)@.after_register(worker_id@, slots as nat, now),
            final(self)@.wf(),
    {
        let slots: usize = if slots < 1 {
            1
        } else {
            slots
        };
        self.workers.insert(
            worker_id.0,
            WorkerRecord { slots, last_heartbeat: now, leased: VecDeque::new() },
        );
        assert(self@ =~= old(self)@.after_register(worker_id@, slots as nat, now));
    }

    /// Notes that a worker is alive. An unknown worker is ignored.
    pub fn heartbeat(&mut self, worker_id: WorkerId)
        requires
            old(self)@.wf(),
        ensures
            exists|now: Instant|
                {
                    &&& clock::may_read(now)
                    &&& final(self)@ == #[trigger] old(self)@.after_heartbeat(worker_id@, now)
                },
            final(self)@.wf(),
    {
        self.force_worker_last_heartbeat(worker_id, Instant::now());
    }

    /// Notes when a worker was last heard of. An unknown worker is ignored.
    pub fn force_worker_last_heartbeat(&mut self, worker_id: WorkerId, last_heartbeat: Instant)
        requires
            old(self)@.wf(),
        ensures
            final(self)@ == old(self)@.after_heartbeat(worker_id@, last_heartbeat),
            final(self)@.wf(),
    {
        if let Some(worker) = self.workers.remove(&worker_id.0) {
            self.workers.insert(worker_id.0, WorkerRecord { last_heartbeat, ..worker });
        }
        assert(self@ =~= old(self)@.after_heartbeat(worker_id@, last_heartbeat));
    }

    /// The state of a task, if there is such a task.
    pub fn task_state(&self, task_id: TaskId) -> (state: Option<TaskState>)
        ensures
            match state {
                Some(state) => self@.tasks.contains_key(task_id@) && state@
                    == self@.tasks[task_id@].state,
                None => !self@.tasks.contains_key(task_id@),
            },
    {
        match self.tasks.get(&task_id.0) {
            Some(record) => Some(record.state.clone()),
            None => None,
        }
    }

    /// Whether all dependencies of a task are available.
    fn dependencies_ready(&self, spec: &TaskSpec) -> (ready: bool)
        ensures
            ready == self@.all_known(spec@.dependencies),
    {
        let n = spec.dependencies.len();
        for i in 0..n
            invariant
                n == spec.dependencies@.len(),
                forall|j: int|
                    0 <= j < i ==> self@.known_objects.contains(
                        #[trigger] spec@.dependencies[j],
                    ),
        {
            if !self.known_objects.contains(&spec.dependencies[i].0) {
                assert(!self@.known_objects.contains(spec@.dependencies[i as int]));
                return false;
            }
        }
        true
    }

    /// Submits a task. One whose identifier is taken is refused.
    pub fn submit(&mut self, spec: TaskSpec) -> (r: Result<(), MiniRayError>)
        requires
            old(self)@.wf(),
        ensures
            match r {
                Ok(_) => !old(self)@.tasks.contains_key(spec@.task_id) && final(self)@ == old(
                    self,
                )@.after_submit(spec@),
                Err(e) => old(self)@.tasks.contains_key(spec@.task_id) && final(self)@ == old(self)@
                    && e@ == task_exists(spec.task_id),
            },
            final(self)@.wf(),
    {
        if self.tasks.contains_key(&spec.task_id.0) {
            return Err(task_exists_error(spec.task_id));
        }
        let mut spec = spec;
        let ghost submitted = spec@;
        if let Some(worker_id) = spec.target_worker {
            if !self.workers.contains_key(&worker_id.0) {
                spec.target_worker = None;
            }
        }
        assert(spec@ =~= self@.admitted(submitted));
        let task_id = spec.task_id.0;
        let state = if self.dependencies_ready(&spec) {
            self.ready.push_back(task_id);
            TaskState::Ready
        } else {
            TaskState::Pending
        };
        self.tasks.insert(task_id, TaskRecord { spec, state });
        assert(self@ =~= old(self)@.after_submit(submitted));
        proof {
            old(self)@.lemma_submit_wf(submitted);
        }
        Ok(())
    }

    /// Puts a task into another state.
    fn set_state(&mut self, t: u128, state: TaskState)
        requires
            old(self)@.tasks.contains_key(t),
        ensures
            final(self)@ == old(self)@.with_state(t, state@),
    {
        if let Some(record) = self.tasks.remove(&t) {
            self.tasks.insert(t, TaskRecord { spec: record.spec, state });
        }
        assert(self@ =~= old(self)@.with_state(t, state@));
    }

    /// The tasks that wait although all their dependencies are available, in some order.
    fn freed_tasks(&self) -> (freed: Vec<u128>)
        ensures
            freed@.no_duplicates(),
            forall|t: u128| #[trigger]
                freed@.contains(t) <==> {
                    &&& self@.tasks.contains_key(t)
                    &&& self@.tasks[t].state is Pending
                    &&& self@.all_known(self@.tasks[t].spec.dependencies)
                },
    {
        let keys = keys_of(&self.tasks);
        let mut freed: Vec<u128> = Vec::new();
        let n = keys.len();
        let ghost is_freed = |t: u128|
            {
                &&& self@.tasks.contains_key(t)
                &&& self@.tasks[t].state is Pending
                &&& self@.all_known(self@.tasks[t].spec.dependencies)
            };
        for i in 0..n
            invariant
                n == keys@.len(),
                keys@.no_duplicates(),
                forall|k: u128| #[trigger] keys@.contains(k) <==> self.tasks@.contains_key(k),
                is_freed == (|t: u128|
                    {
                        &&& self@.tasks.contains_key(t)
                        &&& self@.tasks[t].state is Pending
                        &&& self@.all_known(self@.tasks[t].spec.dependencies)
                    }),
                freed@.no_duplicates(),
                forall|t: u128| #[trigger]
                    freed@.contains(t) <==> keys@.take(i as int).contains(t) && is_freed(t),
        {
            let t = keys[i];
            let ghost before = freed@;
            assert(keys@.contains(t));
            assert(!keys@.take(i as int).contains(t));
            if let Some(record) = self.tasks.get(&t) {
                if matches!(record.state, TaskState::Pending) && self.dependencies_ready(
                    &record.spec,
                ) {
                    assert(is_freed(t) && !freed@.contains(t));
                    freed.push(t);
                } else {
                    assert(!is_freed(t));
                }
            }
            proof {
                assert(keys@.take(i + 1) =~= keys@.take(i as int).push(t));
                assert forall|x: u128| #[trigger]
                    freed@.contains(x) <==> keys@.take(i + 1).contains(x) && is_freed(x) by {
                    lemma_push_contains(before, t, x);
                    lemma_push_contains(keys@.take(i as int), t, x);
                    assert(before.contains(x) <==> keys@.take(i as int).contains(x) && is_freed(x));
                }
            }
        }
        assert(keys@.take(n as int) =~= keys@);
        assert forall|t: u128| #[trigger]
            freed@.contains(t) <==> {
                &&& self@.tasks.contains_key(t)
                &&& self@.tasks[t].state is Pending
                &&& self@.all_known(self@.tasks[t].spec.dependencies)
            } by {
            assert(keys@.contains(t) <==> self.tasks@.contains_key(t));
            assert(is_freed(t) <==> {
                &&& self@.tasks.contains_key(t)
                &&& self@.tasks[t].state is Pending
                &&& self@.all_known(self@.tasks[t].spec.dependencies)
            });
        }
        freed
    }

    /// Notes that an object is available, and queues the tasks that waited for nothing else.
    pub fn object_available(&mut self, object_id: ObjectId)
        requires
            old(self)@.wf(),
        ensures
            old(self)@.makes_available(object_id@, final(self)@),
            final(self)@.wf(),
    {
        self.known_objects.insert(object_id.0);
        assert(self@ =~= old(self)@.with_object(object_id@));
        let ghost pre = old(self)@;
        let ghost with_object = self@;
        let freed = self.freed_tasks();
        assert forall|t: u128| #[trigger] freed@.contains(t) <==> pre.freed_by(object_id@, t) by {}
        let n = freed.len();
        for i in 0..n
            invariant
                n == freed@.len(),
                freed@.no_duplicates(),
                with_object == pre.with_object(object_id@),
                forall|t: u128| #[trigger] freed@.contains(t) <==> pre.freed_by(object_id@, t),
                self@.tasks.dom() == pre.tasks.dom(),
                forall|t: u128| #[trigger]
                    pre.tasks.contains_key(t) ==> self@.tasks[t] == (if freed@.take(
                        i as int,
                    ).contains(t) {
                        pre.tasks[t].with_state(TaskStateView::Ready)
                    } else {
                        pre.tasks[t]
                    }),
                self@.ready == pre.ready + freed@.take(i as int),
                self@.known_objects == with_object.known_objects,
                self@.workers == with_object.workers,
                self@.heartbeat_timeout == with_object.heartbeat_timeout,
        {
            let t = freed[i];
            assert(freed@.contains(t));
            assert(pre.tasks.contains_key(t));
            let ghost before = self@;
            self.set_state(t, TaskState::Ready);
            self.ready.push_back(t);
            proof {
                let taken = freed@.take(i as int);
                assert(freed@.take(i + 1) =~= taken.push(t));
                assert(!taken.contains(t));
                assert forall|x: u128| #[trigger] pre.tasks.contains_key(x) implies self@.tasks[x]
                    == (if freed@.take(i + 1).contains(x) {
                    pre.tasks[x].with_state(TaskStateView::Ready)
                } else {
                    pre.tasks[x]
                }) by {
                    lemma_push_contains(taken, t, x);
                    assert(before.tasks.contains_key(x));
                }
                assert(self@.ready =~= pre.ready + freed@.take(i + 1));
                assert(self@.tasks.dom() =~= pre.tasks.dom());
            }
        }
        proof {
            assert(freed@.take(n as int) =~= freed@);
            assert(self@.ready.skip(pre.ready.len() as int) =~= freed@);
            assert(self@ =~= pre.after_object(object_id@, freed@));
            pre.lemma_object_wf(object_id@, self@);
        }
    }

    /// Whether a worker has a task; the error where it has not.
    fn ensure_owned_by_worker(&self, worker_id: WorkerId, task_id: TaskId) -> (r: Result<
        (),
        MiniRayError,
    >)
        ensures
            match r {
                Ok(_) => self@.owns(worker_id@, task_id@),
                Err(e) => !self@.owns(worker_id@, task_id@) && e@ == self@.disowned(
                    worker_id,
                    task_id,
                ),
            },
    {
        match self.tasks.get(&task_id.0) {
            None => Err(unknown_task_error(task_id)),
            Some(record) => match record.state {
                TaskState::Leased(owner) => if owner == worker_id {
                    Ok(())
                } else {
                    Err(not_owned_error(task_id, worker_id))
                },
                TaskState::Running(owner) => if owner == worker_id {
                    Ok(())
                } else {
                    Err(not_owned_error(task_id, worker_id))
                },
                _ => Err(not_owned_error(task_id, worker_id)),
            },
        }
    }

    /// Checks that a worker has a task.
    pub fn validate_task_owner(&self, worker_id: WorkerId, task_id: TaskId) -> (r: Result<
        (),
        MiniRayError,
    >)
        ensures
            match r {
                Ok(_) => self@.owns(worker_id@, task_id@),
                Err(e) => !self@.owns(worker_id@, task_id@) && e@ == self@.disowned(
                    worker_id,
                    task_id,
                ),
            },
    {
        self.ensure_owned_by_worker(worker_id, task_id)
    }

    /// Takes a task off a worker's list of leases.
    fn remove_worker_lease(&mut self, w: u128, t: u128)
        ensures
            final(self)@ == old(self)@.after_release(w, t),
    {
        if let Some(worker) = self.workers.remove(&w) {
            self.workers.insert(
                w,
                WorkerRecord {
                    slots: worker.slots,
                    last_heartbeat: worker.last_heartbeat,
                    leased: drop_task(worker.leased, t),
                },
            );
        }
        assert(self@ =~= old(self)@.after_release(w, t));
    }

    /// Notes that a worker has started a task that was leased to it.
    pub fn mark_running(&mut self, worker_id: WorkerId, task_id: TaskId) -> (r: Result<
        (),
        MiniRayError,
    >)
        requires
            old(self)@.wf(),
        ensures
            match r {
                Ok(_) => {
                    &&& old(self)@.tasks.contains_key(task_id@)
                    &&& old(self)@.tasks[task_id@].state == TaskStateView::Leased(worker_id@)
                    &&& final(self)@ == old(self)@.with_state(
                        task_id@,
                        TaskStateView::Running(worker_id@),
                    )
                },
                Err(e) => {
                    &&& final(self)@ == old(self)@
                    &&& if old(self)@.tasks.contains_key(task_id@) {
                        &&& old(self)@.tasks[task_id@].state != TaskStateView::Leased(worker_id@)
                        &&& e@ == not_leased(task_id, worker_id)
                    } else {
                        e@ == unknown_task(task_id)
                    }
                },
            },
            final(self)@.wf(),
    {
        let leased = match self.tasks.get(&task_id.0) {
            None => {
                return Err(unknown_task_error(task_id));
            },
            Some(record) => match record.state {
                TaskState::Leased(owner) => owner == worker_id,
                _ => false,
            },
        };
        if !leased {
            return Err(not_leased_error(task_id, worker_id));
        }
        self.set_state(task_id.0, TaskState::Running(worker_id));
        proof {
            old(self)@.lemma_running_wf(worker_id@, task_id@);
        }
        Ok(())
    }

    /// Notes that a worker has finished a task, whose result is now available.
    pub fn complete(
        &mut self,
        worker_id: WorkerId,
        task_id: TaskId,
        output_id: ObjectId,
    ) -> (r: Result<(), MiniRayError>)
        requires
            old(self)@.wf(),
        ensures
            match r {
                Ok(_) => old(self)@.owns(worker_id@, task_id@) && old(self)@.completes(
                    worker_id@,
                    task_id@,
                    output_id@,
                    final(self)@,
                ),
                Err(e) => !old(self)@.owns(worker_id@, task_id@) && final(self)@ == old(self)@
                    && e@ == old(self)@.disowned(worker_id, task_id),
            },
            final(self)@.wf(),
    {
        match self.ensure_owned_by_worker(worker_id, task_id) {
            Err(e) => {
                return Err(e);
            },
            Ok(_) => {},
        }
        self.remove_worker_lease(worker_id.0, task_id.0);
        self.set_state(task_id.0, TaskState::Finished);
        proof {
            old(self)@.lemma_finish_wf(worker_id@, task_id@);
        }
        self.object_available(output_id);
        Ok(())
    }

    /// Notes that a worker could not do a task. The task is tried again where it may be, and has
    /// failed otherwise.
    pub fn fail(&mut self, worker_id: WorkerId, task_id: TaskId, error: String) -> (r: Result<
        (),
        MiniRayError,
    >)
        requires
            old(self)@.wf(),
        ensures
            match r {
                Ok(_) => old(self)@.owns(worker_id@, task_id@) && final(self)@ == old(
                    self,
                )@.after_fail(worker_id@, task_id@, error@),
                Err(e) => !old(self)@.owns(worker_id@, task_id@) && final(self)@ == old(self)@
                    && e@ == old(self)@.disowned(worker_id, task_id),
            },
            final(self)@.wf(),
    {
        match self.ensure_owned_by_worker(worker_id, task_id) {
            Err(e) => {
                return Err(e);
            },
            Ok(_) => {},
        }
        self.remove_worker_lease(worker_id.0, task_id.0);
        match self.tasks.remove(&task_id.0) {
            None => {
                return Err(unknown_task_error(task_id));
            },
            Some(record) => {
                if record.spec.attempt < record.spec.max_retries {
                    let mut spec = record.spec;
                    spec.attempt = spec.attempt + 1;
                    self.tasks.insert(task_id.0, TaskRecord { spec, state: TaskState::Ready });
                    self.ready.push_back(task_id.0);
                } else {
                    self.tasks.insert(
                        task_id.0,
                        TaskRecord { spec: record.spec, state: TaskState::Failed(error) },
                    );
                }
            },
        }
        proof {
            assert(self@ =~= old(self)@.after_fail(worker_id@, task_id@, error@));
            old(self)@.lemma_fail_wf(worker_id@, task_id@, error@);
        }
        Ok(())
    }

    /// Whether a worker may run a task.
    fn can_run(&self, record: &TaskRecord, worker_id: WorkerId) -> (can: bool)
        ensures
            can == record@.can_run(worker_id@),
    {
        match record.spec.target_worker {
            Some(target) => target == worker_id,
            None => true,
        }
    }

    /// Takes the first task off the queue that a worker may run.
    fn pop_ready_for_worker(&mut self, worker_id: WorkerId) -> (r: Option<u128>)
        ensures
            match r {
                Some(t) => exists|i: int|
                    {
                        &&& #[trigger] old(self)@.allows_pick(worker_id@, Pick::Queued(i))
                        &&& t == old(self)@.picked(Pick::Queued(i))
                        &&& final(self)@ == old(self)@.after_take(Pick::Queued(i))
                    },
                None => old(self)@.none_queued_for(worker_id@) && final(self)@ == old(self)@,
            },
    {
        let n = self.ready.len();
        for i in 0..n
            invariant
                n == self.ready@.len(),
                self@ == old(self)@,
                forall|j: int|
                    0 <= j < i ==> !self@.can_run(#[trigger] self@.ready[j], worker_id@),
        {
            let runnable = match self.tasks.get(&self.ready[i]) {
                Some(record) => self.can_run(record, worker_id),
                None => false,
            };
            if runnable {
                let task = self.ready.remove(i);
                proof {
                    assert(self@ =~= old(self)@.after_take(Pick::Queued(i as int)));
                    assert(old(self)@.allows_pick(worker_id@, Pick::Queued(i as int)));
                }
                return task;
            }
        }
        None
    }

    /// Another worker that holds several tasks, more than which none holds.
    fn busiest_worker(&self, thief: u128) -> (r: Option<u128>)
        ensures
            match r {
                Some(v) => self@.busiest(thief, v),
                None => forall|v: u128| !#[trigger] self@.may_lose(thief, v),
            },
    {
        let keys = keys_of(&self.workers);
        let mut best: Option<(u128, usize)> = None;
        let n = keys.len();
        for i in 0..n
            invariant
                n == keys@.len(),
                forall|k: u128| #[trigger] keys@.contains(k) <==> self.workers@.contains_key(k),
                match best {
                    Some((v, held)) => {
                        &&& self@.may_lose(thief, v)
                        &&& self@.workers[v].leased.len() == held
                        &&& forall|j: int|
                            0 <= j < i && self@.may_lose(thief, #[trigger] keys@[j])
                                ==> self@.workers[keys@[j]].leased.len() <= held
                    },
                    None => forall|j: int|
                        0 <= j < i ==> !self@.may_lose(thief, #[trigger] keys@[j]),
                },
        {
            let v = keys[i];
            assert(keys@.contains(v));
            if let Some(worker) = self.workers.get(&v) {
                let held = worker.leased.len();
                if v != thief && held > 1 {
                    let more = match best {
                        Some((_, most)) => held >= most,
                        None => true,
                    };
                    if more {
                        best = Some((v, held));
                    }
                }
            }
        }
        match best {
            Some((v, held)) => {
                assert forall|x: u128| #[trigger]
                    self@.may_lose(thief, x) implies self@.workers[x].leased.len()
                    <= self@.workers[v].leased.len() by {
                    assert(keys@.contains(x));
                    let j = choose|j: int| 0 <= j < keys@.len() && keys@[j] == x;
                    assert(self@.may_lose(thief, keys@[j]));
                }
                Some(v)
            },
            None => {
                assert forall|x: u128| !#[trigger] self@.may_lose(thief, x) by {
                    if self@.may_lose(thief, x) {
                        assert(keys@.contains(x));
                        let j = choose|j: int| 0 <= j < keys@.len() && keys@[j] == x;
                        assert(!self@.may_lose(thief, keys@[j]));
                    }
                }
                None
            },
        }
    }

    /// Takes a task that has not been started from the busiest other worker.
    fn steal_from_busiest(&mut self, thief: WorkerId) -> (r: Option<u128>)
        requires
            old(self)@.wf(),
        ensures
            match r {
                Some(t) => exists|v: u128, j: int|
                    {
                        &&& #[trigger] old(self)@.allows_theft(thief@, v, j)
                        &&& t == old(self)@.picked(Pick::Stolen(v, j))
                        &&& final(self)@ == old(self)@.after_take(Pick::Stolen(v, j))
                    },
                None => old(self)@.allows_no_theft(thief@) && final(self)@ == old(self)@,
            },
    {
        let victim = match self.busiest_worker(thief.0) {
            Some(v) => v,
            None => {
                return None;
            },
        };
        let worker = match self.workers.remove(&victim) {
            Some(worker) => worker,
            None => {
                return None;
            },
        };
        let ghost pre = old(self)@;
        let n = worker.leased.len();
        let mut index: usize = n;
        let mut i: usize = 0;
        while i < n && index == n
            invariant
                n == worker.leased@.len(),
                self.tasks@ == old(self).tasks@,
                pre == old(self)@,
                self@.tasks == pre.tasks,
                worker@ == pre.workers[victim],
                i <= n,
                index <= n,
                index < n ==> model::is_first(
                    worker.leased@,
                    |t: u128| pre.stealable(t, thief@),
                    index as int,
                ),
                index == n ==> forall|j: int|
                    0 <= j < i ==> !pre.stealable(#[trigger] worker.leased@[j], thief@),
            decreases n - i,
        {
            let stealable = match self.tasks.get(&worker.leased[i]) {
                Some(record) => matches!(record.state, TaskState::Leased(_)) && self.can_run(
                    record,
                    thief,
                ),
                None => false,
            };
            assert(stealable == pre.stealable(worker.leased@[i as int], thief@));
            if stealable {
                index = i;
            }
            i = i + 1;
        }
        if index == n {
            self.workers.insert(victim, worker);
            assert(self@ =~= pre);
            return None;
        }
        let mut leased = worker.leased;
        let task = leased.remove(index);
        self.workers.insert(
            victim,
            WorkerRecord { slots: worker.slots, last_heartbeat: worker.last_heartbeat, leased },
        );
        match task {
            Some(t) => {
                assert(pre.workers[victim].leased.contains(t));
                self.set_state(t, TaskState::Ready);
                assert(self@ =~= pre.after_take(Pick::Stolen(victim, index as int)));
                assert(pre.allows_theft(thief@, victim, index as int));
                Some(t)
            },
            None => None,
        }
    }

    /// Takes the next task for a worker: off the queue, or else from another worker.
    fn next_task(&mut self, worker_id: WorkerId) -> (r: Option<u128>)
        requires
            old(self)@.wf(),
        ensures
            match r {
                Some(t) => exists|pick: Pick|
                    {
                        &&& #[trigger] old(self)@.allows_pick(worker_id@, pick)
                        &&& t == old(self)@.picked(pick)
                        &&& final(self)@ == old(self)@.after_take(pick)
                    },
                None => old(self)@.allows_nothing(worker_id@) && final(self)@ == old(self)@,
            },
    {
        match self.pop_ready_for_worker(worker_id) {
            Some(t) => Some(t),
            None => {
                let ghost pre = self@;
                let stolen = self.steal_from_busiest(worker_id);
                proof {
                    if let Some(t) = stolen {
                        let (v, j) = choose|v: u128, j: int|
                            {
                                &&& #[trigger] pre.allows_theft(worker_id@, v, j)
                                &&& t == pre.picked(Pick::Stolen(v, j))
                                &&& self@ == pre.after_take(Pick::Stolen(v, j))
                            };
                        assert(pre.allows_pick(worker_id@, Pick::Stolen(v, j)));
                    }
                }
                stolen
            },
        }
    }

    /// Gives a task to a worker.
    fn give(&mut self, worker_id: WorkerId, t: u128) -> (spec: TaskSpec)
        requires
            old(self)@.tasks.contains_key(t),
            old(self)@.workers.contains_key(worker_id@),
        ensures
            final(self)@ == old(self)@.after_give(t, worker_id@),
            spec@ == old(self)@.tasks[t].spec,
    {
        let spec = self.tasks.get(&t).unwrap().spec.clone();
        self.set_state(t, TaskState::Leased(worker_id));
        if let Some(worker) = self.workers.remove(&worker_id.0) {
            let mut leased = worker.leased;
            leased.push_back(t);
            self.workers.insert(
                worker_id.0,
                WorkerRecord { slots: worker.slots, last_heartbeat: worker.last_heartbeat, leased },
            );
        }
        assert(self@ =~= old(self)@.after_give(t, worker_id@));
        spec
    }

    /// Gives tasks to a worker that asks for up to `capacity` of them.
    pub fn lease_tasks(&mut self, worker_id: WorkerId, capacity: usize) -> (r: Result<
        Vec<TaskSpec>,
        MiniRayError,
    >)
        requires
            old(self)@.wf(),
        ensures
            match r {
                Ok(assigned) => old(self)@.workers.contains_key(worker_id@) && old(self)@.leases(
                    worker_id@,
                    capacity as nat,
                    spec_views(assigned@),
                    final(self)@,
                ),
                Err(e) => !old(self)@.workers.contains_key(worker_id@) && final(self)@ == old(
                    self,
                )@ && e@ == unknown_worker(worker_id),
            },
            final(self)@.wf(),
    {
        let (slots, held) = match self.workers.get(&worker_id.0) {
            Some(worker) => (worker.slots, worker.leased.len()),
            None => {
                return Err(unknown_worker_error(worker_id));
            },
        };
        let free: usize = if held < slots {
            slots - held
        } else {
            0
        };
        let available: usize = if free < capacity {
            free
        } else {
            capacity
        };
        let extra = steal_capacity(capacity, held);
        let to_assign: usize = if available < extra {
            extra
        } else {
            available
        };
        let ghost pre = old(self)@;
        let ghost w = worker_id@;
        assert(to_assign == pre.quota(w, capacity as nat));
        let mut assigned: Vec<TaskSpec> = Vec::new();
        let ghost mut picks: Seq<Pick> = Seq::empty();
        let mut count: usize = 0;
        let mut exhausted = false;
        assert(spec_views(assigned@) =~= pre.picked_specs(w, picks));
        while count < to_assign && !exhausted
            invariant
                pre.workers.contains_key(w),
                w == worker_id@,
                count <= to_assign,
                picks.len() == count,
                pre.allows_picks(w, picks),
                self@ == pre.after_picks(w, picks),
                spec_views(assigned@) == pre.picked_specs(w, picks),
                self@.wf(),
                self@.workers.contains_key(w),
                exhausted ==> self@.allows_nothing(w),
            decreases to_assign - count + (if exhausted {
                0int
            } else {
                1int
            }),
        {
            let ghost before = self@;
            match self.next_task(worker_id) {
                None => {
                    exhausted = true;
                },
                Some(t) => {
                    let ghost pick = choose|pick: Pick|
                        {
                            &&& #[trigger] before.allows_pick(w, pick)
                            &&& t == before.picked(pick)
                            &&& self@ == before.after_take(pick)
                        };
                    proof {
                        before.lemma_pick_wf(w, pick);
                    }
                    let spec = self.give(worker_id, t);
                    let ghost specs = spec_views(assigned@);
                    assigned.push(spec);
                    proof {
                        let longer = picks.push(pick);
                        assert(longer.drop_last() =~= picks);
                        assert(spec_views(assigned@) =~= specs.push(spec@));
                        picks = longer;
                    }
                    count = count + 1;
                },
            }
        }
        proof {
            assert(pre.leases_by(w, capacity as nat, picks, spec_views(assigned@), self@));
        }
        Ok(assigned)
    }

    /// Makes tasks fail that have not come to their end, and returns those.
    pub fn fail_tasks(&mut self, task_ids: &[TaskId], error: String) -> (failed: Vec<TaskId>)
        requires
            old(self)@.wf(),
        ensures
            task_numbers(failed@) == old(self)@.active_of(task_numbers(task_ids@)),
            final(self)@ == old(self)@.after_fail_tasks(task_numbers(task_ids@), error@),
            final(self)@.wf(),
    {
        let mut failed: Vec<TaskId> = Vec::new();
        let ghost pre = old(self)@;
        let ghost list = task_numbers(task_ids@);
        let n = task_ids.len();
        proof {
            pre.lemma_fail_no_tasks(error@);
            assert(list.take(0) =~= Seq::<u128>::empty());
            assert(task_numbers(failed@) =~= pre.active_of(list.take(0)));
        }
        for i in 0..n
            invariant
                n == task_ids@.len(),
                pre.wf(),
                list == task_numbers(task_ids@),
                self@ == pre.after_fail_tasks(list.take(i as int), error@),
                task_numbers(failed@) == pre.active_of(list.take(i as int)),
        {
            let task_id = task_ids[i];
            let t = task_id.0;
            let ghost done = list.take(i as int);
            let ghost mid = self@;
            let state = self.task_state(task_id);
            let ghost numbers = task_numbers(failed@);
            proof {
                assert(list[i as int] == t);
                assert(list.take(i + 1) =~= done.push(t));
                assert(done.push(t).drop_last() =~= done);
                pre.lemma_fail_one_task(done, t, error@);
            }
            match state {
                None => {},
                Some(state) => match state {
                    TaskState::Finished => {},
                    TaskState::Failed(_) => {},
                    TaskState::Pending => {
                        self.drop_ready(t);
                        self.set_state(t, TaskState::Failed(error.clone()));
                        failed.push(task_id);
                        assert(task_numbers(failed@) =~= numbers.push(t));
                    },
                    TaskState::Ready => {
                        self.drop_ready(t);
                        self.set_state(t, TaskState::Failed(error.clone()));
                        failed.push(task_id);
                        assert(task_numbers(failed@) =~= numbers.push(t));
                    },
                    TaskState::Leased(worker_id) => {
                        assert(mid.tasks[t].state.owned_by(worker_id@));
                        self.remove_worker_lease(worker_id.0, t);
                        self.set_state(t, TaskState::Failed(error.clone()));
                        failed.push(task_id);
                        assert(task_numbers(failed@) =~= numbers.push(t));
                    },
                    TaskState::Running(worker_id) => {
                        assert(mid.tasks[t].state.owned_by(worker_id@));
                        self.remove_worker_lease(worker_id.0, t);
                        self.set_state(t, TaskState::Failed(error.clone()));
                        failed.push(task_id);
                        assert(task_numbers(failed@) =~= numbers.push(t));
                    },
                },
            }
        }
        proof {
            assert(list.take(n as int) =~= list);
            pre.lemma_fail_tasks_wf(list, error@);
        }
        failed
    }

    /// Takes a task off the queue.
    fn drop_ready(&mut self, t: u128)
        ensures
            final(self)@ == (SchedulerView { ready: model::without(old(self)@.ready, t), ..old(
                self,
            )@ }),
    {
        let mut ready: VecDeque<u128> = VecDeque::new();
        std::mem::swap(&mut ready, &mut self.ready);
        self.ready = drop_task(ready, t);
    }

    /// Releases all tasks from being pinned to a worker.
    fn unpin_tasks(&mut self, worker_id: WorkerId)
        ensures
            final(self)@.tasks.dom() == old(self)@.tasks.dom(),
            forall|t: u128| #[trigger]
                old(self)@.tasks.contains_key(t) ==> final(self)@.tasks[t] == old(
                    self,
                )@.tasks[t].unpinned_from(worker_id@),
            final(self)@ == (SchedulerView { tasks: final(self)@.tasks, ..old(self)@ }),
    {
        let keys = keys_of(&self.tasks);
        let n = keys.len();
        let ghost pre = self@;
        for i in 0..n
            invariant
                n == keys@.len(),
                keys@.no_duplicates(),
                forall|k: u128| #[trigger] keys@.contains(k) <==> pre.tasks.contains_key(k),
                self@.tasks.dom() == pre.tasks.dom(),
                forall|t: u128| #[trigger]
                    pre.tasks.contains_key(t) ==> self@.tasks[t] == (if keys@.take(
                        i as int,
                    ).contains(t) {
                        pre.tasks[t].unpinned_from(worker_id@)
                    } else {
                        pre.tasks[t]
                    }),
                self@ == (SchedulerView { tasks: self@.tasks, ..pre }),
        {
            let t = keys[i];
            let ghost before = self@;
            assert(keys@.contains(t));
            assert(before.tasks.contains_key(t));
            let mut record = self.tasks.remove(&t).unwrap();
            let pinned = match record.spec.target_worker {
                Some(target) => target == worker_id,
                None => false,
            };
            if pinned {
                record.spec.target_worker = None;
            }
            self.tasks.insert(t, record);
            proof {
                let taken = keys@.take(i as int);
                assert(keys@.take(i + 1) =~= taken.push(t));
                assert(!taken.contains(t));
                assert(self@.tasks =~= before.tasks.insert(
                    t,
                    pre.tasks[t].unpinned_from(worker_id@),
                ));
                assert forall|x: u128| #[trigger] pre.tasks.contains_key(x) implies self@.tasks[x]
                    == (if keys@.take(i + 1).contains(x) {
                    pre.tasks[x].unpinned_from(worker_id@)
                } else {
                    pre.tasks[x]
                }) by {
                    lemma_push_contains(taken, t, x);
                }
                assert(self@.tasks.dom() =~= pre.tasks.dom());
            }
        }
        assert(keys@.take(n as int) =~= keys@);
    }

    /// Removes a worker. Its tasks are tried again where they may be, and have failed otherwise.
    /// An unknown worker is ignored.
    pub fn remove_worker(&mut self, worker_id: WorkerId, failure_reason: String) -> (r: Option<
        WorkerExpiry,
    >)
        requires
            old(self)@.wf(),
        ensures
            match r {
                Some(expiry) => {
                    &&& old(self)@.workers.contains_key(worker_id@)
                    &&& expiry@ == old(self)@.expiry(worker_id@)
                    &&& final(self)@ == old(self)@.after_remove(worker_id@, failure_reason@)
                },
                None => !old(self)@.workers.contains_key(worker_id@) && final(self)@ == old(self)@,
            },
            final(self)@.wf(),
    {
        let ghost pre = old(self)@;
        let ghost w = worker_id@;
        let ghost reason = failure_reason@;
        let worker = match self.workers.remove(&worker_id.0) {
            Some(worker) => worker,
            None => {
                assert(self@ =~= pre);
                return None;
            },
        };
        let leased = worker.leased;
        let ghost held = pre.workers[w].leased;
        assert(held == leased@);
        assert(self@.workers =~= pre.workers.remove(w));
        self.unpin_tasks(worker_id);
        let mut retried_tasks: Vec<TaskId> = Vec::new();
        let mut failed_tasks: Vec<TaskId> = Vec::new();
        let n = leased.len();
        proof {
            reveal(Seq::filter);
            assert(task_numbers(retried_tasks@) =~= held.take(0).filter(pre.may_retry()));
            assert(task_numbers(failed_tasks@) =~= held.take(0).filter(pre.may_not_retry()));
            assert(self@.ready =~= pre.ready + held.take(0).filter(pre.may_retry()));
        }
        for i in 0..n
            invariant
                n == leased@.len(),
                held == leased@,
                pre.wf(),
                pre.workers.contains_key(w),
                held == pre.workers[w].leased,
                reason == failure_reason@,
                self@.tasks.dom() == pre.tasks.dom(),
                forall|t: u128| #[trigger]
                    pre.tasks.contains_key(t) ==> self@.tasks[t] == (if held.take(
                        i as int,
                    ).contains(t) {
                        pre.tasks[t].unpinned_from(w).after_setback(reason)
                    } else {
                        pre.tasks[t].unpinned_from(w)
                    }),
                self@.ready == pre.ready + held.take(i as int).filter(pre.may_retry()),
                self@.workers == pre.workers.remove(w),
                self@.known_objects == pre.known_objects,
                self@.heartbeat_timeout == pre.heartbeat_timeout,
                task_numbers(retried_tasks@) == held.take(i as int).filter(pre.may_retry()),
                task_numbers(failed_tasks@) == held.take(i as int).filter(pre.may_not_retry()),
        {
            let t = leased[i];
            let ghost before = self@;
            let ghost taken = held.take(i as int);
            let ghost retried = task_numbers(retried_tasks@);
            let ghost failed = task_numbers(failed_tasks@);
            assert(held.contains(t));
            assert(pre.tasks.contains_key(t) && pre.tasks[t].state.owned_by(w));
            assert(before.tasks.contains_key(t));
            assert(!taken.contains(t));
            let record = self.tasks.remove(&t).unwrap();
            let with_worker = matches!(record.state, TaskState::Leased(_) | TaskState::Running(_));
            assert(with_worker);
            if with_worker {
                if record.spec.attempt < record.spec.max_retries {
                    let mut spec = record.spec;
                    spec.attempt = spec.attempt + 1;
                    self.tasks.insert(t, TaskRecord { spec, state: TaskState::Ready });
                    self.ready.push_back(t);
                    retried_tasks.push(TaskId(t));
                } else {
                    self.tasks.insert(
                        t,
                        TaskRecord {
                            spec: record.spec,
                            state: TaskState::Failed(failure_reason.clone()),
                        },
                    );
                    failed_tasks.push(TaskId(t));
                }
            } else {
                self.tasks.insert(t, record);
            }
            proof {
                reveal(Seq::filter);
                assert(held.take(i + 1) =~= taken.push(t));
                assert(taken.push(t).drop_last() =~= taken);
                assert(self@.tasks =~= before.tasks.insert(
                    t,
                    pre.tasks[t].unpinned_from(w).after_setback(reason),
                ));
                assert forall|x: u128| #[trigger] pre.tasks.contains_key(x) implies self@.tasks[x]
                    == (if held.take(i + 1).contains(x) {
                    pre.tasks[x].unpinned_from(w).after_setback(reason)
                } else {
                    pre.tasks[x].unpinned_from(w)
                }) by {
                    lemma_push_contains(taken, t, x);
                }
                assert(self@.tasks.dom() =~= pre.tasks.dom());
                if pre.tasks[t].retryable() {
                    assert(task_numbers(retried_tasks@) =~= retried.push(t));
                    assert(self@.ready =~= pre.ready + retried.push(t));
                } else {
                    assert(task_numbers(failed_tasks@) =~= failed.push(t));
                }
            }
        }
        let expiry = WorkerExpiry { worker_id, retried_tasks, failed_tasks };
        proof {
            assert(held.take(n as int) =~= held);
            assert(self@ =~= pre.after_remove(w, reason));
            pre.lemma_remove_wf(w, reason);
        }
        Some(expiry)
    }

    /// The workers that have been silent for longer than the timeout, in some order.
    fn silent_workers(&self, now: Instant) -> (silent: Vec<u128>)
        ensures
            silent@.no_duplicates(),
            forall|w: u128| #[trigger] silent@.contains(w) <==> self@.silent(w, now),
            forall|w: u128| #[trigger]
                silent@.contains(w) ==> self@.workers[w].last_heartbeat != now,
    {
        let keys = keys_of(&self.workers);
        let mut silent: Vec<u128> = Vec::new();
        let n = keys.len();
        for i in 0..n
            invariant
                n == keys@.len(),
                keys@.no_duplicates(),
                forall|k: u128| #[trigger] keys@.contains(k) <==> self.workers@.contains_key(k),
                silent@.no_duplicates(),
                forall|w: u128| #[trigger]
                    silent@.contains(w) <==> keys@.take(i as int).contains(w) && self@.silent(
                        w,
                        now,
                    ),
                forall|w: u128| #[trigger]
                    silent@.contains(w) ==> self@.workers[w].last_heartbeat != now,
        {
            let w = keys[i];
            let ghost before = silent@;
            assert(keys@.contains(w));
            assert(!keys@.take(i as int).contains(w));
            assert(!before.contains(w));
            if let Some(worker) = self.workers.get(&w) {
                if clock::heartbeat_expired(
                    now.duration_since(worker.last_heartbeat),
                    self.heartbeat_timeout,
                ) {
                    assert(self@.silent(w, now));
                    silent.push(w);
                } else {
                    assert(!self@.silent(w, now));
                }
            }
            proof {
                assert(keys@.take(i + 1) =~= keys@.take(i as int).push(w));
                assert forall|x: u128| #[trigger]
                    silent@.contains(x) <==> keys@.take(i + 1).contains(x) && self@.silent(
                        x,
                        now,
                    ) by {
                    lemma_push_contains(before, w, x);
                    lemma_push_contains(keys@.take(i as int), w, x);
                    assert(before.contains(x) <==> keys@.take(i as int).contains(x)
                        && self@.silent(x, now));
                }
                assert forall|x: u128| #[trigger] silent@.contains(
                    x,
                ) implies self@.workers[x].last_heartbeat != now by {
                    lemma_push_contains(before, w, x);
                    assert(before.contains(x) ==> self@.workers[x].last_heartbeat != now);
                }
            }
        }
        assert(keys@.take(n as int) =~= keys@);
        assert forall|w: u128| #[trigger] silent@.contains(w) <==> self@.silent(w, now) by {
            assert(keys@.contains(w) <==> self.workers@.contains_key(w));
        }
        silent
    }

    /// Removes the workers that have been silent for longer than the timeout.
    pub fn expire_workers(&mut self) -> (report: Vec<WorkerExpiry>)
        requires
            old(self)@.wf(),
        ensures
            exists|now: Instant|
                {
                    &&& clock::may_read(now)
                    &&& #[trigger] old(self)@.expires(now, expiry_views(report@), final(self)@)
                },
            final(self)@.wf(),
    {
        self.expire_workers_at(Instant::now())
    }

    /// Removes the workers that, at `now`, have been silent for longer than the timeout. A worker
    /// that was heard of at `now` stays.
    pub fn expire_workers_at(&mut self, now: Instant) -> (report: Vec<WorkerExpiry>)
        requires
            old(self)@.wf(),
        ensures
            old(self)@.expires(now, expiry_views(report@), final(self)@),
            forall|w: u128|
                old(self)@.workers.contains_key(w) && old(self)@.workers[w].last_heartbeat == now
                    ==> #[trigger] final(self)@.workers.contains_key(w),
            final(self)@.wf(),
    {
        let ghost pre = self@;
        let ghost reason = "worker heartbeat expired"@;
        let silent = self.silent_workers(now);
        let n = silent.len();
        let mut report: Vec<WorkerExpiry> = Vec::new();
        assert(expiry_views(report@) =~= pre.expiries(silent@.take(0), reason));
        for i in 0..n
            invariant
                n == silent@.len(),
                silent@.no_duplicates(),
                forall|w: u128| #[trigger] silent@.contains(w) <==> pre.silent(w, now),
                reason == "worker heartbeat expired"@,
                self@.wf(),
                self@ == pre.after_removals(silent@.take(i as int), reason),
                expiry_views(report@) == pre.expiries(silent@.take(i as int), reason),
        {
            let w = silent[i];
            let ghost taken = silent@.take(i as int);
            let ghost views = expiry_views(report@);
            proof {
                assert(silent@.contains(w));
                assert(!taken.contains(w));
                pre.lemma_removals_workers(taken, reason);
                assert(silent@.take(i + 1) =~= taken.push(w));
                assert(taken.push(w).drop_last() =~= taken);
            }
            if let Some(expiry) = self.remove_worker(
                WorkerId(w),
                "worker heartbeat expired".to_owned(),
            ) {
                report.push(expiry);
                assert(expiry_views(report@) =~= views.push(expiry@));
            }
        }
        proof {
            assert(silent@.take(n as int) =~= silent@);
            pre.lemma_expiries_workers(silent@, reason);
            pre.lemma_removals_workers(silent@, reason);
        }
        report
    }
}

impl SchedulerView {
    /// The error for a worker that does not have a task.
    pub open spec fn disowned(self, w: WorkerId, t: TaskId) -> ErrorView {
        if self.tasks.contains_key(t@) {
            not_owned(t, w)
        } else {
            unknown_task(t)
        }
    }
}

impl Default for Scheduler {
    /// An empty scheduler that gives up on a worker after ten seconds.
    fn default() -> (scheduler: Self)
        ensures
            scheduler@ == SchedulerView::empty(scheduler@.heartbeat_timeout),
            clock::duration_nanos(scheduler@.heartbeat_timeout) == 10_000_000_000,
            scheduler@.wf(),
    {
        Self::new(clock::default_heartbeat_timeout())
    }
}

} // verus!
