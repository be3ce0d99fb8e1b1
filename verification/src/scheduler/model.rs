//! What a scheduler holds, and what each of its operations does to it.
use crate::clock;
use crate::task::TaskSpecView;
use std::time::{Duration, Instant};
use vstd::prelude::*;

verus! {

/// How far a task has come.
#[verifier::ext_equal]
pub enum TaskStateView {
    Pending,
    Ready,
    Leased(u128),
    Running(u128),
    Finished,
    Failed(Seq<char>),
}

/// A task with its state.
#[verifier::ext_equal]
pub struct TaskView {
    pub spec: TaskSpecView,
    pub state: TaskStateView,
}

/// A registered worker: its slots, when it was last heard of, and the tasks leased to it in the
/// order in which it got them.
#[verifier::ext_equal]
pub struct WorkerView {
    pub slots: nat,
    pub last_heartbeat: Instant,
    pub leased: Seq<u128>,
}

/// What became of the tasks of a worker that was removed.
#[verifier::ext_equal]
pub struct ExpiryView {
    pub worker_id: u128,
    pub retried_tasks: Seq<u128>,
    pub failed_tasks: Seq<u128>,
}

/// The content of a scheduler.
#[verifier::ext_equal]
pub struct SchedulerView {
    pub tasks: Map<u128, TaskView>,
    /// The tasks that wait for a worker, first come first served.
    pub ready: Seq<u128>,
    pub known_objects: Set<u128>,
    pub workers: Map<u128, WorkerView>,
    pub heartbeat_timeout: Duration,
}

/// Which task a worker gets next: the one at a place of the ready queue, or the one at a place of
/// another worker's list of leases.
pub enum Pick {
    Queued(int),
    Stolen(u128, int),
}

/// Whether `i` is the first place in `s` where `p` holds.
pub open spec fn is_first(s: Seq<u128>, p: spec_fn(u128) -> bool, i: int) -> bool {
    &&& 0 <= i < s.len()
    &&& p(s[i])
    &&& forall|j: int| 0 <= j < i ==> !p(#[trigger] s[j])
}

/// Being another number than `x`.
pub open spec fn other_than(x: u128) -> spec_fn(u128) -> bool {
    |y: u128| y != x
}

/// Not being in `list`.
pub open spec fn outside(list: Seq<u128>) -> spec_fn(u128) -> bool {
    |y: u128| !list.contains(y)
}

/// `s` without `x`.
pub open spec fn without(s: Seq<u128>, x: u128) -> Seq<u128> {
    s.filter(other_than(x))
}

impl TaskStateView {
    /// Whether the task is with worker `w`.
    pub open spec fn owned_by(self, w: u128) -> bool {
        self == TaskStateView::Leased(w) || self == TaskStateView::Running(w)
    }

    /// Whether the task is with any worker.
    pub open spec fn owned(self) -> bool {
        self is Leased || self is Running
    }

    /// Whether the task has come to its end.
    pub open spec fn terminal(self) -> bool {
        self is Finished || self is Failed
    }
}

impl TaskView {
    /// Whether the task may be tried once more.
    pub open spec fn retryable(self) -> bool {
        self.spec.attempt < self.spec.max_retries
    }

    /// Whether worker `w` may run the task.
    pub open spec fn can_run(self, w: u128) -> bool {
        match self.spec.target_worker {
            Some(target) => target == w,
            None => true,
        }
    }

    /// The task in another state.
    pub open spec fn with_state(self, state: TaskStateView) -> TaskView {
        TaskView { state, ..self }
    }

    /// The task after an attempt came to nothing: ready for the next attempt, or failed for
    /// `reason` where no attempt is left.
    pub open spec fn after_setback(self, reason: Seq<char>) -> TaskView {
        if self.retryable() {
            TaskView {
                spec: TaskSpecView { attempt: (self.spec.attempt + 1) as u32, ..self.spec },
                state: TaskStateView::Ready,
            }
        } else {
            self.with_state(TaskStateView::Failed(reason))
        }
    }

    /// The task when it is no longer pinned to `w`.
    pub open spec fn unpinned_from(self, w: u128) -> TaskView {
        if self.spec.target_worker == Some(w) {
            TaskView { spec: TaskSpecView { target_worker: None, ..self.spec }, ..self }
        } else {
            self
        }
    }
}

/// How many tasks a worker is given: what its free slots allow, up to `capacity`; but a worker
/// that holds nothing is given all it asks for.
pub open spec fn assignable(slots: nat, held: nat, capacity: nat) -> nat {
    let free: nat = if held < slots {
        (slots - held) as nat
    } else {
        0
    };
    let available = if free < capacity {
        free
    } else {
        capacity
    };
    if capacity > 0 && held == 0 {
        capacity
    } else {
        available
    }
}

impl SchedulerView {
    /// An empty scheduler.
    pub open spec fn empty(heartbeat_timeout: Duration) -> SchedulerView {
        SchedulerView {
            tasks: Map::empty(),
            ready: Seq::empty(),
            known_objects: Set::empty(),
            workers: Map::empty(),
            heartbeat_timeout,
        }
    }

    /// Whether every object in the list is available.
    pub open spec fn all_known(self, objects: Seq<u128>) -> bool {
        forall|i: int| 0 <= i < objects.len() ==> self.known_objects.contains(#[trigger] objects[i])
    }

    /// Tasks are filed under their own identifiers.
    pub open spec fn tasks_wf(self) -> bool {
        forall|t: u128| #[trigger]
            self.tasks.contains_key(t) ==> self.tasks[t].spec.task_id == t
    }

    /// The queue holds each ready task once, and nothing else.
    pub open spec fn ready_wf(self) -> bool {
        &&& self.ready.no_duplicates()
        &&& forall|t: u128| #[trigger]
            self.ready.contains(t) ==> self.tasks.contains_key(t) && self.tasks[t].state is Ready
        &&& forall|t: u128| #[trigger]
            self.tasks.contains_key(t) && self.tasks[t].state is Ready ==> self.ready.contains(t)
    }

    /// Every worker has a slot, and each task in its list of leases is with it, listed once.
    pub open spec fn workers_wf(self) -> bool {
        &&& forall|w: u128| #[trigger]
            self.workers.contains_key(w) ==> self.workers[w].slots >= 1
                && self.workers[w].leased.no_duplicates()
        &&& forall|w: u128, t: u128|
            self.workers.contains_key(w) && #[trigger] self.workers[w].leased.contains(t)
                ==> self.tasks.contains_key(t) && self.tasks[t].state.owned_by(w)
    }

    /// A task is pinned to registered workers only, and is with no other worker than that one.
    pub open spec fn pins_wf(self) -> bool {
        forall|t: u128| #[trigger]
            self.tasks.contains_key(t) ==> match self.tasks[t].spec.target_worker {
                Some(w) => {
                    &&& self.workers.contains_key(w)
                    &&& self.tasks[t].state.owned() ==> self.tasks[t].state.owned_by(w)
                },
                None => true,
            }
    }

    /// A task waits exactly as long as one of its dependencies is missing.
    pub open spec fn dependencies_wf(self) -> bool {
        forall|t: u128| #[trigger]
            self.tasks.contains_key(t) && !(self.tasks[t].state is Failed) ==> (
            self.tasks[t].state is Pending <==> !self.all_known(self.tasks[t].spec.dependencies))
    }

    /// What holds of every scheduler.
    pub open spec fn wf(self) -> bool {
        &&& self.tasks.dom().finite()
        &&& self.workers.dom().finite()
        &&& self.tasks_wf()
        &&& self.ready_wf()
        &&& self.workers_wf()
        &&& self.pins_wf()
        &&& self.dependencies_wf()
    }

    /// Whether task `t` is with worker `w`.
    pub open spec fn owns(self, w: u128, t: u128) -> bool {
        self.tasks.contains_key(t) && self.tasks[t].state.owned_by(w)
    }

    /// The scheduler with a task in another state.
    pub open spec fn with_state(self, t: u128, state: TaskStateView) -> SchedulerView {
        SchedulerView { tasks: self.tasks.insert(t, self.tasks[t].with_state(state)), ..self }
    }

    /// The scheduler with another list of leases for a worker.
    pub open spec fn with_leases(self, w: u128, leased: Seq<u128>) -> SchedulerView {
        SchedulerView {
            workers: self.workers.insert(w, WorkerView { leased, ..self.workers[w] }),
            ..self
        }
    }

    /// After worker `w` has registered at `now`. A worker that was registered before starts over
    /// with an empty list of leases.
    pub open spec fn after_register(self, w: u128, slots: nat, now: Instant) -> SchedulerView {
        SchedulerView {
            workers: self.workers.insert(
                w,
                WorkerView {
                    slots: if slots < 1 {
                        1
                    } else {
                        slots
                    },
                    last_heartbeat: now,
                    leased: Seq::empty(),
                },
            ),
            ..self
        }
    }

    /// After worker `w` was heard of at `now`. An unknown worker is ignored.
    pub open spec fn after_heartbeat(self, w: u128, now: Instant) -> SchedulerView {
        if self.workers.contains_key(w) {
            SchedulerView {
                workers: self.workers.insert(
                    w,
                    WorkerView { last_heartbeat: now, ..self.workers[w] },
                ),
                ..self
            }
        } else {
            self
        }
    }

    /// The task as it is admitted: a pin to an unknown worker is dropped.
    pub open spec fn admitted(self, spec: TaskSpecView) -> TaskSpecView {
        match spec.target_worker {
            Some(w) if !self.workers.contains_key(w) => TaskSpecView {
                target_worker: None,
                ..spec
            },
            _ => spec,
        }
    }

    /// After a new task was submitted.
    pub open spec fn after_submit(self, spec: TaskSpecView) -> SchedulerView {
        let spec = self.admitted(spec);
        if self.all_known(spec.dependencies) {
            SchedulerView {
                tasks: self.tasks.insert(
                    spec.task_id,
                    TaskView { spec, state: TaskStateView::Ready },
                ),
                ready: self.ready.push(spec.task_id),
                ..self
            }
        } else {
            SchedulerView {
                tasks: self.tasks.insert(
                    spec.task_id,
                    TaskView { spec, state: TaskStateView::Pending },
                ),
                ..self
            }
        }
    }

    /// The scheduler with one more available object, before any task has taken note of it.
    pub open spec fn with_object(self, object: u128) -> SchedulerView {
        SchedulerView { known_objects: self.known_objects.insert(object), ..self }
    }

    /// Whether task `t` waited for nothing but `object`.
    pub open spec fn freed_by(self, object: u128, t: u128) -> bool {
        &&& self.tasks.contains_key(t)
        &&& self.tasks[t].state is Pending
        &&& self.with_object(object).all_known(self.tasks[t].spec.dependencies)
    }

    /// After `object` became available and the tasks that it frees were queued in the given order.
    pub open spec fn after_object(self, object: u128, order: Seq<u128>) -> SchedulerView {
        SchedulerView {
            tasks: Map::new(
                |t: u128| self.tasks.contains_key(t),
                |t: u128|
                    if self.freed_by(object, t) {
                        self.tasks[t].with_state(TaskStateView::Ready)
                    } else {
                        self.tasks[t]
                    },
            ),
            ready: self.ready + order,
            known_objects: self.known_objects.insert(object),
            ..self
        }
    }

    /// Whether `post` is the scheduler after `object` became available. Every task that it frees
    /// joins the queue, once; in which order they join is left open.
    pub open spec fn makes_available(self, object: u128, post: SchedulerView) -> bool {
        let order = post.ready.skip(self.ready.len() as int);
        &&& self.ready.len() <= post.ready.len()
        &&& order.no_duplicates()
        &&& forall|t: u128| #[trigger] order.contains(t) <==> self.freed_by(object, t)
        &&& post == self.after_object(object, order)
    }

    /// Whether worker `w` may run task `t`.
    pub open spec fn can_run(self, t: u128, w: u128) -> bool {
        self.tasks.contains_key(t) && self.tasks[t].can_run(w)
    }

    /// Whether the queue holds no task that worker `w` may run.
    pub open spec fn none_queued_for(self, w: u128) -> bool {
        forall|i: int| 0 <= i < self.ready.len() ==> !self.can_run(#[trigger] self.ready[i], w)
    }

    /// Whether worker `v` holds several tasks, and is not `thief`.
    pub open spec fn may_lose(self, thief: u128, v: u128) -> bool {
        self.workers.contains_key(v) && v != thief && self.workers[v].leased.len() > 1
    }

    /// Whether worker `v` may lose a task to `thief` and no such worker holds more.
    pub open spec fn busiest(self, thief: u128, v: u128) -> bool {
        &&& self.may_lose(thief, v)
        &&& forall|x: u128| #[trigger]
            self.may_lose(thief, x) ==> self.workers[x].leased.len() <= self.workers[v].leased.len()
    }

    /// Whether task `t` may be taken from the worker it is leased to: it has not been started,
    /// and `thief` may run it.
    pub open spec fn stealable(self, t: u128, thief: u128) -> bool {
        self.can_run(t, thief) && self.tasks[t].state is Leased
    }

    /// Whether `thief` may take the task at place `j` of worker `v`'s list of leases: no other
    /// worker holds more tasks than `v`, and it is the first task there that may be taken.
    pub open spec fn allows_theft(self, thief: u128, v: u128, j: int) -> bool {
        &&& self.busiest(thief, v)
        &&& is_first(self.workers[v].leased, |t: u128| self.stealable(t, thief), j)
    }

    /// Whether `thief` may find nothing to take: no other worker holds several tasks, or one of the
    /// busiest has none to spare.
    pub open spec fn allows_no_theft(self, thief: u128) -> bool {
        ||| forall|v: u128| !#[trigger] self.may_lose(thief, v)
        ||| exists|v: u128| #[trigger]
            self.busiest(thief, v) && forall|j: int|
                0 <= j < self.workers[v].leased.len() ==> !self.stealable(
                    #[trigger] self.workers[v].leased[j],
                    thief,
                )
    }

    /// Whether worker `w` may get the task that `pick` points at. Queued tasks come before those
    /// of other workers, and the first one comes first.
    pub open spec fn allows_pick(self, w: u128, pick: Pick) -> bool {
        match pick {
            Pick::Queued(i) => is_first(self.ready, |t: u128| self.can_run(t, w), i),
            Pick::Stolen(v, j) => self.none_queued_for(w) && self.allows_theft(w, v, j),
        }
    }

    /// The task that `pick` points at.
    pub open spec fn picked(self, pick: Pick) -> u128 {
        match pick {
            Pick::Queued(i) => self.ready[i],
            Pick::Stolen(v, j) => self.workers[v].leased[j],
        }
    }

    /// The scheduler once the picked task has been taken from where it was.
    pub open spec fn after_take(self, pick: Pick) -> SchedulerView {
        match pick {
            Pick::Queued(i) => SchedulerView { ready: self.ready.remove(i), ..self },
            Pick::Stolen(v, j) => self.with_leases(v, self.workers[v].leased.remove(j)).with_state(
                self.workers[v].leased[j],
                TaskStateView::Ready,
            ),
        }
    }

    /// The scheduler once task `t` has been given to worker `w`.
    pub open spec fn after_give(self, t: u128, w: u128) -> SchedulerView {
        self.with_state(t, TaskStateView::Leased(w)).with_leases(
            w,
            self.workers[w].leased.push(t),
        )
    }

    /// The scheduler once worker `w` has got the picked task.
    pub open spec fn after_pick(self, w: u128, pick: Pick) -> SchedulerView {
        self.after_take(pick).after_give(self.picked(pick), w)
    }

    /// Whether worker `w` may come away with nothing: nothing is queued for it, and it may find
    /// nothing to take from another worker.
    pub open spec fn allows_nothing(self, w: u128) -> bool {
        self.none_queued_for(w) && self.allows_no_theft(w)
    }

    /// The scheduler after a row of picks by worker `w`.
    pub open spec fn after_picks(self, w: u128, picks: Seq<Pick>) -> SchedulerView
        decreases picks.len(),
    {
        if picks.len() == 0 {
            self
        } else {
            self.after_picks(w, picks.drop_last()).after_pick(w, picks.last())
        }
    }

    /// Whether each pick of the row was allowed when it was made.
    pub open spec fn allows_picks(self, w: u128, picks: Seq<Pick>) -> bool
        decreases picks.len(),
    {
        picks.len() == 0 || {
            &&& self.allows_picks(w, picks.drop_last())
            &&& self.after_picks(w, picks.drop_last()).allows_pick(w, picks.last())
        }
    }

    /// The tasks that a row of picks hands out, in order.
    pub open spec fn picked_specs(self, w: u128, picks: Seq<Pick>) -> Seq<TaskSpecView>
        decreases picks.len(),
    {
        if picks.len() == 0 {
            Seq::empty()
        } else {
            let before = self.after_picks(w, picks.drop_last());
            self.picked_specs(w, picks.drop_last()).push(
                before.tasks[before.picked(picks.last())].spec,
            )
        }
    }

    /// How many tasks worker `w` is given when it asks for `capacity`.
    pub open spec fn quota(self, w: u128, capacity: nat) -> nat {
        assignable(self.workers[w].slots, self.workers[w].leased.len(), capacity)
    }

    /// Whether worker `w`, asking for `capacity` tasks, gets `assigned` by the given picks.
    pub open spec fn leases_by(
        self,
        w: u128,
        capacity: nat,
        picks: Seq<Pick>,
        assigned: Seq<TaskSpecView>,
        post: SchedulerView,
    ) -> bool {
        &&& self.allows_picks(w, picks)
        &&& post == self.after_picks(w, picks)
        &&& assigned == self.picked_specs(w, picks)
        &&& picks.len() <= self.quota(w, capacity)
        &&& picks.len() < self.quota(w, capacity) ==> post.allows_nothing(w)
    }

    /// Whether `assigned` is what worker `w` may get when it asks for `capacity` tasks, and
    /// `post` is the scheduler then. Where several workers are equally busy, which of them loses
    /// a task is left open.
    pub open spec fn leases(
        self,
        w: u128,
        capacity: nat,
        assigned: Seq<TaskSpecView>,
        post: SchedulerView,
    ) -> bool {
        exists|picks: Seq<Pick>| #[trigger] self.leases_by(w, capacity, picks, assigned, post)
    }

    /// The scheduler once task `t` is off worker `w`'s list of leases.
    pub open spec fn after_release(self, w: u128, t: u128) -> SchedulerView {
        if self.workers.contains_key(w) {
            self.with_leases(w, without(self.workers[w].leased, t))
        } else {
            self
        }
    }

    /// Whether `post` is the scheduler after worker `w` has finished task `t` and put its result
    /// at `output`.
    pub open spec fn completes(self, w: u128, t: u128, output: u128, post: SchedulerView) -> bool {
        self.after_release(w, t).with_state(t, TaskStateView::Finished).makes_available(
            output,
            post,
        )
    }

    /// After worker `w` has reported that task `t` failed.
    pub open spec fn after_fail(self, w: u128, t: u128, error: Seq<char>) -> SchedulerView {
        let released = self.after_release(w, t);
        SchedulerView {
            tasks: self.tasks.insert(t, self.tasks[t].after_setback(error)),
            ready: if self.tasks[t].retryable() {
                self.ready.push(t)
            } else {
                self.ready
            },
            ..released
        }
    }

    /// Whether task `t` exists and has not come to its end.
    pub open spec fn active(self, t: u128) -> bool {
        self.tasks.contains_key(t) && !self.tasks[t].state.terminal()
    }

    /// The active tasks of a list, in order, each once.
    pub open spec fn active_of(self, list: Seq<u128>) -> Seq<u128>
        decreases list.len(),
    {
        if list.len() == 0 {
            Seq::empty()
        } else {
            let earlier = self.active_of(list.drop_last());
            if self.active(list.last()) && !list.drop_last().contains(list.last()) {
                earlier.push(list.last())
            } else {
                earlier
            }
        }
    }

    /// After every active task of the list was made to fail: such a task leaves the queue and the
    /// lists of leases.
    pub open spec fn after_fail_tasks(self, list: Seq<u128>, error: Seq<char>) -> SchedulerView {
        SchedulerView {
            tasks: Map::new(
                |t: u128| self.tasks.contains_key(t),
                |t: u128|
                    if list.contains(t) && self.active(t) {
                        self.tasks[t].with_state(TaskStateView::Failed(error))
                    } else {
                        self.tasks[t]
                    },
            ),
            ready: self.ready.filter(outside(list)),
            workers: Map::new(
                |w: u128| self.workers.contains_key(w),
                |w: u128|
                    WorkerView {
                        leased: self.workers[w].leased.filter(outside(list)),
                        ..self.workers[w]
                    },
            ),
            ..self
        }
    }

    /// Being a task that may be tried once more.
    pub open spec fn may_retry(self) -> spec_fn(u128) -> bool {
        |t: u128| self.tasks[t].retryable()
    }

    /// Being a task that has no attempt left.
    pub open spec fn may_not_retry(self) -> spec_fn(u128) -> bool {
        |t: u128| !self.tasks[t].retryable()
    }

    /// What becomes of the tasks leased to worker `w` when it is removed.
    pub open spec fn expiry(self, w: u128) -> ExpiryView {
        ExpiryView {
            worker_id: w,
            retried_tasks: self.workers[w].leased.filter(self.may_retry()),
            failed_tasks: self.workers[w].leased.filter(self.may_not_retry()),
        }
    }

    /// After worker `w` was removed: its tasks are tried again or fail for `reason`, and no task
    /// is pinned to it any more.
    pub open spec fn after_remove(self, w: u128, reason: Seq<char>) -> SchedulerView {
        SchedulerView {
            tasks: Map::new(
                |t: u128| self.tasks.contains_key(t),
                |t: u128|
                    if self.workers[w].leased.contains(t) {
                        self.tasks[t].unpinned_from(w).after_setback(reason)
                    } else {
                        self.tasks[t].unpinned_from(w)
                    },
            ),
            ready: self.ready + self.expiry(w).retried_tasks,
            workers: self.workers.remove(w),
            ..self
        }
    }

    /// Whether worker `w` has been silent for longer than the timeout.
    pub open spec fn silent(self, w: u128, now: Instant) -> bool {
        &&& self.workers.contains_key(w)
        &&& clock::elapsed_nanos(now, self.workers[w].last_heartbeat) > clock::duration_nanos(
            self.heartbeat_timeout,
        )
    }

    /// After the workers of a list were removed one after the other.
    pub open spec fn after_removals(self, list: Seq<u128>, reason: Seq<char>) -> SchedulerView
        decreases list.len(),
    {
        if list.len() == 0 {
            self
        } else {
            self.after_removals(list.drop_last(), reason).after_remove(list.last(), reason)
        }
    }

    /// What becomes of the tasks of the workers of a list when they are removed one after the
    /// other.
    pub open spec fn expiries(self, list: Seq<u128>, reason: Seq<char>) -> Seq<ExpiryView>
        decreases list.len(),
    {
        if list.len() == 0 {
            Seq::empty()
        } else {
            self.expiries(list.drop_last(), reason).push(
                self.after_removals(list.drop_last(), reason).expiry(list.last()),
            )
        }
    }

    /// Whether `report` and `post` are what comes of removing, at `now`, every worker that has
    /// been silent for too long. In which order they are removed is left open.
    pub open spec fn expires(
        self,
        now: Instant,
        report: Seq<ExpiryView>,
        post: SchedulerView,
    ) -> bool {
        let list = report.map_values(|e: ExpiryView| e.worker_id);
        &&& list.no_duplicates()
        &&& forall|w: u128| #[trigger] list.contains(w) <==> self.silent(w, now)
        &&& report == self.expiries(list, "worker heartbeat expired"@)
        &&& post == self.after_removals(list, "worker heartbeat expired"@)
    }
}

impl SchedulerView {
    /// A scheduler stays well-formed when a new task is submitted.
    pub proof fn lemma_submit_wf(self, spec: TaskSpecView)
        requires
            self.wf(),
            !self.tasks.contains_key(spec.task_id),
        ensures
            self.after_submit(spec).wf(),
    {
        let post = self.after_submit(spec);
        let t = spec.task_id;
        assert(!self.ready.contains(t));
        assert forall|x: u128| #[trigger] post.ready.contains(x) implies post.tasks.contains_key(x)
            && post.tasks[x].state is Ready by {
            if x != t {
                assert(self.ready.contains(x));
            }
        }
        assert forall|x: u128| #[trigger]
            post.tasks.contains_key(x) && post.tasks[x].state is Ready implies post.ready.contains(
            x,
        ) by {
            if x != t {
                assert(self.ready.contains(x));
                let i = choose|i: int| 0 <= i < self.ready.len() && self.ready[i] == x;
                assert(post.ready[i] == x);
            } else {
                assert(post.ready.last() == t);
            }
        }
        assert forall|x: u128| #[trigger]
            post.tasks.contains_key(x) && !(post.tasks[x].state is Failed) implies (
        post.tasks[x].state is Pending <==> !post.all_known(post.tasks[x].spec.dependencies)) by {
            if x != t {
                assert(post.all_known(post.tasks[x].spec.dependencies) == self.all_known(
                    self.tasks[x].spec.dependencies,
                ));
            }
        }
    }

    /// A scheduler stays well-formed when an object becomes available.
    pub proof fn lemma_object_wf(self, object: u128, post: SchedulerView)
        requires
            self.wf(),
            self.makes_available(object, post),
        ensures
            post.wf(),
    {
        let order = post.ready.skip(self.ready.len() as int);
        assert(post.ready == self.ready + order);
        assert(post.tasks.dom() =~= self.tasks.dom());
        assert forall|t: u128| #[trigger] post.ready.contains(t) <==> self.ready.contains(t)
            || order.contains(t) by {
            lemma_concat_contains(self.ready, order, t);
        }
        assert(post.ready.no_duplicates()) by {
            assert forall|i: int, j: int|
                0 <= i < self.ready.len() && 0 <= j < order.len() implies self.ready[i]
                != order[j] by {
                assert(self.ready.contains(self.ready[i]));
                assert(order.contains(order[j]));
            }
        }
        assert forall|t: u128| #[trigger]
            post.tasks.contains_key(t) && post.tasks[t].state is Ready implies post.ready.contains(
            t,
        ) by {
            assert(self.tasks.contains_key(t));
            if self.freed_by(object, t) {
                assert(order.contains(t));
            } else {
                assert(self.ready.contains(t));
            }
        }
        assert forall|t: u128| #[trigger]
            post.tasks.contains_key(t) && !(post.tasks[t].state is Failed) implies (
        post.tasks[t].state is Pending <==> !post.all_known(post.tasks[t].spec.dependencies)) by {
            assert(self.tasks.contains_key(t));
            let dependencies = self.tasks[t].spec.dependencies;
            assert(post.known_objects == self.with_object(object).known_objects);
            assert(post.all_known(dependencies) == self.with_object(object).all_known(dependencies));
            if self.all_known(dependencies) {
                assert(self.with_object(object).all_known(dependencies));
            }
        }
    }

    /// A scheduler stays well-formed when a worker starts a task.
    pub proof fn lemma_running_wf(self, w: u128, t: u128)
        requires
            self.wf(),
            self.tasks.contains_key(t),
            self.tasks[t].state == TaskStateView::Leased(w),
        ensures
            self.with_state(t, TaskStateView::Running(w)).wf(),
    {
        let post = self.with_state(t, TaskStateView::Running(w));
        self.lemma_known_same(post);
        assert(post.tasks.dom() =~= self.tasks.dom());
        assert(!self.ready.contains(t));
    }

    /// Schedulers that know the same objects know the same lists of objects.
    pub proof fn lemma_known_same(self, post: SchedulerView)
        requires
            self.known_objects == post.known_objects,
        ensures
            forall|objects: Seq<u128>| #[trigger]
                post.all_known(objects) == self.all_known(objects),
    {
        assert forall|objects: Seq<u128>| #[trigger]
            post.all_known(objects) == self.all_known(objects) by {
            if self.all_known(objects) {
                assert(post.all_known(objects));
            }
        }
    }

    /// A worker's list of leases after one task is off it.
    pub proof fn lemma_release(self, w: u128, t: u128)
        requires
            self.wf(),
            self.owns(w, t),
        ensures
            forall|v: u128, x: u128|
                self.workers.contains_key(v) && #[trigger] self.after_release(
                    w,
                    t,
                ).workers[v].leased.contains(x) ==> x != t && self.workers[v].leased.contains(x),
            forall|v: u128| #[trigger]
                self.workers.contains_key(v) ==> self.after_release(
                    w,
                    t,
                ).workers[v].leased.no_duplicates(),
            self.after_release(w, t).workers.dom() == self.workers.dom(),
    {
        let post = self.after_release(w, t);
        assert(post.workers.dom() =~= self.workers.dom());
        if self.workers.contains_key(w) {
            lemma_without(self.workers[w].leased, t);
        }
        assert forall|v: u128, x: u128|
            self.workers.contains_key(v) && #[trigger] post.workers[v].leased.contains(
                x,
            ) implies x != t && self.workers[v].leased.contains(x) by {
            if v != w && x == t {
                assert(self.tasks[t].state.owned_by(v));
            }
        }
    }

    /// A scheduler stays well-formed when a worker finishes a task.
    pub proof fn lemma_finish_wf(self, w: u128, t: u128)
        requires
            self.wf(),
            self.owns(w, t),
        ensures
            self.after_release(w, t).with_state(t, TaskStateView::Finished).wf(),
    {
        let post = self.after_release(w, t).with_state(t, TaskStateView::Finished);
        self.lemma_known_same(post);
        self.lemma_release(w, t);
        assert(post.tasks.dom() =~= self.tasks.dom());
        assert(!self.ready.contains(t));
        assert forall|v: u128, x: u128|
            post.workers.contains_key(v) && #[trigger] post.workers[v].leased.contains(
                x,
            ) implies post.tasks.contains_key(x) && post.tasks[x].state.owned_by(v) by {
            assert(self.after_release(w, t).workers[v].leased.contains(x));
        }
    }

    /// A scheduler stays well-formed when a worker reports a failure.
    pub proof fn lemma_fail_wf(self, w: u128, t: u128, error: Seq<char>)
        requires
            self.wf(),
            self.owns(w, t),
        ensures
            self.after_fail(w, t, error).wf(),
    {
        let post = self.after_fail(w, t, error);
        self.lemma_known_same(post);
        self.lemma_release(w, t);
        assert(post.tasks.dom() =~= self.tasks.dom());
        assert(!self.ready.contains(t));
        assert forall|x: u128| #[trigger] post.ready.contains(x) <==> self.ready.contains(x) || (
        self.tasks[t].retryable() && x == t) by {
            lemma_concat_contains(self.ready, seq![t], x);
            assert(self.ready.push(t) =~= self.ready + seq![t]);
            assert(seq![t].contains(x) <==> x == t) by {
                assert(seq![t][0] == t);
            }
        }
        assert forall|v: u128, x: u128|
            post.workers.contains_key(v) && #[trigger] post.workers[v].leased.contains(
                x,
            ) implies post.tasks.contains_key(x) && post.tasks[x].state.owned_by(v) by {
            assert(self.after_release(w, t).workers[v].leased.contains(x));
        }
    }

    /// A scheduler stays well-formed when a worker gets a task.
    pub proof fn lemma_pick_wf(self, w: u128, pick: Pick)
        requires
            self.wf(),
            self.workers.contains_key(w),
            self.allows_pick(w, pick),
        ensures
            self.tasks.contains_key(self.picked(pick)),
            self.after_take(pick).tasks.contains_key(self.picked(pick)),
            self.after_take(pick).workers.contains_key(w),
            self.after_take(pick).tasks[self.picked(pick)].spec == self.tasks[self.picked(pick)].spec,
            self.after_pick(w, pick).wf(),
            self.after_pick(w, pick).workers.contains_key(w),
    {
        let t = self.picked(pick);
        let mid = self.after_take(pick);
        let post = self.after_pick(w, pick);
        match pick {
            Pick::Queued(i) => {
                assert(self.ready.contains(t));
                lemma_remove(self.ready, i);
            },
            Pick::Stolen(v, j) => {
                assert(self.workers[v].leased.contains(t));
                lemma_remove(self.workers[v].leased, j);
                assert(!self.ready.contains(t));
            },
        }
        assert(mid.tasks.dom() =~= self.tasks.dom());
        assert(mid.workers.dom() =~= self.workers.dom());
        assert(post.tasks.dom() =~= self.tasks.dom());
        assert(post.workers.dom() =~= self.workers.dom());
        self.lemma_known_same(post);
        assert(!mid.workers[w].leased.contains(t)) by {
            if mid.workers[w].leased.contains(t) {
                assert(self.workers[w].leased.contains(t));
            }
        }
        assert forall|v: u128, x: u128|
            post.workers.contains_key(v) && #[trigger] post.workers[v].leased.contains(
                x,
            ) implies post.tasks.contains_key(x) && post.tasks[x].state.owned_by(v) by {
            lemma_concat_contains(mid.workers[w].leased, seq![t], x);
            assert(mid.workers[w].leased.push(t) =~= mid.workers[w].leased + seq![t]);
            assert(seq![t].contains(x) <==> x == t) by {
                assert(seq![t][0] == t);
            }
            if x != t {
                assert(mid.workers[v].leased.contains(x));
                assert(self.workers[v].leased.contains(x));
            } else if v != w {
                assert(mid.workers[v].leased.contains(t));
                assert(self.workers[v].leased.contains(t));
                assert(false);
            }
        }
        assert forall|x: u128| #[trigger]
            post.tasks.contains_key(x) && post.tasks[x].state is Ready implies post.ready.contains(
            x,
        ) by {
            assert(self.ready.contains(x));
        }
    }

    /// Making no tasks fail changes nothing.
    pub proof fn lemma_fail_no_tasks(self, error: Seq<char>)
        ensures
            self.after_fail_tasks(Seq::empty(), error) == self,
    {
        let none = Seq::<u128>::empty();
        lemma_filter_all(self.ready, outside(none));
        assert forall|w: u128|
            self.workers.contains_key(w) implies (#[trigger] self.workers[w]).leased.filter(
            outside(none),
        ) == self.workers[w].leased by {
            lemma_filter_all(self.workers[w].leased, outside(none));
        }
        assert(self.after_fail_tasks(none, error) =~= self);
    }

    /// What one more task in the list changes.
    pub proof fn lemma_fail_one_task(self, list: Seq<u128>, t: u128, error: Seq<char>)
        requires
            self.wf(),
        ensures
            ({
                let mid = self.after_fail_tasks(list, error);
                let post = self.after_fail_tasks(list.push(t), error);
                &&& mid.tasks.contains_key(t) == self.tasks.contains_key(t)
                &&& mid.active(t) == (self.active(t) && !list.contains(t))
                &&& !mid.active(t) ==> post == mid
                &&& mid.active(t) && !mid.tasks[t].state.owned() ==> post == (SchedulerView {
                    ready: without(mid.ready, t),
                    ..mid
                }).with_state(t, TaskStateView::Failed(error))
                &&& forall|w: u128|
                    mid.active(t) && #[trigger] mid.tasks[t].state.owned_by(w) ==> post
                        == mid.after_release(w, t).with_state(t, TaskStateView::Failed(error))
            }),
    {
        let mid = self.after_fail_tasks(list, error);
        let longer = list.push(t);
        let post = self.after_fail_tasks(longer, error);
        assert forall|x: u128| #[trigger] longer.contains(x) <==> list.contains(x) || x == t by {
            lemma_concat_contains(list, seq![t], x);
            assert(longer =~= list + seq![t]);
            assert(seq![t].contains(x) <==> x == t) by {
                assert(seq![t][0] == t);
            }
        }
        lemma_filter(self.ready, outside(list));
        lemma_filter_more(self.ready, list, t);
        assert forall|w: u128| #[trigger] self.workers.contains_key(w) implies post.workers[w].leased
            == without(mid.workers[w].leased, t) by {
            lemma_filter_more(self.workers[w].leased, list, t);
        }
        assert forall|w: u128|
            self.workers.contains_key(w) && !(#[trigger] self.workers[w]).leased.contains(
                t,
            ) implies post.workers[w] == mid.workers[w] by {
            lemma_filter(self.workers[w].leased, outside(list));
            lemma_filter_all(mid.workers[w].leased, other_than(t));
        }
        if !self.ready.contains(t) {
            lemma_filter_all(mid.ready, other_than(t));
        }
        if !mid.active(t) {
            if list.contains(t) {
                lemma_filter_all(mid.ready, other_than(t));
                assert forall|w: u128| #[trigger]
                    self.workers.contains_key(w) implies post.workers[w] == mid.workers[w] by {
                    lemma_filter(self.workers[w].leased, outside(list));
                    lemma_filter_all(mid.workers[w].leased, other_than(t));
                }
            } else {
                assert forall|w: u128| #[trigger]
                    self.workers.contains_key(w) implies !self.workers[w].leased.contains(t) by {}
            }
            assert(post =~= mid);
        } else {
            assert(mid.tasks[t] == self.tasks[t]);
            if !mid.tasks[t].state.owned() {
                assert forall|w: u128| #[trigger]
                    self.workers.contains_key(w) implies !self.workers[w].leased.contains(t) by {}
                assert(post =~= (SchedulerView { ready: without(mid.ready, t), ..mid }).with_state(
                    t,
                    TaskStateView::Failed(error),
                ));
            } else {
                assert forall|w: u128| #[trigger] mid.tasks[t].state.owned_by(w) implies post
                    == mid.after_release(w, t).with_state(t, TaskStateView::Failed(error)) by {
                    assert(!self.ready.contains(t));
                    assert forall|v: u128| #[trigger]
                        self.workers.contains_key(v) && v
                            != w implies !self.workers[v].leased.contains(t) by {
                        if self.workers[v].leased.contains(t) {
                            assert(self.tasks[t].state.owned_by(v));
                        }
                    }
                    assert(post =~= mid.after_release(w, t).with_state(
                        t,
                        TaskStateView::Failed(error),
                    ));
                }
            }
        }
    }

    /// A scheduler stays well-formed when tasks are made to fail.
    pub proof fn lemma_fail_tasks_wf(self, list: Seq<u128>, error: Seq<char>)
        requires
            self.wf(),
        ensures
            self.after_fail_tasks(list, error).wf(),
    {
        let post = self.after_fail_tasks(list, error);
        self.lemma_known_same(post);
        lemma_filter(self.ready, outside(list));
        assert(post.tasks.dom() =~= self.tasks.dom());
        assert(post.workers.dom() =~= self.workers.dom());
        assert forall|w: u128| #[trigger] post.workers.contains_key(w) implies post.workers[w].slots
            >= 1 && post.workers[w].leased.no_duplicates() by {
            lemma_filter(self.workers[w].leased, outside(list));
        }
        assert forall|w: u128, t: u128|
            post.workers.contains_key(w) && #[trigger] post.workers[w].leased.contains(
                t,
            ) implies post.tasks.contains_key(t) && post.tasks[t].state.owned_by(w) by {
            lemma_filter(self.workers[w].leased, outside(list));
            assert(self.workers[w].leased.contains(t));
        }
        assert forall|t: u128| #[trigger]
            post.tasks.contains_key(t) && post.tasks[t].state is Ready implies post.ready.contains(
            t,
        ) by {
            assert(self.ready.contains(t));
        }
    }

    /// A scheduler stays well-formed when a worker is removed.
    pub proof fn lemma_remove_wf(self, w: u128, reason: Seq<char>)
        requires
            self.wf(),
            self.workers.contains_key(w),
        ensures
            self.after_remove(w, reason).wf(),
    {
        let post = self.after_remove(w, reason);
        let leased = self.workers[w].leased;
        let retried = self.expiry(w).retried_tasks;
        self.lemma_known_same(post);
        lemma_filter(leased, self.may_retry());
        assert(post.tasks.dom() =~= self.tasks.dom());
        assert forall|t: u128| #[trigger] post.ready.contains(t) <==> self.ready.contains(t) || (
        leased.contains(t) && self.tasks[t].retryable()) by {
            lemma_concat_contains(self.ready, retried, t);
        }
        assert forall|i: int, j: int|
            0 <= i < self.ready.len() && 0 <= j < retried.len() implies self.ready[i]
            != retried[j] by {
            assert(self.ready.contains(self.ready[i]));
            assert(retried.contains(retried[j]));
            assert(leased.contains(retried[j]));
        }
        assert(post.ready.no_duplicates());
        assert forall|t: u128| #[trigger]
            post.tasks.contains_key(t) && post.tasks[t].state is Ready implies post.ready.contains(
            t,
        ) by {
            assert(self.tasks.contains_key(t));
            if !leased.contains(t) {
                assert(self.ready.contains(t));
            }
        }
        assert forall|v: u128, t: u128|
            post.workers.contains_key(v) && #[trigger] post.workers[v].leased.contains(
                t,
            ) implies post.tasks.contains_key(t) && post.tasks[t].state.owned_by(v) by {
            assert(self.workers[v].leased.contains(t));
            if leased.contains(t) {
                assert(self.tasks[t].state.owned_by(w));
            }
        }
        assert forall|t: u128| #[trigger]
            post.tasks.contains_key(t) implies match post.tasks[t].spec.target_worker {
            Some(v) => {
                &&& post.workers.contains_key(v)
                &&& post.tasks[t].state.owned() ==> post.tasks[t].state.owned_by(v)
            },
            None => true,
        } by {
            assert(self.tasks.contains_key(t));
        }
    }

    /// Removing workers leaves the others.
    pub proof fn lemma_removals_workers(self, list: Seq<u128>, reason: Seq<char>)
        ensures
            forall|w: u128| #[trigger]
                self.after_removals(list, reason).workers.contains_key(w) <==> (
                self.workers.contains_key(w) && !list.contains(w)),
        decreases list.len(),
    {
        if list.len() > 0 {
            let init = list.drop_last();
            self.lemma_removals_workers(init, reason);
            assert forall|w: u128| #[trigger]
                self.after_removals(list, reason).workers.contains_key(w) <==> (
                self.workers.contains_key(w) && !list.contains(w)) by {
                assert(list =~= init + seq![list.last()]);
                lemma_concat_contains(init, seq![list.last()], w);
                assert(seq![list.last()].contains(w) <==> w == list.last()) by {
                    assert(seq![list.last()][0] == list.last());
                }
                assert(self.after_removals(init, reason).workers.contains_key(w) <==> (
                self.workers.contains_key(w) && !init.contains(w)));
            }
        }
    }

    /// The reports are on the workers of the list, in order.
    pub proof fn lemma_expiries_workers(self, list: Seq<u128>, reason: Seq<char>)
        ensures
            self.expiries(list, reason).map_values(|e: ExpiryView| e.worker_id) == list,
        decreases list.len(),
    {
        let ids = |e: ExpiryView| e.worker_id;
        if list.len() > 0 {
            let init = list.drop_last();
            self.lemma_expiries_workers(init, reason);
            let rest = self.expiries(init, reason);
            assert(rest.map_values(ids) == init);
            let last = self.after_removals(init, reason).expiry(list.last());
            assert(rest.push(last).map_values(ids) =~= rest.map_values(ids).push(list.last()));
            assert(list =~= init.push(list.last()));
        } else {
            assert(self.expiries(list, reason).map_values(ids) =~= list);
        }
    }
}

/// What the concatenation of two sequences contains.
pub proof fn lemma_concat_contains(a: Seq<u128>, b: Seq<u128>, x: u128)
    ensures
        (a + b).contains(x) <==> a.contains(x) || b.contains(x),
{
    if a.contains(x) {
        let i = choose|i: int| 0 <= i < a.len() && a[i] == x;
        assert((a + b)[i] == x);
    }
    if b.contains(x) {
        let i = choose|i: int| 0 <= i < b.len() && b[i] == x;
        assert((a + b)[a.len() + i] == x);
    }
}

/// What remains of a sequence without duplicates once the element at a place is gone.
pub proof fn lemma_remove(s: Seq<u128>, i: int)
    requires
        0 <= i < s.len(),
        s.no_duplicates(),
    ensures
        s.remove(i).no_duplicates(),
        forall|x: u128| #[trigger] s.remove(i).contains(x) <==> s.contains(x) && x != s[i],
{
    assert forall|x: u128| #[trigger] s.remove(i).contains(x) <==> s.contains(x) && x != s[i] by {
        if s.contains(x) && x != s[i] {
            let j = choose|j: int| 0 <= j < s.len() && s[j] == x;
            if j < i {
                assert(s.remove(i)[j] == x);
            } else {
                assert(s.remove(i)[j - 1] == x);
            }
        }
        if s.remove(i).contains(x) {
            let j = choose|j: int| 0 <= j < s.remove(i).len() && s.remove(i)[j] == x;
            if j < i {
                assert(s[j] == x);
            } else {
                assert(s[j + 1] == x);
            }
        }
    }
}

/// What remains of a sequence that satisfies a predicate, in order and as often as before.
pub proof fn lemma_filter(s: Seq<u128>, p: spec_fn(u128) -> bool)
    ensures
        forall|x: u128| #[trigger] s.filter(p).contains(x) <==> s.contains(x) && p(x),
        s.no_duplicates() ==> s.filter(p).no_duplicates(),
    decreases s.len(),
{
    reveal(Seq::filter);
    if s.len() > 0 {
        let init = s.drop_last();
        let last = s.last();
        lemma_filter(init, p);
        assert(s =~= init + seq![last]);
        assert forall|x: u128| #[trigger] s.filter(p).contains(x) <==> s.contains(x) && p(x) by {
            lemma_concat_contains(init, seq![last], x);
            lemma_concat_contains(init.filter(p), seq![last], x);
            assert(init.filter(p).push(last) =~= init.filter(p) + seq![last]);
            assert(seq![last].contains(x) <==> x == last) by {
                assert(seq![last][0] == last);
            }
        }
        if s.no_duplicates() {
            assert(!init.contains(last));
            assert(!init.filter(p).contains(last));
            assert(init.no_duplicates());
        }
    }
}

/// A sequence all of whose elements satisfy a predicate is what remains of it.
pub proof fn lemma_filter_all(s: Seq<u128>, p: spec_fn(u128) -> bool)
    requires
        forall|x: u128| #[trigger] s.contains(x) ==> p(x),
    ensures
        s.filter(p) == s,
    decreases s.len(),
{
    reveal(Seq::filter);
    if s.len() > 0 {
        let init = s.drop_last();
        assert(s.contains(s.last()));
        assert forall|x: u128| #[trigger] init.contains(x) implies p(x) by {
            let i = choose|i: int| 0 <= i < init.len() && init[i] == x;
            assert(s[i] == x);
            assert(s.contains(x));
        }
        lemma_filter_all(init, p);
        assert(s =~= init.push(s.last()));
    }
}

/// Leaving out a list and then one more task is leaving out the longer list.
pub proof fn lemma_filter_more(s: Seq<u128>, list: Seq<u128>, t: u128)
    ensures
        s.filter(outside(list.push(t))) == without(s.filter(outside(list)), t),
    decreases s.len(),
{
    reveal(Seq::filter);
    if s.len() > 0 {
        let init = s.drop_last();
        let last = s.last();
        lemma_filter_more(init, list, t);
        let kept = init.filter(outside(list));
        assert(list.push(t).contains(last) <==> list.contains(last) || last == t) by {
            lemma_concat_contains(list, seq![t], last);
            assert(list.push(t) =~= list + seq![t]);
            assert(seq![t].contains(last) <==> last == t) by {
                assert(seq![t][0] == t);
            }
        }
        if outside(list)(last) {
            assert(kept.push(last).drop_last() =~= kept);
        }
    }
}

/// What remains of a sequence without one of its elements.
pub proof fn lemma_without(s: Seq<u128>, t: u128)
    ensures
        forall|x: u128| #[trigger] without(s, t).contains(x) <==> s.contains(x) && x != t,
        s.no_duplicates() ==> without(s, t).no_duplicates(),
{
    lemma_filter(s, other_than(t));
}

} // verus!
