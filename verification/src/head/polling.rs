//! What a worker that asks for tasks is given, and what that changes at the head node.
use super::effects;
use super::model::{self, HeadView};
use crate::clock;
use crate::messages::{Code, LeaseView, PollTaskRequest, StatusView};
use crate::scheduler::leasing;
use crate::scheduler::model::{ExpiryView, TaskStateView};
use crate::task::TaskSpecView;
use crate::uuid_text;
use std::time::Instant;
use vstd::prelude::*;

verus! {

impl HeadView {
    /// A poll that is granted is a cleanup and then a lease of up to as many tasks as were asked for.
    proof fn lemma_granted_poll(
        self,
        request: PollTaskRequest,
        now: Instant,
        post: HeadView,
        leases: Seq<LeaseView>,
        w: u128,
    ) -> (r: (Seq<ExpiryView>, HeadView, Seq<TaskSpecView>))
        requires
            self.wf(),
            uuid_text::read_uuid(request.worker_id@) == Some(w),
            self.polls(request, now, post, Ok(leases)),
        ensures
            self.cleans_up(now, r.0, r.1),
            r.1.scheduler.wf(),
            r.1.scheduler.workers.contains_key(w),
            self.scheduler.workers.contains_key(w),
            r.1.scheduler.workers[w] == self.scheduler.workers[w],
            r.1.scheduler.leases(w, request.capacity as nat, r.2, post.scheduler),
            post == r.1.with_scheduler(post.scheduler).after_claims(r.2, w),
            leases == r.1.leases_of(r.2),
    {
        let (report, mid) = choose|report: Seq<ExpiryView>, mid: HeadView|
            {
                &&& #[trigger] self.cleans_up(now, report, mid)
                &&& mid.hands_out(w, request.capacity as nat, post, Ok(leases))
            };
        let given = choose|given: Seq<TaskSpecView>|
            {
                &&& #[trigger] mid.scheduler.leases(
                    w,
                    request.capacity as nat,
                    given,
                    post.scheduler,
                )
                &&& post == mid.with_scheduler(post.scheduler).after_claims(given, w)
                &&& Ok::<Seq<LeaseView>, StatusView>(leases) == Ok::<Seq<LeaseView>, StatusView>(
                    mid.leases_of(given),
                )
            };
        self.scheduler.lemma_removals(
            model::reported(report),
            "worker heartbeat expired"@,
        );
        self.scheduler.expiry_sets_back_what_the_silent_held(now, report, mid.scheduler, 0, w, 0);
        (report, mid, given)
    }

    /// A poll is granted to a worker that is registered and was not silent for too long, and to no
    /// other.
    pub proof fn polls_are_granted_to_registered_workers(
        self,
        request: PollTaskRequest,
        now: Instant,
        post: HeadView,
        r: Result<Seq<LeaseView>, StatusView>,
    )
        requires
            self.wf(),
            self.polls(request, now, post, r),
        ensures
            uuid_text::read_uuid(request.worker_id@) is None ==> post == self && r == Err::<
                Seq<LeaseView>,
                StatusView,
            >(effects::unreadable(request.worker_id@)),
            uuid_text::read_uuid(request.worker_id@) matches Some(w) ==> {
                let known = self.scheduler.workers.contains_key(w) && clock::elapsed_nanos(
                    now,
                    self.scheduler.workers[w].last_heartbeat,
                ) <= clock::duration_nanos(self.scheduler.heartbeat_timeout);
                &&& known ==> r is Ok
                &&& !known ==> r == Err::<Seq<LeaseView>, StatusView>(
                    StatusView {
                        code: Code::FailedPrecondition,
                        message: "scheduler error: "@ + ("unknown worker "@
                            + uuid_text::hyphenated_text(w)),
                    },
                )
                &&& !known ==> exists|report: Seq<ExpiryView>| #[trigger]
                    self.cleans_up(now, report, post)
            },
    {
        if let Some(w) = uuid_text::read_uuid(request.worker_id@) {
            let (report, mid) = choose|report: Seq<ExpiryView>, mid: HeadView|
                {
                    &&& #[trigger] self.cleans_up(now, report, mid)
                    &&& mid.hands_out(w, request.capacity as nat, post, r)
                };
            self.scheduler.expiry_sets_back_what_the_silent_held(
                now,
                report,
                mid.scheduler,
                0,
                w,
                0,
            );
        }
    }

    /// A worker is never given more tasks than it asks for; and one that holds tasks is never given
    /// more than it has free slots. Where it is given less, nothing is left that it could have: every
    /// task in the queue is pinned to another worker, and either no other worker holds several tasks,
    /// or one of those that hold the most has none which the worker may run and which has not been
    /// started.
    pub proof fn polls_stay_within_what_is_asked_for(
        self,
        request: PollTaskRequest,
        now: Instant,
        post: HeadView,
        leases: Seq<LeaseView>,
        w: u128,
        k: int,
    )
        requires
            self.wf(),
            uuid_text::read_uuid(request.worker_id@) == Some(w),
            self.polls(request, now, post, Ok(leases)),
        ensures
            ({
                let held = self.scheduler.workers[w].leased.len();
                let slots = self.scheduler.workers[w].slots;
                let n = leases.len();
                let workers = post.scheduler.workers;
                let rich = |v: u128| workers.contains_key(v) && v != w && workers[v].leased.len() > 1;
                &&& n <= request.capacity
                &&& held > 0 && n > 0 ==> held + n <= slots
                &&& n < request.capacity && (held == 0 || held + n < slots) ==> {
                    &&& 0 <= k < post.scheduler.ready.len() ==> (
                    post.scheduler.tasks[post.scheduler.ready[k]].spec.target_worker matches Some(u)
                        && u != w)
                    &&& {
                        ||| forall|v: u128|
                            #[trigger] workers.contains_key(v) && v != w ==> workers[v].leased.len()
                                <= 1
                        ||| exists|v: u128| #[trigger]
                            rich(v) && (forall|u: u128| #[trigger]
                                rich(u) ==> workers[u].leased.len() <= workers[v].leased.len())
                                && forall|j: int|
                                0 <= j < workers[v].leased.len() ==> {
                                    let task = post.scheduler.tasks[#[trigger] workers[v].leased[j]];
                                    ||| !(task.state is Leased)
                                    ||| (task.spec.target_worker matches Some(u) && u != w)
                                }
                    }
                }
            }),
    {
        let (report, mid, given) = self.lemma_granted_poll(request, now, post, leases, w);
        let capacity = request.capacity as nat;
        mid.scheduler.leasing_fills_up_what_is_free(w, capacity, given, post.scheduler, k);
        let workers = post.scheduler.workers;
        let rich = |v: u128| workers.contains_key(v) && v != w && workers[v].leased.len() > 1;
        let same = |v: u128| post.scheduler.workers.contains_key(v) && v != w
            && post.scheduler.workers[v].leased.len() > 1;
        assert(rich =~= same);
    }

    /// What a worker is told of the tasks that it is given is what these tasks are. They are listed
    /// with the worker, behind what it held, in the order of the answer, and are leased to it. What
    /// they do is what was submitted; for a call of an actor, the worker is told of the actor, of the
    /// method and of the objects of the call and of the constructor, in their order.
    pub proof fn polls_tell_what_the_tasks_are(
        self,
        request: PollTaskRequest,
        now: Instant,
        post: HeadView,
        leases: Seq<LeaseView>,
        w: u128,
        i: int,
        j: int,
    )
        requires
            self.wf(),
            uuid_text::read_uuid(request.worker_id@) == Some(w),
            self.polls(request, now, post, Ok(leases)),
        ensures
            post.scheduler.workers.contains_key(w),
            post.scheduler.workers[w].slots == self.scheduler.workers[w].slots,
            post.scheduler.workers[w].last_heartbeat == self.scheduler.workers[w].last_heartbeat,
            post.scheduler.workers[w].leased.len() == self.scheduler.workers[w].leased.len()
                + leases.len(),
            post.scheduler.workers[w].leased.no_duplicates(),
            self.scheduler.workers[w].leased.is_prefix_of(post.scheduler.workers[w].leased),
            0 <= i < leases.len() ==> {
                let t = post.scheduler.workers[w].leased[self.scheduler.workers[w].leased.len() + i];
                let was = self.scheduler.tasks[t];
                let task = post.scheduler.tasks[t];
                let lease = leases[i];
                &&& self.scheduler.tasks.contains_key(t)
                &&& task.state == TaskStateView::Leased(w)
                &&& lease.task_id == uuid_text::hyphenated_text(t)
                &&& lease.function_id == was.spec.function_id
                &&& lease.output_id == uuid_text::hyphenated_text(was.spec.output_id)
                &&& lease.attempt == task.spec.attempt
                &&& was.state is Ready || was.state is Leased || was.state is Running
                &&& was.state is Ready ==> lease.attempt == was.spec.attempt
                &&& !self.actor_tasks.contains_key(t) ==> {
                    &&& lease.actor_id.len() == 0
                    &&& lease.actor_type.len() == 0
                    &&& lease.method_id.len() == 0
                    &&& lease.constructor_dependencies.len() == 0
                    &&& lease.dependencies.len() == was.spec.dependencies.len()
                    &&& 0 <= j < lease.dependencies.len() ==> lease.dependencies[j]
                        == uuid_text::hyphenated_text(was.spec.dependencies[j])
                }
                &&& self.actor_tasks.contains_key(t) ==> {
                    let call = self.actor_tasks[t];
                    &&& lease.actor_id == uuid_text::hyphenated_text(call.actor_id)
                    &&& lease.actor_type == call.actor_type
                    &&& lease.method_id == call.method_id
                    &&& lease.dependencies.len() == call.dependencies.len()
                    &&& 0 <= j < lease.dependencies.len() ==> lease.dependencies[j]
                        == uuid_text::hyphenated_text(call.dependencies[j])
                    &&& lease.constructor_dependencies.len() == call.constructor_dependencies.len()
                    &&& 0 <= j < lease.constructor_dependencies.len()
                        ==> lease.constructor_dependencies[j] == uuid_text::hyphenated_text(
                        call.constructor_dependencies[j],
                    )
                }
            },
    {
        let (report, mid, given) = self.lemma_granted_poll(request, now, post, leases, w);
        let capacity = request.capacity as nat;
        mid.scheduler.leasing_passes_tasks_on(w, capacity, given, post.scheduler, i, 0, w);
        mid.scheduler.leasing_gives(w, capacity, given, post.scheduler);
        let held = self.scheduler.workers[w].leased;
        let ids = given.map_values(|spec: TaskSpecView| spec.task_id);
        assert(post.scheduler.workers[w].leased == held + ids);
        if 0 <= i < leases.len() {
            let t = given[i].task_id;
            assert(ids[i] == t);
            assert((held + ids)[held.len() + i] == t);
            mid.scheduler.leasing_passes_tasks_on(w, capacity, given, post.scheduler, i, t, w);
            self.scheduler.expiry_sets_back_what_the_silent_held(
                now,
                report,
                mid.scheduler,
                t,
                w,
                0,
            );
            if self.scheduler.tasks[t].state is Ready {
                assert forall|v: u128| self.scheduler.workers.contains_key(
                    v,
                ) implies !(#[trigger] self.scheduler.workers[v].leased.contains(t)) by {}
            }
        }
    }

    /// Workers are served first come, first served: of the tasks in the queue, a worker is given those
    /// in front that it may run, in order, before any other.
    pub proof fn polls_serve_in_order(
        self,
        request: PollTaskRequest,
        now: Instant,
        post: HeadView,
        leases: Seq<LeaseView>,
        w: u128,
        i: int,
        j: int,
        x: u128,
    )
        requires
            self.wf(),
            uuid_text::read_uuid(request.worker_id@) == Some(w),
            self.polls(request, now, post, Ok(leases)),
            0 <= i < leases.len(),
        ensures
            ({
                let held = self.scheduler.workers[w].leased.len();
                let leased = post.scheduler.workers[w].leased;
                let ready = self.scheduler.ready;
                let free = self.scheduler.tasks[x].spec.target_worker is None
                    || self.scheduler.tasks[x].spec.target_worker == Some(w);
                &&& i < j < leases.len() && ready.contains(leased[held + j]) ==> leasing::precedes(
                    ready,
                    leased[held + i],
                    leased[held + j],
                )
                &&& ready.contains(x) && free ==> leased.contains(x) || leasing::precedes(
                    ready,
                    leased[held + i],
                    x,
                )
            }),
    {
        let (report, mid, given) = self.lemma_granted_poll(request, now, post, leases, w);
        let capacity = request.capacity as nat;
        mid.scheduler.leasing_passes_tasks_on(w, capacity, given, post.scheduler, i, 0, w);
        let held = self.scheduler.workers[w].leased;
        let ids = given.map_values(|spec: TaskSpecView| spec.task_id);
        let leased = post.scheduler.workers[w].leased;
        let ready = self.scheduler.ready;
        assert(leased == held + ids);
        assert(leased[held.len() + i] == given[i].task_id);
        mid.scheduler.leasing_is_first_come_first_served(
            w,
            capacity,
            given,
            post.scheduler,
            i,
            j,
            x,
        );
        self.scheduler.expiry_sets_back_what_the_silent_held(now, report, mid.scheduler, x, w, 0);
        if i < j < leases.len() && ready.contains(leased[held.len() + j]) {
            assert(leased[held.len() + j] == given[j].task_id);
            lemma_precedes_in_front(
                ready,
                mid.scheduler.ready,
                leased[held.len() + i],
                leased[held.len() + j],
            );
        }
        if ready.contains(x) && (self.scheduler.tasks[x].spec.target_worker is None
            || self.scheduler.tasks[x].spec.target_worker == Some(w)) {
            lemma_precedes_in_front(ready, mid.scheduler.ready, leased[held.len() + i], x);
            if exists|k: int| 0 <= k < given.len() && (#[trigger] given[k]).task_id == x {
                let k = choose|k: int| 0 <= k < given.len() && (#[trigger] given[k]).task_id == x;
                assert(leased[held.len() + k] == x);
            }
        }
    }
}

impl HeadView {
    /// What a poll does to the tasks that it does not hand out and to the other workers: those that
    /// were silent for too long are gone, and the tasks that they held are set back; the others keep
    /// all that they held but what was handed out. No task changes what it does, and none is released
    /// from a worker that is still there. The queue keeps its order.
    pub proof fn polls_leave_other_tasks(
        self,
        request: PollTaskRequest,
        now: Instant,
        post: HeadView,
        leases: Seq<LeaseView>,
        w: u128,
        t: u128,
        v: u128,
    )
        requires
            self.wf(),
            uuid_text::read_uuid(request.worker_id@) == Some(w),
            self.polls(request, now, post, Ok(leases)),
        ensures
            ({
                let limit = clock::duration_nanos(self.scheduler.heartbeat_timeout);
                let gone = |u: u128|
                    self.scheduler.workers.contains_key(u) && clock::elapsed_nanos(
                        now,
                        self.scheduler.workers[u].last_heartbeat,
                    ) > limit;
                let held = exists|u: u128|
                    gone(u) && #[trigger] self.scheduler.workers[u].leased.contains(t);
                let given = post.scheduler.workers[w].leased.skip(
                    self.scheduler.workers[w].leased.len() as int,
                );
                let was = self.scheduler.tasks[t];
                let left = post.scheduler.tasks[t];
                &&& post.objects == self.objects
                &&& post.actor_tasks == self.actor_tasks
                &&& post.scheduler.known_objects == self.scheduler.known_objects
                &&& post.scheduler.heartbeat_timeout == self.scheduler.heartbeat_timeout
                &&& post.scheduler.workers.contains_key(v) <==> self.scheduler.workers.contains_key(v)
                    && !gone(v)
                &&& v != w && self.scheduler.workers.contains_key(v) && !gone(v) ==> {
                    let had = self.scheduler.workers[v];
                    let keeps = post.scheduler.workers[v];
                    &&& keeps.slots == had.slots
                    &&& keeps.last_heartbeat == had.last_heartbeat
                    &&& keeps.leased == had.leased.filter(|x: u128| !given.contains(x))
                }
                &&& self.scheduler.ready.filter(|x: u128| !given.contains(x)).is_prefix_of(
                    post.scheduler.ready,
                )
                &&& post.scheduler.tasks.contains_key(t) == self.scheduler.tasks.contains_key(t)
                &&& self.scheduler.tasks.contains_key(t) ==> {
                    &&& left.spec.task_id == was.spec.task_id
                    &&& left.spec.function_id == was.spec.function_id
                    &&& left.spec.dependencies == was.spec.dependencies
                    &&& left.spec.output_id == was.spec.output_id
                    &&& left.spec.max_retries == was.spec.max_retries
                    &&& was.spec.target_worker is None ==> left.spec.target_worker is None
                    &&& was.spec.target_worker matches Some(u) ==> {
                        &&& gone(u) ==> left.spec.target_worker is None
                        &&& !gone(u) ==> left.spec.target_worker == Some(u)
                    }
                    &&& !held ==> left.spec.attempt == was.spec.attempt
                    &&& !held && !given.contains(t) ==> left.state == was.state
                    &&& held && was.spec.attempt < was.spec.max_retries ==> {
                        &&& left.spec.attempt == was.spec.attempt + 1
                        &&& given.contains(t) || left.state is Ready
                    }
                    &&& held && was.spec.attempt >= was.spec.max_retries ==> {
                        &&& left.spec.attempt == was.spec.attempt
                        &&& left.state == TaskStateView::Failed("worker heartbeat expired"@)
                    }
                    &&& given.contains(t) ==> left.spec.target_worker is None
                        || left.spec.target_worker == Some(w)
                }
            }),
    {
        let (report, mid, given) = self.lemma_granted_poll(request, now, post, leases, w);
        let capacity = request.capacity as nat;
        let held = self.scheduler.workers[w].leased;
        let ids = given.map_values(|spec: TaskSpecView| spec.task_id);
        mid.scheduler.leasing_passes_tasks_on(w, capacity, given, post.scheduler, 0, t, v);
        mid.scheduler.leasing_passes_tasks_on(w, capacity, given, post.scheduler, 0, t, w);
        self.scheduler.expiry_sets_back_what_the_silent_held(now, report, mid.scheduler, t, v, 0);
        assert(post.scheduler.workers[w].leased.skip(held.len() as int) =~= ids);
        if ids.contains(t) {
            let i = choose|i: int| 0 <= i < ids.len() && ids[i] == t;
            assert(given[i].task_id == t);
            mid.scheduler.leasing_passes_tasks_on(w, capacity, given, post.scheduler, i, t, v);
        }
        let kept = |x: u128| !ids.contains(x);
        let retried = report.map_values(|e: ExpiryView| e.retried_tasks).flatten();
        assert(mid.scheduler.ready == self.scheduler.ready + retried);
        Seq::filter_distributes_over_add(self.scheduler.ready, retried, kept);
        assert(self.scheduler.ready.filter(kept).is_prefix_of(
            self.scheduler.ready.filter(kept) + retried.filter(kept),
        ));
    }

    /// A worker takes over tasks from those who hold the most, and from nobody the last one: a worker
    /// that loses tasks by a poll keeps at least one, and no other worker is left with more than one
    /// task more than it. Of one worker's tasks, the first that may be taken is taken first.
    pub proof fn polls_take_from_the_busiest_first(
        self,
        request: PollTaskRequest,
        now: Instant,
        post: HeadView,
        leases: Seq<LeaseView>,
        w: u128,
        u: u128,
        v: u128,
        a: int,
        b: int,
    )
        requires
            self.wf(),
            uuid_text::read_uuid(request.worker_id@) == Some(w),
            self.polls(request, now, post, Ok(leases)),
            u != w,
            v != w,
            post.scheduler.workers.contains_key(u),
            post.scheduler.workers.contains_key(v),
        ensures
            ({
                let had = self.scheduler.workers[v].leased;
                let keeps = post.scheduler.workers[v].leased;
                let task = self.scheduler.tasks[had[a]];
                &&& keeps.len() <= had.len()
                &&& keeps.len() < had.len() ==> {
                    &&& keeps.len() >= 1
                    &&& post.scheduler.workers[u].leased.len() <= keeps.len() + 1
                }
                &&& 0 <= a < b < had.len() && !keeps.contains(had[b]) && task.state
                    == TaskStateView::Leased(v) && (task.spec.target_worker is None
                    || task.spec.target_worker == Some(w)) ==> !keeps.contains(had[a])
            }),
    {
        let (report, mid, given) = self.lemma_granted_poll(request, now, post, leases, w);
        let capacity = request.capacity as nat;
        let had = self.scheduler.workers[v].leased;
        let ids = given.map_values(|spec: TaskSpecView| spec.task_id);
        mid.scheduler.leasing_passes_tasks_on(w, capacity, given, post.scheduler, 0, 0, u);
        mid.scheduler.leasing_passes_tasks_on(w, capacity, given, post.scheduler, 0, 0, v);
        self.scheduler.expiry_sets_back_what_the_silent_held(
            now,
            report,
            mid.scheduler,
            had[a],
            v,
            0,
        );
        self.scheduler.expiry_sets_back_what_the_silent_held(
            now,
            report,
            mid.scheduler,
            had[a],
            u,
            0,
        );
        mid.scheduler.the_busiest_lose_tasks_first(
            w,
            capacity,
            given,
            post.scheduler,
            u,
            v,
            a,
            b,
        );
        crate::scheduler::model::lemma_filter(had, |x: u128| !ids.contains(x));
        if 0 <= a < b < had.len() && self.scheduler.tasks[had[a]].state == TaskStateView::Leased(v) {
            assert(had.contains(had[a]) && had.contains(had[b]));
            assert forall|x: u128| self.scheduler.workers.contains_key(
                x,
            ) && #[trigger] self.scheduler.workers[x].leased.contains(had[a]) implies x == v by {
                assert(self.scheduler.tasks[had[a]].state.owned_by(x));
            }
        }
    }

    /// What a poll does to actors: one that lived with a worker which is still there stays there, and
    /// one that lived with none, or with a worker that was silent for too long, lives with the worker
    /// that polls where that worker is told of a call of it, and with none otherwise.
    pub proof fn polls_move_actors_that_are_called(
        self,
        request: PollTaskRequest,
        now: Instant,
        post: HeadView,
        leases: Seq<LeaseView>,
        w: u128,
        a: u128,
    )
        requires
            self.wf(),
            uuid_text::read_uuid(request.worker_id@) == Some(w),
            self.polls(request, now, post, Ok(leases)),
        ensures
            ({
                let limit = clock::duration_nanos(self.scheduler.heartbeat_timeout);
                let gone = |u: u128|
                    self.scheduler.workers.contains_key(u) && clock::elapsed_nanos(
                        now,
                        self.scheduler.workers[u].last_heartbeat,
                    ) > limit;
                let was = self.actors[a];
                let left = post.actors[a];
                let homeless = match was.owner_worker {
                    Some(u) => gone(u),
                    None => true,
                };
                let called = exists|i: int|
                    0 <= i < leases.len() && (#[trigger] leases[i]).actor_id
                        == uuid_text::hyphenated_text(a);
                &&& post.actors.contains_key(a) == self.actors.contains_key(a)
                &&& self.actors.contains_key(a) ==> {
                    &&& left.spec == was.spec
                    &&& !homeless ==> left.owner_worker == was.owner_worker
                    &&& homeless && called ==> left.owner_worker == Some(w)
                    &&& homeless && !called ==> left.owner_worker is None
                }
            }),
    {
        let (report, mid, given) = self.lemma_granted_poll(request, now, post, leases, w);
        let released = mid.with_scheduler(post.scheduler);
        self.cleanups_release_the_actors_of_the_silent(now, report, mid, a);
        let called = exists|i: int|
            0 <= i < leases.len() && (#[trigger] leases[i]).actor_id == uuid_text::hyphenated_text(
                a,
            );
        assert(called == released.calls(given, a)) by {
            if called {
                let i = choose|i: int|
                    0 <= i < leases.len() && (#[trigger] leases[i]).actor_id
                        == uuid_text::hyphenated_text(a);
                let call = released.call_of(given[i].task_id);
                assert(leases[i] == model::lease_of(
                    given[i],
                    mid.call_of(given[i].task_id),
                ));
                assert(uuid_text::hyphenated_text(a).len() == 36);
                assert(call is Some);
                uuid_text::hyphenated_text_injective(a, call->Some_0.actor_id);
            }
            if released.calls(given, a) {
                let i = choose|i: int|
                    0 <= i < given.len() && (#[trigger] released.call_of(
                        given[i].task_id,
                    ) matches Some(call) && call.actor_id == a);
                assert(leases[i] == model::lease_of(
                    given[i],
                    mid.call_of(given[i].task_id),
                ));
                assert(leases[i].actor_id == uuid_text::hyphenated_text(a));
            }
        }
    }
}

/// What precedes an element of the front part of a queue that holds nothing twice does so in the
/// front part.
proof fn lemma_precedes_in_front(front: Seq<u128>, queue: Seq<u128>, x: u128, y: u128)
    requires
        front.is_prefix_of(queue),
        queue.no_duplicates(),
        front.contains(y),
    ensures
        queue.contains(y),
        leasing::precedes(queue, x, y) ==> leasing::precedes(front, x, y),
{
    let b = choose|b: int| 0 <= b < front.len() && front[b] == y;
    assert(queue.subrange(0, front.len() as int)[b] == queue[b]);
    assert(queue[b] == y);
    if leasing::precedes(queue, x, y) {
        let (i, j) = choose|i: int, j: int|
            0 <= i < j < queue.len() && #[trigger] queue[i] == x && #[trigger] queue[j] == y;
        assert(j == b);
        assert(queue.subrange(0, front.len() as int)[i] == queue[i]);
        assert(front[i] == x && front[j] == y);
    }
}

} // verus!
