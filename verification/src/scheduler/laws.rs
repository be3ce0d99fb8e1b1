//! What holds of the scheduler as a whole.
use super::model::{self, ExpiryView, Pick, SchedulerView, TaskStateView, TaskView, WorkerView};
use crate::task::TaskSpecView;
use std::time::{Duration, Instant};
use vstd::prelude::*;

verus! {

/// A list without its last element, where no element stands twice.
pub proof fn lemma_init(list: Seq<u128>)
    requires
        list.len() > 0,
        list.no_duplicates(),
    ensures
        list.drop_last().no_duplicates(),
        !list.drop_last().contains(list.last()),
        forall|x: u128| #[trigger] list.drop_last().contains(x) ==> list.contains(x),
{
    let init = list.drop_last();
    assert forall|x: u128| #[trigger] init.contains(x) implies list.contains(x) by {
        let i = choose|i: int| 0 <= i < init.len() && init[i] == x;
        assert(list[i] == x);
    }
    if init.contains(list.last()) {
        let i = choose|i: int| 0 <= i < init.len() && init[i] == list.last();
        assert(list[i] == list[list.len() - 1]);
    }
}

impl TaskView {
    /// Whether a task may become `post` in the course of time: what it does never changes, its
    /// attempts only grow and never beyond what it allows, it may be released from its worker but
    /// not pinned to another one, it does not wait again once its dependencies were there, and once
    /// it has come to its end it stays as it is.
    pub open spec fn evolves(self, post: TaskView) -> bool {
        &&& post.spec.task_id == self.spec.task_id
        &&& post.spec.function_id == self.spec.function_id
        &&& post.spec.dependencies == self.spec.dependencies
        &&& post.spec.output_id == self.spec.output_id
        &&& post.spec.max_retries == self.spec.max_retries
        &&& post.spec.attempt >= self.spec.attempt
        &&& post.spec.attempt > self.spec.attempt ==> post.spec.attempt <= post.spec.max_retries
        &&& post.spec.target_worker == self.spec.target_worker || post.spec.target_worker is None
        &&& self.state.terminal() ==> post.state == self.state && post.spec.attempt
            == self.spec.attempt
        &&& post.state is Pending ==> self.state is Pending
    }
}

impl SchedulerView {
    /// Whether a scheduler may become `post` in the course of time: no task and no available object
    /// is forgotten, and every task evolves.
    pub open spec fn evolves(self, post: SchedulerView) -> bool {
        &&& self.known_objects.subset_of(post.known_objects)
        &&& self.heartbeat_timeout == post.heartbeat_timeout
        &&& forall|t: u128| #[trigger]
            self.tasks.contains_key(t) ==> post.tasks.contains_key(t) && self.tasks[t].evolves(
                post.tasks[t],
            )
    }

    /// Evolving once and evolving again is evolving.
    pub proof fn evolution_goes_on(self, mid: SchedulerView, post: SchedulerView)
        requires
            self.evolves(mid),
            mid.evolves(post),
        ensures
            self.evolves(post),
    {
        assert forall|t: u128| #[trigger] self.tasks.contains_key(t) implies post.tasks.contains_key(
            t,
        ) && self.tasks[t].evolves(post.tasks[t]) by {
            assert(mid.tasks.contains_key(t));
        }
    }

    /// A scheduler evolves when a worker registers.
    pub proof fn registration_evolves(self, w: u128, slots: nat, now: Instant)
        ensures
            self.evolves(self.after_register(w, slots, now)),
    {
    }

    /// A scheduler evolves when a worker is heard of.
    pub proof fn heartbeat_evolves(self, w: u128, now: Instant)
        ensures
            self.evolves(self.after_heartbeat(w, now)),
    {
    }

    /// A scheduler evolves when a new task is submitted.
    pub proof fn submission_evolves(self, spec: TaskSpecView)
        requires
            !self.tasks.contains_key(spec.task_id),
        ensures
            self.evolves(self.after_submit(spec)),
    {
    }

    /// A scheduler evolves when an object becomes available.
    pub proof fn availability_evolves(self, object: u128, post: SchedulerView)
        requires
            self.makes_available(object, post),
        ensures
            self.evolves(post),
    {
    }

    /// A scheduler evolves when a worker starts a task.
    pub proof fn start_evolves(self, w: u128, t: u128)
        requires
            self.tasks.contains_key(t),
            self.tasks[t].state == TaskStateView::Leased(w),
        ensures
            self.evolves(self.with_state(t, TaskStateView::Running(w))),
    {
    }

    /// A scheduler evolves when a worker finishes a task.
    pub proof fn completion_evolves(self, w: u128, t: u128, output: u128, post: SchedulerView)
        requires
            self.owns(w, t),
            self.completes(w, t, output, post),
        ensures
            self.evolves(post),
    {
        let mid = self.after_release(w, t).with_state(t, TaskStateView::Finished);
        assert(self.evolves(mid));
        mid.availability_evolves(output, post);
        self.evolution_goes_on(mid, post);
    }

    /// A scheduler evolves when a worker reports a failure.
    pub proof fn failure_evolves(self, w: u128, t: u128, error: Seq<char>)
        requires
            self.owns(w, t),
        ensures
            self.evolves(self.after_fail(w, t, error)),
    {
    }

    /// A scheduler evolves when tasks are made to fail.
    pub proof fn making_tasks_fail_evolves(self, list: Seq<u128>, error: Seq<char>)
        ensures
            self.evolves(self.after_fail_tasks(list, error)),
    {
    }

    /// A scheduler evolves when a worker is removed.
    pub proof fn removal_evolves(self, w: u128, reason: Seq<char>)
        requires
            self.wf(),
            self.workers.contains_key(w),
        ensures
            self.evolves(self.after_remove(w, reason)),
    {
        let post = self.after_remove(w, reason);
        assert forall|t: u128| #[trigger] self.tasks.contains_key(t) implies post.tasks.contains_key(
            t,
        ) && self.tasks[t].evolves(post.tasks[t]) by {
            if self.workers[w].leased.contains(t) {
                assert(self.tasks[t].state.owned_by(w));
            }
        }
    }

    /// Workers that are removed one after the other were registered, and the scheduler stays
    /// well-formed.
    pub proof fn lemma_removals(self, list: Seq<u128>, reason: Seq<char>)
        requires
            self.wf(),
            list.no_duplicates(),
            forall|w: u128| #[trigger] list.contains(w) ==> self.workers.contains_key(w),
        ensures
            self.after_removals(list, reason).wf(),
            self.evolves(self.after_removals(list, reason)),
            self.after_removals(list, reason).known_objects == self.known_objects,
        decreases list.len(),
    {
        if list.len() > 0 {
            let init = list.drop_last();
            let w = list.last();
            lemma_init(list);
            self.lemma_removals(init, reason);
            self.lemma_removals_workers(init, reason);
            let mid = self.after_removals(init, reason);
            assert(list.contains(w));
            mid.lemma_remove_wf(w, reason);
            mid.removal_evolves(w, reason);
            self.evolution_goes_on(mid, mid.after_remove(w, reason));
        }
    }

    /// A scheduler evolves when it gives up on silent workers.
    pub proof fn expiry_evolves(self, now: Instant, report: Seq<ExpiryView>, post: SchedulerView)
        requires
            self.wf(),
            self.expires(now, report, post),
        ensures
            self.evolves(post),
    {
        let list = report.map_values(|e: ExpiryView| e.worker_id);
        self.lemma_removals(list, "worker heartbeat expired"@);
    }
}

/// Taking an element out of a list that holds it once is leaving the element out.
pub proof fn lemma_remove_one(s: Seq<u128>, i: int)
    requires
        0 <= i < s.len(),
        s.no_duplicates(),
    ensures
        s.remove(i) == model::without(s, s[i]),
    decreases s.len(),
{
    reveal(Seq::filter);
    let init = s.drop_last();
    if i == s.len() - 1 {
        assert forall|x: u128| #[trigger] init.contains(x) implies model::other_than(s[i])(x) by {}
        model::lemma_filter_all(init, model::other_than(s[i]));
        assert(s.remove(i) =~= init);
    } else {
        lemma_remove_one(init, i);
        assert(init[i] == s[i]);
        assert(s.last() != s[i]);
        assert(s.remove(i) =~= init.remove(i).push(s.last()));
    }
}

/// Leaving out what is not there changes nothing.
pub proof fn lemma_without_other(s: Seq<u128>, x: u128)
    requires
        !s.contains(x),
    ensures
        model::without(s, x) == s,
{
    model::lemma_filter_all(s, model::other_than(x));
}

/// The tasks of a list of descriptions.
pub open spec fn tasks_of(assigned: Seq<TaskSpecView>) -> Seq<u128> {
    assigned.map_values(|spec: TaskSpecView| spec.task_id)
}

impl SchedulerView {
    /// Whether task `t` may pass to worker `w`: it waits in the queue, or it is leased to another
    /// worker and has not been started; and worker `w` may run it.
    pub open spec fn available_to(self, w: u128, t: u128) -> bool {
        &&& self.can_run(t, w)
        &&& self.tasks[t].state is Ready || self.tasks[t].state is Leased
        &&& !self.owns(w, t)
    }

    /// Whether `post` differs from this scheduler in that worker `w` has got the tasks of `given`,
    /// and in nothing else but the places that these tasks left.
    pub open spec fn gives(self, w: u128, given: Seq<TaskSpecView>, post: SchedulerView) -> bool {
        let ids = tasks_of(given);
        &&& ids.no_duplicates()
        &&& forall|i: int|
            0 <= i < given.len() ==> {
                &&& self.available_to(w, (#[trigger] given[i]).task_id)
                &&& given[i] == self.tasks[given[i].task_id].spec
            }
        &&& post.tasks.dom() == self.tasks.dom()
        &&& forall|t: u128| #[trigger]
            self.tasks.contains_key(t) ==> post.tasks[t] == if ids.contains(t) {
                self.tasks[t].with_state(TaskStateView::Leased(w))
            } else {
                self.tasks[t]
            }
        &&& post.ready == self.ready.filter(model::outside(ids))
        &&& post.workers.dom() == self.workers.dom()
        &&& forall|v: u128| #[trigger]
            self.workers.contains_key(v) ==> post.workers[v] == if v == w {
                WorkerView { leased: self.workers[v].leased + ids, ..self.workers[v] }
            } else {
                WorkerView {
                    leased: self.workers[v].leased.filter(model::outside(ids)),
                    ..self.workers[v]
                }
            }
        &&& post.known_objects == self.known_objects
        &&& post.heartbeat_timeout == self.heartbeat_timeout
    }

    /// What one pick changes.
    pub proof fn lemma_pick_gives(self, w: u128, pick: Pick)
        requires
            self.wf(),
            self.workers.contains_key(w),
            self.allows_pick(w, pick),
        ensures
            self.available_to(w, self.picked(pick)),
            self.after_pick(w, pick).tasks == self.with_state(
                self.picked(pick),
                TaskStateView::Leased(w),
            ).tasks,
            self.after_pick(w, pick).ready == model::without(self.ready, self.picked(pick)),
            self.after_pick(w, pick).workers.dom() == self.workers.dom(),
            forall|v: u128| #[trigger]
                self.workers.contains_key(v) ==> self.after_pick(w, pick).workers[v] == if v == w {
                    WorkerView {
                        leased: self.workers[v].leased.push(self.picked(pick)),
                        ..self.workers[v]
                    }
                } else {
                    WorkerView {
                        leased: model::without(self.workers[v].leased, self.picked(pick)),
                        ..self.workers[v]
                    }
                },
            self.after_pick(w, pick).known_objects == self.known_objects,
            self.after_pick(w, pick).heartbeat_timeout == self.heartbeat_timeout,
    {
        let t = self.picked(pick);
        let post = self.after_pick(w, pick);
        match pick {
            Pick::Queued(i) => {
                assert(self.ready.contains(t));
                lemma_remove_one(self.ready, i);
            },
            Pick::Stolen(v, j) => {
                assert(self.workers[v].leased.contains(t));
                lemma_remove_one(self.workers[v].leased, j);
                assert(!self.ready.contains(t));
                lemma_without_other(self.ready, t);
            },
        }
        assert(post.tasks =~= self.with_state(t, TaskStateView::Leased(w)).tasks);
        assert(post.workers.dom() =~= self.workers.dom());
        assert forall|v: u128| #[trigger] self.workers.contains_key(v) && v
            != w implies post.workers[v].leased == model::without(self.workers[v].leased, t) by {
            if !(pick matches Pick::Stolen(victim, _) && victim == v) {
                if self.workers[v].leased.contains(t) {
                    assert(self.tasks[t].state.owned_by(v));
                }
                lemma_without_other(self.workers[v].leased, t);
            }
        }
    }

    /// What a row of picks changes.
    pub proof fn lemma_picks_give(self, w: u128, picks: Seq<Pick>)
        requires
            self.wf(),
            self.workers.contains_key(w),
            self.allows_picks(w, picks),
        ensures
            self.after_picks(w, picks).wf(),
            self.after_picks(w, picks).workers.contains_key(w),
            self.picked_specs(w, picks).len() == picks.len(),
            self.gives(w, self.picked_specs(w, picks), self.after_picks(w, picks)),
        decreases picks.len(),
    {
        let given = self.picked_specs(w, picks);
        let post = self.after_picks(w, picks);
        if picks.len() == 0 {
            let none = tasks_of(given);
            assert(none =~= Seq::<u128>::empty());
            model::lemma_filter_all(self.ready, model::outside(none));
            assert forall|v: u128| #[trigger] self.workers.contains_key(v) implies post.workers[v]
                == if v == w {
                WorkerView { leased: self.workers[v].leased + none, ..self.workers[v] }
            } else {
                WorkerView {
                    leased: self.workers[v].leased.filter(model::outside(none)),
                    ..self.workers[v]
                }
            } by {
                model::lemma_filter_all(self.workers[v].leased, model::outside(none));
                assert(self.workers[v].leased + none =~= self.workers[v].leased);
            }
        } else {
            let init = picks.drop_last();
            let pick = picks.last();
            let mid = self.after_picks(w, init);
            let earlier = self.picked_specs(w, init);
            self.lemma_picks_give(w, init);
            mid.lemma_pick_wf(w, pick);
            mid.lemma_pick_gives(w, pick);
            let t = mid.picked(pick);
            assert(mid.tasks[t].spec.task_id == t);
            let before = tasks_of(earlier);
            let ids = tasks_of(given);
            assert(ids =~= before.push(t));
            assert(!before.contains(t));
            assert(ids.no_duplicates());
            assert forall|x: u128| #[trigger] ids.contains(x) <==> before.contains(x) || x == t by {
                if before.contains(x) {
                    let i = choose|i: int| 0 <= i < before.len() && before[i] == x;
                    assert(ids[i] == x);
                }
                assert(ids[before.len() as int] == t);
            }
            model::lemma_filter_more(self.ready, before, t);
            assert forall|v: u128| #[trigger] self.workers.contains_key(v) implies post.workers[v]
                == if v == w {
                WorkerView { leased: self.workers[v].leased + ids, ..self.workers[v] }
            } else {
                WorkerView {
                    leased: self.workers[v].leased.filter(model::outside(ids)),
                    ..self.workers[v]
                }
            } by {
                assert(mid.workers.contains_key(v));
                model::lemma_filter_more(self.workers[v].leased, before, t);
                assert(self.workers[w].leased + ids =~= (self.workers[w].leased + before).push(t));
            }
            assert(post.tasks.dom() =~= self.tasks.dom());
            assert forall|x: u128| #[trigger] self.tasks.contains_key(x) implies post.tasks[x]
                == if ids.contains(x) {
                self.tasks[x].with_state(TaskStateView::Leased(w))
            } else {
                self.tasks[x]
            } by {
                assert(ids.contains(x) <==> before.contains(x) || x == t);
            }
            assert forall|i: int| 0 <= i < given.len() implies self.available_to(
                w,
                (#[trigger] given[i]).task_id,
            ) && given[i] == self.tasks[given[i].task_id].spec by {
                if i < earlier.len() {
                    assert(given[i] == earlier[i]);
                } else {
                    assert(self.tasks[t] == mid.tasks[t]);
                }
            }
        }
    }

    /// What a worker gets when it asks for tasks: different tasks that were not with it, that it may
    /// run, and that nobody had started; each is now leased to it, and listed with it in the order
    /// in which it got them. Every other task stays as it was and where it was: in particular, a
    /// task that a worker has started stays with that worker, and a task that is pinned to another
    /// worker is not given away.
    pub proof fn leasing_gives(
        self,
        w: u128,
        capacity: nat,
        assigned: Seq<TaskSpecView>,
        post: SchedulerView,
    )
        requires
            self.wf(),
            self.workers.contains_key(w),
            self.leases(w, capacity, assigned, post),
        ensures
            self.gives(w, assigned, post),
            post.wf(),
    {
        let picks = choose|picks: Seq<Pick>| self.leases_by(w, capacity, picks, assigned, post);
        self.lemma_picks_give(w, picks);
    }

    /// A scheduler evolves when a worker is given tasks.
    pub proof fn leasing_evolves(
        self,
        w: u128,
        capacity: nat,
        assigned: Seq<TaskSpecView>,
        post: SchedulerView,
    )
        requires
            self.wf(),
            self.workers.contains_key(w),
            self.leases(w, capacity, assigned, post),
        ensures
            self.evolves(post),
    {
        self.leasing_gives(w, capacity, assigned, post);
        assert forall|t: u128| #[trigger] self.tasks.contains_key(t) implies post.tasks.contains_key(
            t,
        ) && self.tasks[t].evolves(post.tasks[t]) by {
            let ids = tasks_of(assigned);
            if ids.contains(t) {
                let i = choose|i: int| 0 <= i < ids.len() && ids[i] == t;
                assert(self.available_to(w, assigned[i].task_id));
            }
        }
    }

    /// A task that is pinned to a worker is given to no other worker.
    pub proof fn pinned_tasks_go_to_their_worker(
        self,
        w: u128,
        capacity: nat,
        assigned: Seq<TaskSpecView>,
        post: SchedulerView,
        i: int,
    )
        requires
            self.wf(),
            self.workers.contains_key(w),
            self.leases(w, capacity, assigned, post),
            0 <= i < assigned.len(),
        ensures
            assigned[i].target_worker matches Some(target) ==> target == w,
    {
        self.leasing_gives(w, capacity, assigned, post);
        assert(self.available_to(w, assigned[i].task_id));
    }

    /// A worker is never given more tasks than it asks for; and one that holds tasks is never given
    /// more than it has free slots.
    pub proof fn leasing_stays_within_bounds(
        self,
        w: u128,
        capacity: nat,
        assigned: Seq<TaskSpecView>,
        post: SchedulerView,
    )
        requires
            self.wf(),
            self.workers.contains_key(w),
            self.leases(w, capacity, assigned, post),
        ensures
            assigned.len() <= capacity,
            self.workers[w].leased.len() > 0 ==> assigned.len() == 0
                || self.workers[w].leased.len() + assigned.len() <= self.workers[w].slots,
    {
        let picks = choose|picks: Seq<Pick>| self.leases_by(w, capacity, picks, assigned, post);
        self.lemma_picks_give(w, picks);
    }

    /// A worker that gets fewer tasks than it could have has been given everything in the queue
    /// that it may run.
    pub proof fn short_leases_empty_the_queue(
        self,
        w: u128,
        capacity: nat,
        assigned: Seq<TaskSpecView>,
        post: SchedulerView,
    )
        requires
            self.wf(),
            self.workers.contains_key(w),
            self.leases(w, capacity, assigned, post),
            assigned.len() < self.quota(w, capacity),
        ensures
            post.none_queued_for(w),
    {
        let picks = choose|picks: Seq<Pick>| self.leases_by(w, capacity, picks, assigned, post);
        self.lemma_picks_give(w, picks);
    }

    /// The first of a row of picks.
    proof fn lemma_first_pick(self, w: u128, picks: Seq<Pick>)
        requires
            self.allows_picks(w, picks),
            picks.len() > 0,
        ensures
            self.allows_pick(w, picks[0]),
            self.picked_specs(w, picks).len() == picks.len(),
            self.picked_specs(w, picks)[0] == self.tasks[self.picked(picks[0])].spec,
        decreases picks.len(),
    {
        let init = picks.drop_last();
        if init.len() > 0 {
            self.lemma_first_pick(w, init);
            assert(init[0] == picks[0]);
        } else {
            assert(self.after_picks(w, init) == self);
            assert(self.picked_specs(w, init).len() == 0);
        }
    }

    /// A worker that holds nothing and asks for tasks gets the first task in the queue that it may
    /// run, if there is one.
    pub proof fn idle_workers_are_served_in_order(
        self,
        w: u128,
        capacity: nat,
        assigned: Seq<TaskSpecView>,
        post: SchedulerView,
        i: int,
    )
        requires
            self.wf(),
            self.workers.contains_key(w),
            self.workers[w].leased.len() == 0,
            capacity > 0,
            self.leases(w, capacity, assigned, post),
            model::is_first(self.ready, |t: u128| self.can_run(t, w), i),
        ensures
            assigned.len() > 0,
            assigned[0].task_id == self.ready[i],
    {
        let picks = choose|picks: Seq<Pick>| self.leases_by(w, capacity, picks, assigned, post);
        self.lemma_picks_give(w, picks);
        assert(self.can_run(self.ready[i], w));
        if picks.len() == 0 {
            assert(post == self);
            assert(self.none_queued_for(w));
        } else {
            self.lemma_first_pick(w, picks);
            match picks[0] {
                Pick::Queued(j) => {
                    if j < i {
                        assert(!self.can_run(self.ready[j], w));
                    } else if i < j {
                        assert(!self.can_run(self.ready[i], w));
                    }
                },
                Pick::Stolen(_, _) => {},
            }
        }
    }
}

impl SchedulerView {
    /// Whether every task that is with a worker is in the list of leases of that worker, who is
    /// registered. A worker that registers again while it holds tasks is the one thing that breaks
    /// this: it starts over with an empty list.
    pub open spec fn accounted(self) -> bool {
        forall|w: u128, t: u128| #[trigger]
            self.owns(w, t) ==> self.workers.contains_key(w) && self.workers[w].leased.contains(t)
    }

    /// No task is ever lost: one that has not come to its end waits for an object that is missing,
    /// or stands in the queue, or is in the list of leases of a registered worker.
    pub proof fn nothing_is_lost(self, t: u128)
        requires
            self.wf(),
            self.accounted(),
            self.active(t),
        ensures
            match self.tasks[t].state {
                TaskStateView::Pending => !self.all_known(self.tasks[t].spec.dependencies),
                TaskStateView::Ready => self.ready.contains(t),
                TaskStateView::Leased(w) | TaskStateView::Running(w) => {
                    self.workers.contains_key(w) && self.workers[w].leased.contains(t)
                },
                TaskStateView::Finished | TaskStateView::Failed(_) => false,
            },
    {
        match self.tasks[t].state {
            TaskStateView::Leased(w) => {
                assert(self.owns(w, t));
            },
            TaskStateView::Running(w) => {
                assert(self.owns(w, t));
            },
            _ => {},
        }
    }

    /// In an empty scheduler every task is accounted for.
    pub proof fn empty_is_accounted(timeout: Duration)
        ensures
            SchedulerView::empty(timeout).accounted(),
    {
    }

    /// Tasks stay accounted for when a worker registers that holds none.
    pub proof fn registration_accounted(self, w: u128, slots: nat, now: Instant)
        requires
            self.accounted(),
            self.workers.contains_key(w) ==> self.workers[w].leased.len() == 0,
        ensures
            self.after_register(w, slots, now).accounted(),
    {
        let post = self.after_register(w, slots, now);
        assert forall|v: u128, t: u128| #[trigger] post.owns(v, t) implies post.workers.contains_key(
            v,
        ) && post.workers[v].leased.contains(t) by {
            assert(self.owns(v, t));
        }
    }

    /// Tasks stay accounted for when a worker is heard of.
    pub proof fn heartbeat_accounted(self, w: u128, now: Instant)
        requires
            self.accounted(),
        ensures
            self.after_heartbeat(w, now).accounted(),
    {
        let post = self.after_heartbeat(w, now);
        assert forall|v: u128, t: u128| #[trigger] post.owns(v, t) implies post.workers.contains_key(
            v,
        ) && post.workers[v].leased.contains(t) by {
            assert(self.owns(v, t));
        }
    }

    /// Tasks stay accounted for when a new task is submitted.
    pub proof fn submission_accounted(self, spec: TaskSpecView)
        requires
            self.accounted(),
            !self.tasks.contains_key(spec.task_id),
        ensures
            self.after_submit(spec).accounted(),
    {
        let post = self.after_submit(spec);
        assert forall|v: u128, t: u128| #[trigger] post.owns(v, t) implies post.workers.contains_key(
            v,
        ) && post.workers[v].leased.contains(t) by {
            assert(self.owns(v, t));
        }
    }

    /// Tasks stay accounted for when an object becomes available.
    pub proof fn availability_accounted(self, object: u128, post: SchedulerView)
        requires
            self.accounted(),
            self.makes_available(object, post),
        ensures
            post.accounted(),
    {
        assert forall|v: u128, t: u128| #[trigger] post.owns(v, t) implies post.workers.contains_key(
            v,
        ) && post.workers[v].leased.contains(t) by {
            assert(self.owns(v, t));
        }
    }

    /// Tasks stay accounted for when a worker starts a task.
    pub proof fn start_accounted(self, w: u128, t: u128)
        requires
            self.accounted(),
            self.tasks.contains_key(t),
            self.tasks[t].state == TaskStateView::Leased(w),
        ensures
            self.with_state(t, TaskStateView::Running(w)).accounted(),
    {
        let post = self.with_state(t, TaskStateView::Running(w));
        assert forall|v: u128, x: u128| #[trigger] post.owns(v, x) implies post.workers.contains_key(
            v,
        ) && post.workers[v].leased.contains(x) by {
            assert(self.owns(v, x));
        }
    }

    /// Tasks stay accounted for when one of them is taken off a worker and put into a state in which
    /// it is with no worker.
    proof fn lemma_release_accounted(self, w: u128, t: u128, post: SchedulerView)
        requires
            self.accounted(),
            self.owns(w, t),
            post.workers == self.after_release(w, t).workers,
            post.tasks.dom() == self.tasks.dom(),
            !post.tasks[t].state.owned(),
            forall|x: u128| #[trigger]
                self.tasks.contains_key(x) && x != t ==> post.tasks[x].state == self.tasks[x].state,
        ensures
            post.accounted(),
    {
        assert forall|v: u128, x: u128| #[trigger] post.owns(v, x) implies post.workers.contains_key(
            v,
        ) && post.workers[v].leased.contains(x) by {
            assert(self.tasks.contains_key(x));
            assert(x != t);
            assert(self.owns(v, x));
            model::lemma_without(self.workers[w].leased, t);
        }
    }

    /// Tasks stay accounted for when a worker finishes a task.
    pub proof fn completion_accounted(self, w: u128, t: u128, output: u128, post: SchedulerView)
        requires
            self.accounted(),
            self.owns(w, t),
            self.completes(w, t, output, post),
        ensures
            post.accounted(),
    {
        let mid = self.after_release(w, t).with_state(t, TaskStateView::Finished);
        assert(mid.tasks.dom() =~= self.tasks.dom());
        self.lemma_release_accounted(w, t, mid);
        mid.availability_accounted(output, post);
    }

    /// Tasks stay accounted for when a worker reports a failure.
    pub proof fn failure_accounted(self, w: u128, t: u128, error: Seq<char>)
        requires
            self.accounted(),
            self.owns(w, t),
        ensures
            self.after_fail(w, t, error).accounted(),
    {
        let post = self.after_fail(w, t, error);
        assert(post.tasks.dom() =~= self.tasks.dom());
        self.lemma_release_accounted(w, t, post);
    }

    /// Tasks stay accounted for when some of them are made to fail.
    pub proof fn making_tasks_fail_accounted(self, list: Seq<u128>, error: Seq<char>)
        requires
            self.accounted(),
        ensures
            self.after_fail_tasks(list, error).accounted(),
    {
        let post = self.after_fail_tasks(list, error);
        assert forall|v: u128, t: u128| #[trigger] post.owns(v, t) implies post.workers.contains_key(
            v,
        ) && post.workers[v].leased.contains(t) by {
            assert(self.owns(v, t));
            model::lemma_filter(self.workers[v].leased, model::outside(list));
        }
    }

    /// Tasks stay accounted for when a worker is given tasks.
    pub proof fn leasing_accounted(
        self,
        w: u128,
        capacity: nat,
        assigned: Seq<TaskSpecView>,
        post: SchedulerView,
    )
        requires
            self.wf(),
            self.accounted(),
            self.workers.contains_key(w),
            self.leases(w, capacity, assigned, post),
        ensures
            post.accounted(),
    {
        self.leasing_gives(w, capacity, assigned, post);
        let ids = tasks_of(assigned);
        assert forall|v: u128, t: u128| #[trigger] post.owns(v, t) implies post.workers.contains_key(
            v,
        ) && post.workers[v].leased.contains(t) by {
            assert(self.tasks.contains_key(t));
            model::lemma_concat_contains(self.workers[w].leased, ids, t);
            if ids.contains(t) {
                assert(v == w);
                assert(self.workers.contains_key(w));
            } else {
                assert(self.owns(v, t));
                model::lemma_filter(self.workers[v].leased, model::outside(ids));
            }
        }
    }

    /// Tasks stay accounted for when a worker is removed.
    pub proof fn removal_accounted(self, w: u128, reason: Seq<char>)
        requires
            self.wf(),
            self.accounted(),
            self.workers.contains_key(w),
        ensures
            self.after_remove(w, reason).accounted(),
    {
        let post = self.after_remove(w, reason);
        assert forall|v: u128, t: u128| #[trigger] post.owns(v, t) implies post.workers.contains_key(
            v,
        ) && post.workers[v].leased.contains(t) by {
            assert(self.owns(v, t));
            if v == w {
                assert(self.workers[w].leased.contains(t));
            }
        }
    }

    /// Tasks stay accounted for when the scheduler gives up on silent workers.
    pub proof fn expiry_accounted(self, now: Instant, report: Seq<ExpiryView>, post: SchedulerView)
        requires
            self.wf(),
            self.accounted(),
            self.expires(now, report, post),
        ensures
            post.accounted(),
    {
        let list = report.map_values(|e: ExpiryView| e.worker_id);
        self.lemma_removals_accounted(list, "worker heartbeat expired"@);
    }

    /// Tasks stay accounted for when workers are removed one after the other.
    proof fn lemma_removals_accounted(self, list: Seq<u128>, reason: Seq<char>)
        requires
            self.wf(),
            self.accounted(),
            list.no_duplicates(),
            forall|w: u128| #[trigger] list.contains(w) ==> self.workers.contains_key(w),
        ensures
            self.after_removals(list, reason).accounted(),
        decreases list.len(),
    {
        if list.len() > 0 {
            let init = list.drop_last();
            lemma_init(list);
            self.lemma_removals(init, reason);
            self.lemma_removals_workers(init, reason);
            self.lemma_removals_accounted(init, reason);
            assert(list.contains(list.last()));
            self.after_removals(init, reason).removal_accounted(list.last(), reason);
        }
    }

    /// After a worker has been removed, it is not registered, no task is pinned to it or listed as
    /// leased to it; the tasks that it had are reported, those that may be tried again as retried,
    /// which are in the queue now, the others as failed, which have failed for the given reason.
    pub proof fn removal_releases(self, w: u128, reason: Seq<char>, t: u128)
        requires
            self.wf(),
            self.workers.contains_key(w),
            self.tasks.contains_key(t),
        ensures
            !self.after_remove(w, reason).workers.contains_key(w),
            self.after_remove(w, reason).tasks[t].spec.target_worker != Some(w),
            self.workers[w].leased.contains(t) ==> if self.tasks[t].retryable() {
                &&& self.expiry(w).retried_tasks.contains(t)
                &&& !self.expiry(w).failed_tasks.contains(t)
                &&& self.after_remove(w, reason).ready.contains(t)
                &&& self.after_remove(w, reason).tasks[t].state is Ready
                &&& self.after_remove(w, reason).tasks[t].spec.attempt == self.tasks[t].spec.attempt
                    + 1
            } else {
                &&& self.expiry(w).failed_tasks.contains(t)
                &&& !self.expiry(w).retried_tasks.contains(t)
                &&& self.after_remove(w, reason).tasks[t].state == TaskStateView::Failed(reason)
            },
            !self.workers[w].leased.contains(t) ==> {
                &&& !self.expiry(w).retried_tasks.contains(t)
                &&& !self.expiry(w).failed_tasks.contains(t)
                &&& self.after_remove(w, reason).tasks[t].state == self.tasks[t].state
            },
    {
        let leased = self.workers[w].leased;
        model::lemma_filter(leased, self.may_retry());
        model::lemma_filter(leased, self.may_not_retry());
        model::lemma_concat_contains(self.ready, self.expiry(w).retried_tasks, t);
    }

    /// A task that waited for nothing but an object is ready, and in the queue, once that object is
    /// available.
    pub proof fn availability_frees_waiting_tasks(self, object: u128, post: SchedulerView, x: u128)
        requires
            self.makes_available(object, post),
            self.tasks.contains_key(x),
            self.tasks[x].state is Pending,
            forall|i: int|
                0 <= i < self.tasks[x].spec.dependencies.len() ==> self.known_objects.contains(
                    #[trigger] self.tasks[x].spec.dependencies[i],
                ) || self.tasks[x].spec.dependencies[i] == object,
        ensures
            post.known_objects.contains(object),
            post.tasks[x].state is Ready,
            post.ready.contains(x),
    {
        assert(self.freed_by(object, x));
        let order = post.ready.skip(self.ready.len() as int);
        assert(order.contains(x));
        model::lemma_concat_contains(self.ready, order, x);
        assert(post.ready =~= self.ready + order);
    }

    /// A task that waited for nothing but the result of a task is ready, and in the queue, once that
    /// task is finished.
    pub proof fn completion_frees_dependents(
        self,
        w: u128,
        t: u128,
        output: u128,
        post: SchedulerView,
        x: u128,
    )
        requires
            self.wf(),
            self.owns(w, t),
            self.completes(w, t, output, post),
            self.tasks.contains_key(x),
            self.tasks[x].state is Pending,
            forall|i: int|
                0 <= i < self.tasks[x].spec.dependencies.len() ==> self.known_objects.contains(
                    #[trigger] self.tasks[x].spec.dependencies[i],
                ) || self.tasks[x].spec.dependencies[i] == output,
        ensures
            post.tasks[t].state is Finished,
            post.known_objects.contains(output),
            post.tasks[x].state is Ready,
            post.ready.contains(x),
    {
        let mid = self.after_release(w, t).with_state(t, TaskStateView::Finished);
        assert(x != t);
        assert(mid.tasks[x] == self.tasks[x]);
        assert(!mid.freed_by(output, t));
        mid.availability_frees_waiting_tasks(output, post, x);
    }

    /// A task that is made to fail is scheduled no more: it is neither in the queue nor in a list of
    /// leases.
    pub proof fn failed_tasks_are_not_scheduled(
        self,
        list: Seq<u128>,
        error: Seq<char>,
        t: u128,
        w: u128,
    )
        requires
            self.wf(),
            list.contains(t),
            self.active(t),
        ensures
            self.after_fail_tasks(list, error).tasks[t].state == TaskStateView::Failed(error),
            !self.after_fail_tasks(list, error).ready.contains(t),
            self.workers.contains_key(w) ==> !self.after_fail_tasks(
                list,
                error,
            ).workers[w].leased.contains(t),
    {
        model::lemma_filter(self.ready, model::outside(list));
        if self.workers.contains_key(w) {
            model::lemma_filter(self.workers[w].leased, model::outside(list));
        }
    }
}

impl SchedulerView {
    /// A task is in one place only: in the queue, or in the list of leases of one worker.
    pub proof fn tasks_are_in_one_place(self, v: u128, w: u128, t: u128)
        requires
            self.wf(),
            self.workers.contains_key(w),
            self.workers[w].leased.contains(t),
        ensures
            !self.ready.contains(t),
            self.workers.contains_key(v) && self.workers[v].leased.contains(t) ==> v == w,
    {
        assert(self.tasks[t].state.owned_by(w));
        if self.workers.contains_key(v) && self.workers[v].leased.contains(t) {
            assert(self.tasks[t].state.owned_by(v));
        }
    }

    /// A task whose worker reports a failure is tried again as long as an attempt is left, and has
    /// failed with the reported error otherwise.
    pub proof fn failures_are_retried(self, w: u128, t: u128, error: Seq<char>)
        requires
            self.owns(w, t),
        ensures
            ({
                let post = self.after_fail(w, t, error);
                if self.tasks[t].spec.attempt < self.tasks[t].spec.max_retries {
                    &&& post.tasks[t].state is Ready
                    &&& post.ready.contains(t)
                    &&& post.tasks[t].spec.attempt == self.tasks[t].spec.attempt + 1
                } else {
                    &&& post.tasks[t].state == TaskStateView::Failed(error)
                    &&& post.tasks[t].spec.attempt == self.tasks[t].spec.attempt
                }
            }),
    {
        let post = self.after_fail(w, t, error);
        if self.tasks[t].retryable() {
            assert(post.ready.last() == t);
        }
    }

    /// When the scheduler gives up on silent workers, those are removed and no others.
    pub proof fn expiry_removes_the_silent(
        self,
        now: Instant,
        report: Seq<ExpiryView>,
        post: SchedulerView,
        w: u128,
    )
        requires
            self.expires(now, report, post),
        ensures
            post.workers.contains_key(w) <==> self.workers.contains_key(w) && !self.silent(w, now),
    {
        let list = report.map_values(|e: ExpiryView| e.worker_id);
        self.lemma_removals_workers(list, "worker heartbeat expired"@);
        assert(list.contains(w) <==> self.silent(w, now));
    }

    /// Where no worker is silent for too long, nothing changes and nothing is reported.
    pub proof fn healthy_workers_stay(
        self,
        now: Instant,
        report: Seq<ExpiryView>,
        post: SchedulerView,
    )
        requires
            self.expires(now, report, post),
            forall|w: u128| !#[trigger] self.silent(w, now),
        ensures
            report.len() == 0,
            post == self,
    {
        let list = report.map_values(|e: ExpiryView| e.worker_id);
        if list.len() > 0 {
            assert(list.contains(list[0]));
        }
    }

    /// A worker that holds nothing, for which nothing is queued and that asks for tasks gets one that
    /// another worker holds and has not started, where the busiest workers have one that it may run.
    pub proof fn idle_workers_steal(
        self,
        w: u128,
        capacity: nat,
        assigned: Seq<TaskSpecView>,
        post: SchedulerView,
    )
        requires
            self.wf(),
            self.workers.contains_key(w),
            self.workers[w].leased.len() == 0,
            capacity > 0,
            self.leases(w, capacity, assigned, post),
            self.none_queued_for(w),
            exists|v: u128| #[trigger] self.may_lose(w, v),
            forall|v: u128| #[trigger]
                self.busiest(w, v) ==> exists|j: int|
                    0 <= j < self.workers[v].leased.len() && self.stealable(
                        #[trigger] self.workers[v].leased[j],
                        w,
                    ),
        ensures
            assigned.len() > 0,
            self.stealable(assigned[0].task_id, w),
            exists|v: u128| #[trigger]
                self.busiest(w, v) && self.workers[v].leased.contains(assigned[0].task_id),
    {
        let picks = choose|picks: Seq<Pick>| self.leases_by(w, capacity, picks, assigned, post);
        self.lemma_picks_give(w, picks);
        if picks.len() == 0 {
            assert(post == self);
        } else {
            self.lemma_first_pick(w, picks);
            match picks[0] {
                Pick::Queued(i) => {
                    assert(self.can_run(self.ready[i], w));
                },
                Pick::Stolen(v, j) => {
                    assert(self.workers[v].leased.contains(self.workers[v].leased[j]));
                    assert(self.busiest(w, v));
                },
            }
        }
    }
}

} // verus!
