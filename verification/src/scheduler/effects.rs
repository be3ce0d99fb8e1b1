//! What each operation of the scheduler changes, field by field, and what it leaves as it was.
use super::model::{self, ExpiryView, SchedulerView, TaskStateView};
use super::{
    expiry_views, not_leased, not_owned, spec_views, task_exists, task_numbers, unknown_task,
    unknown_worker, worker_numbers, TaskRecord, TaskState, WorkerExpiry,
};
use crate::clock;
use crate::error::ErrorView;
use crate::ids::{TaskId, WorkerId};
use crate::task::{TaskSpec, TaskSpecView};
use crate::uuid_text;
use std::time::{Duration, Instant};
use vstd::prelude::*;

verus! {

impl SchedulerView {
    /// An empty scheduler has no tasks and no workers, knows of no object, and gives up on a worker
    /// after the given time.
    pub proof fn empty_schedulers_hold_nothing(timeout: Duration, x: u128)
        ensures
            !SchedulerView::empty(timeout).tasks.contains_key(x),
            SchedulerView::empty(timeout).ready.len() == 0,
            !SchedulerView::empty(timeout).known_objects.contains(x),
            !SchedulerView::empty(timeout).workers.contains_key(x),
            SchedulerView::empty(timeout).heartbeat_timeout == timeout,
    {
    }

    /// A worker that registers has the slots that it announces, and one where it announces none; it
    /// was last heard of just then and holds no task. No other worker and no task is touched.
    pub proof fn registration_takes_the_slots(self, w: u128, slots: nat, now: Instant, v: u128)
        ensures
            ({
                let post = self.after_register(w, slots, now);
                &&& post.workers.contains_key(w)
                &&& slots >= 1 ==> post.workers[w].slots == slots
                &&& slots == 0 ==> post.workers[w].slots == 1
                &&& post.workers[w].last_heartbeat == now
                &&& post.workers[w].leased.len() == 0
                &&& v != w ==> post.workers.contains_key(v) == self.workers.contains_key(v)
                &&& v != w && self.workers.contains_key(v) ==> post.workers[v] == self.workers[v]
                &&& post.tasks == self.tasks
                &&& post.ready == self.ready
                &&& post.known_objects == self.known_objects
                &&& post.heartbeat_timeout == self.heartbeat_timeout
            }),
    {
    }

    /// A sign of life moves the time at which its worker was last heard of, and nothing else; one of
    /// an unknown worker moves nothing.
    pub proof fn heartbeats_move_one_time(self, w: u128, now: Instant, v: u128)
        ensures
            ({
                let post = self.after_heartbeat(w, now);
                &&& post.workers.contains_key(v) == self.workers.contains_key(v)
                &&& self.workers.contains_key(v) ==> {
                    &&& post.workers[v].slots == self.workers[v].slots
                    &&& post.workers[v].leased == self.workers[v].leased
                    &&& v == w ==> post.workers[v].last_heartbeat == now
                    &&& v != w ==> post.workers[v].last_heartbeat == self.workers[v].last_heartbeat
                }
                &&& post.tasks == self.tasks
                &&& post.ready == self.ready
                &&& post.known_objects == self.known_objects
                &&& post.heartbeat_timeout == self.heartbeat_timeout
            }),
    {
    }

    /// A task that is submitted is kept as it was described, but for a pin to a worker that is not
    /// registered. It stands last in the queue where all its dependencies are available, and waits
    /// where one is missing. Nothing else changes.
    pub proof fn submission_keeps_the_description(self, spec: TaskSpecView, x: u128)
        requires
            !self.tasks.contains_key(spec.task_id),
        ensures
            ({
                let post = self.after_submit(spec);
                let kept = post.tasks[spec.task_id].spec;
                let ready = forall|i: int|
                    0 <= i < spec.dependencies.len() ==> self.known_objects.contains(
                        #[trigger] spec.dependencies[i],
                    );
                &&& post.tasks.contains_key(spec.task_id)
                &&& kept.task_id == spec.task_id
                &&& kept.function_id == spec.function_id
                &&& kept.dependencies == spec.dependencies
                &&& kept.output_id == spec.output_id
                &&& kept.max_retries == spec.max_retries
                &&& kept.attempt == spec.attempt
                &&& spec.target_worker is None ==> kept.target_worker is None
                &&& spec.target_worker matches Some(w) ==> {
                    &&& self.workers.contains_key(w) ==> kept.target_worker == Some(w)
                    &&& !self.workers.contains_key(w) ==> kept.target_worker is None
                }
                &&& ready ==> {
                    &&& post.tasks[spec.task_id].state is Ready
                    &&& post.ready == self.ready.push(spec.task_id)
                }
                &&& !ready ==> {
                    &&& post.tasks[spec.task_id].state is Pending
                    &&& post.ready == self.ready
                }
                &&& x != spec.task_id ==> post.tasks.contains_key(x) == self.tasks.contains_key(x)
                &&& self.tasks.contains_key(x) ==> post.tasks[x] == self.tasks[x]
                &&& post.workers == self.workers
                &&& post.known_objects == self.known_objects
                &&& post.heartbeat_timeout == self.heartbeat_timeout
            }),
    {
        let ready = forall|i: int|
            0 <= i < spec.dependencies.len() ==> self.known_objects.contains(
                #[trigger] spec.dependencies[i],
            );
        assert(ready == self.all_known(spec.dependencies));
    }

    /// When an object becomes available, exactly the tasks that waited for nothing else become ready
    /// and join the queue behind the others. What tasks do, and who holds what, does not change.
    pub proof fn availability_readies_who_waited_for_it(
        self,
        object: u128,
        post: SchedulerView,
        t: u128,
        o: u128,
    )
        requires
            self.wf(),
            self.makes_available(object, post),
        ensures
            ({
                let supplied = forall|i: int|
                    0 <= i < self.tasks[t].spec.dependencies.len() ==> {
                        ||| #[trigger] self.tasks[t].spec.dependencies[i] == object
                        ||| self.known_objects.contains(self.tasks[t].spec.dependencies[i])
                    };
                let freed = self.tasks.contains_key(t) && self.tasks[t].state is Pending && supplied;
                &&& post.known_objects.contains(o) <==> self.known_objects.contains(o) || o == object
                &&& post.tasks.contains_key(t) == self.tasks.contains_key(t)
                &&& self.tasks.contains_key(t) ==> post.tasks[t].spec == self.tasks[t].spec
                &&& freed ==> post.tasks[t].state is Ready
                &&& self.tasks.contains_key(t) && !freed ==> post.tasks[t].state
                    == self.tasks[t].state
                &&& post.ready.contains(t) <==> self.ready.contains(t) || freed
                &&& post.ready.no_duplicates()
                &&& self.ready.is_prefix_of(post.ready)
                &&& post.workers == self.workers
                &&& post.heartbeat_timeout == self.heartbeat_timeout
            }),
    {
        let order = post.ready.skip(self.ready.len() as int);
        let supplied = forall|i: int|
            0 <= i < self.tasks[t].spec.dependencies.len() ==> {
                ||| #[trigger] self.tasks[t].spec.dependencies[i] == object
                ||| self.known_objects.contains(self.tasks[t].spec.dependencies[i])
            };
        assert(supplied == self.with_object(object).all_known(self.tasks[t].spec.dependencies));
        model::lemma_concat_contains(self.ready, order, t);
        assert(post.ready == self.ready + order);
        assert(order.contains(t) <==> self.freed_by(object, t));
        self.lemma_object_wf(object, post);
    }

    /// Putting a task into another state changes nothing but that state.
    pub proof fn states_change_alone(self, t: u128, state: TaskStateView, x: u128)
        requires
            self.tasks.contains_key(t),
        ensures
            ({
                let post = self.with_state(t, state);
                &&& post.tasks[t].state == state
                &&& post.tasks[t].spec == self.tasks[t].spec
                &&& post.tasks.contains_key(x) == self.tasks.contains_key(x)
                &&& x != t && self.tasks.contains_key(x) ==> post.tasks[x] == self.tasks[x]
                &&& post.ready == self.ready
                &&& post.workers == self.workers
                &&& post.known_objects == self.known_objects
                &&& post.heartbeat_timeout == self.heartbeat_timeout
            }),
    {
    }

    /// A task is with the worker that it was leased to or that runs it, and with no other.
    pub proof fn tasks_are_with_who_has_them(self, w: u128, t: u128)
        ensures
            self.owns(w, t) <==> {
                &&& self.tasks.contains_key(t)
                &&& {
                    ||| self.tasks[t].state == TaskStateView::Leased(w)
                    ||| self.tasks[t].state == TaskStateView::Running(w)
                }
            },
    {
    }

    /// Once a task is off a worker's hands, that worker's list of leases lacks this one task, and no
    /// other list changes.
    proof fn lemma_release_takes_one(self, w: u128, t: u128, v: u128, i: int)
        requires
            self.wf(),
            self.owns(w, t),
        ensures
            ({
                let post = self.after_release(w, t);
                &&& post.workers.contains_key(v) == self.workers.contains_key(v)
                &&& self.workers.contains_key(v) ==> {
                    &&& post.workers[v].slots == self.workers[v].slots
                    &&& post.workers[v].last_heartbeat == self.workers[v].last_heartbeat
                    &&& v != w ==> post.workers[v].leased == self.workers[v].leased
                    &&& !self.workers[v].leased.contains(t) ==> post.workers[v].leased
                        == self.workers[v].leased
                    &&& v == w && 0 <= i < self.workers[v].leased.len()
                        && self.workers[v].leased[i] == t ==> post.workers[v].leased
                        == self.workers[v].leased.remove(i)
                }
            }),
    {
        if self.workers.contains_key(w) {
            let leased = self.workers[w].leased;
            if !leased.contains(t) {
                super::laws::lemma_without_other(leased, t);
            }
            if 0 <= i < leased.len() && leased[i] == t {
                super::laws::lemma_remove_one(leased, i);
            }
        }
    }

    /// A task that its worker has finished is finished, does what it did, and is off the worker's
    /// list of leases; its result is available. Exactly the tasks that waited for nothing else than
    /// that result become ready.
    pub proof fn completion_finishes_one_task(
        self,
        w: u128,
        t: u128,
        output: u128,
        post: SchedulerView,
        x: u128,
        v: u128,
        i: int,
        o: u128,
    )
        requires
            self.wf(),
            self.tasks.contains_key(t),
            self.tasks[t].state == TaskStateView::Leased(w) || self.tasks[t].state
                == TaskStateView::Running(w),
            self.completes(w, t, output, post),
        ensures
            ({
                let supplied = forall|k: int|
                    0 <= k < self.tasks[x].spec.dependencies.len() ==> {
                        ||| #[trigger] self.tasks[x].spec.dependencies[k] == output
                        ||| self.known_objects.contains(self.tasks[x].spec.dependencies[k])
                    };
                let freed = self.tasks.contains_key(x) && self.tasks[x].state is Pending && supplied;
                &&& post.tasks[t].state is Finished
                &&& post.known_objects.contains(o) <==> self.known_objects.contains(o) || o == output
                &&& post.tasks.contains_key(x) == self.tasks.contains_key(x)
                &&& self.tasks.contains_key(x) ==> post.tasks[x].spec == self.tasks[x].spec
                &&& freed ==> post.tasks[x].state is Ready
                &&& self.tasks.contains_key(x) && x != t && !freed ==> post.tasks[x].state
                    == self.tasks[x].state
                &&& post.ready.contains(x) <==> self.ready.contains(x) || freed
                &&& post.ready.no_duplicates()
                &&& self.ready.is_prefix_of(post.ready)
                &&& post.workers.contains_key(v) == self.workers.contains_key(v)
                &&& self.workers.contains_key(v) ==> {
                    &&& post.workers[v].slots == self.workers[v].slots
                    &&& post.workers[v].last_heartbeat == self.workers[v].last_heartbeat
                    &&& v != w ==> post.workers[v].leased == self.workers[v].leased
                    &&& !self.workers[v].leased.contains(t) ==> post.workers[v].leased
                        == self.workers[v].leased
                    &&& v == w && 0 <= i < self.workers[v].leased.len()
                        && self.workers[v].leased[i] == t ==> post.workers[v].leased
                        == self.workers[v].leased.remove(i)
                }
                &&& post.heartbeat_timeout == self.heartbeat_timeout
            }),
    {
        let mid = self.after_release(w, t).with_state(t, TaskStateView::Finished);
        self.lemma_finish_wf(w, t);
        self.lemma_release_takes_one(w, t, v, i);
        mid.availability_readies_who_waited_for_it(output, post, x, o);
        mid.availability_readies_who_waited_for_it(output, post, t, o);
        assert(mid.tasks.contains_key(x) == self.tasks.contains_key(x));
        assert(self.tasks.contains_key(x) ==> mid.tasks[x].spec == self.tasks[x].spec);
    }

    /// A task that its worker could not do is tried again, as the last in the queue, where it has an
    /// attempt left, and otherwise has failed with the reported error. It does what it did, it is
    /// off the worker's list of leases, and no other task changes.
    pub proof fn failure_sets_one_task_back(
        self,
        w: u128,
        t: u128,
        error: Seq<char>,
        x: u128,
        v: u128,
        i: int,
    )
        requires
            self.wf(),
            self.tasks.contains_key(t),
            self.tasks[t].state == TaskStateView::Leased(w) || self.tasks[t].state
                == TaskStateView::Running(w),
        ensures
            ({
                let post = self.after_fail(w, t, error);
                let was = self.tasks[t].spec;
                let left = post.tasks[t].spec;
                &&& left.task_id == was.task_id
                &&& left.function_id == was.function_id
                &&& left.dependencies == was.dependencies
                &&& left.output_id == was.output_id
                &&& left.target_worker == was.target_worker
                &&& left.max_retries == was.max_retries
                &&& was.attempt < was.max_retries ==> {
                    &&& left.attempt == was.attempt + 1
                    &&& post.tasks[t].state is Ready
                    &&& post.ready == self.ready.push(t)
                }
                &&& was.attempt >= was.max_retries ==> {
                    &&& left.attempt == was.attempt
                    &&& post.tasks[t].state == TaskStateView::Failed(error)
                    &&& post.ready == self.ready
                }
                &&& post.tasks.contains_key(x) == self.tasks.contains_key(x)
                &&& x != t && self.tasks.contains_key(x) ==> post.tasks[x] == self.tasks[x]
                &&& post.workers.contains_key(v) == self.workers.contains_key(v)
                &&& self.workers.contains_key(v) ==> {
                    &&& post.workers[v].slots == self.workers[v].slots
                    &&& post.workers[v].last_heartbeat == self.workers[v].last_heartbeat
                    &&& v != w ==> post.workers[v].leased == self.workers[v].leased
                    &&& !self.workers[v].leased.contains(t) ==> post.workers[v].leased
                        == self.workers[v].leased
                    &&& v == w && 0 <= i < self.workers[v].leased.len()
                        && self.workers[v].leased[i] == t ==> post.workers[v].leased
                        == self.workers[v].leased.remove(i)
                }
                &&& post.known_objects == self.known_objects
                &&& post.heartbeat_timeout == self.heartbeat_timeout
            }),
    {
        self.lemma_release_takes_one(w, t, v, i);
    }
}

/// Predicates that agree on the elements of a sequence keep the same of them.
pub proof fn lemma_filter_same(s: Seq<u128>, p: spec_fn(u128) -> bool, q: spec_fn(u128) -> bool)
    requires
        forall|x: u128| #[trigger] s.contains(x) ==> p(x) == q(x),
    ensures
        s.filter(p) == s.filter(q),
    decreases s.len(),
{
    reveal(Seq::filter);
    if s.len() > 0 {
        let init = s.drop_last();
        assert(s.contains(s.last()));
        assert forall|x: u128| #[trigger] init.contains(x) implies p(x) == q(x) by {
            let i = choose|i: int| 0 <= i < init.len() && init[i] == x;
            assert(s[i] == x);
            assert(s.contains(x));
        }
        lemma_filter_same(init, p, q);
    }
}

impl SchedulerView {
    /// When tasks are made to fail, those of the list that had not come to their end have failed
    /// with the given error, and are neither in the queue nor in a list of leases. All other tasks
    /// stay as they were and where they were.
    pub proof fn only_listed_tasks_are_made_to_fail(
        self,
        list: Seq<u128>,
        error: Seq<char>,
        t: u128,
        v: u128,
    )
        ensures
            ({
                let post = self.after_fail_tasks(list, error);
                let ended = self.tasks[t].state is Finished || self.tasks[t].state is Failed;
                &&& post.tasks.contains_key(t) == self.tasks.contains_key(t)
                &&& self.tasks.contains_key(t) ==> post.tasks[t].spec == self.tasks[t].spec
                &&& self.tasks.contains_key(t) && list.contains(t) && !ended ==> post.tasks[t].state
                    == TaskStateView::Failed(error)
                &&& self.tasks.contains_key(t) && (!list.contains(t) || ended)
                    ==> post.tasks[t].state == self.tasks[t].state
                &&& post.ready == self.ready.filter(|x: u128| !list.contains(x))
                &&& post.workers.contains_key(v) == self.workers.contains_key(v)
                &&& self.workers.contains_key(v) ==> {
                    &&& post.workers[v].slots == self.workers[v].slots
                    &&& post.workers[v].last_heartbeat == self.workers[v].last_heartbeat
                    &&& post.workers[v].leased == self.workers[v].leased.filter(
                        |x: u128| !list.contains(x),
                    )
                }
                &&& post.known_objects == self.known_objects
                &&& post.heartbeat_timeout == self.heartbeat_timeout
            }),
    {
        let unlisted = |x: u128| !list.contains(x);
        lemma_filter_same(self.ready, model::outside(list), unlisted);
        lemma_filter_same(self.workers[v].leased, model::outside(list), unlisted);
    }

    /// The tasks that are reported as made to fail are those of the list that had not come to their
    /// end, each once, in the order in which the list first names them.
    pub proof fn tasks_made_to_fail_are_reported(self, list: Seq<u128>, t: u128, i: int, j: int)
        ensures
            ({
                let failed = self.active_of(list);
                &&& failed.no_duplicates()
                &&& failed.contains(t) <==> {
                    &&& list.contains(t)
                    &&& self.tasks.contains_key(t)
                    &&& !(self.tasks[t].state is Finished)
                    &&& !(self.tasks[t].state is Failed)
                }
                &&& 0 <= i < j < failed.len() ==> exists|k: int|
                    {
                        &&& 0 <= k < list.len()
                        &&& #[trigger] list[k] == failed[i]
                        &&& forall|l: int| 0 <= l <= k ==> #[trigger] list[l] != failed[j]
                    }
            }),
        decreases list.len(),
    {
        let failed = self.active_of(list);
        if list.len() > 0 {
            let init = list.drop_last();
            let last = list.last();
            let earlier = self.active_of(init);
            self.tasks_made_to_fail_are_reported(init, t, i, j);
            self.tasks_made_to_fail_are_reported(init, last, i, j);
            assert(list =~= init + seq![last]);
            model::lemma_concat_contains(init, seq![last], t);
            assert(seq![last].contains(t) <==> t == last) by {
                assert(seq![last][0] == last);
            }
            if failed != earlier {
                assert(failed =~= earlier + seq![last]);
                model::lemma_concat_contains(earlier, seq![last], t);
                assert(!earlier.contains(last));
                assert(failed.no_duplicates());
            }
            if 0 <= i < j < failed.len() {
                if j < earlier.len() {
                    let k = choose|k: int|
                        {
                            &&& 0 <= k < init.len()
                            &&& #[trigger] init[k] == earlier[i]
                            &&& forall|l: int| 0 <= l <= k ==> #[trigger] init[l] != earlier[j]
                        };
                    assert(list[k] == failed[i]);
                    assert forall|l: int| 0 <= l <= k implies #[trigger] list[l] != failed[j] by {
                        assert(init[l] != earlier[j]);
                    }
                } else {
                    assert(failed[j] == last);
                    assert(earlier.contains(failed[i]));
                    self.tasks_made_to_fail_are_reported(init, failed[i], 0, 0);
                    let k = choose|k: int| 0 <= k < init.len() && init[k] == failed[i];
                    assert(list[k] == failed[i]);
                    assert forall|l: int| 0 <= l <= k implies #[trigger] list[l] != failed[j] by {
                        assert(init.contains(init[l]));
                    }
                }
            }
        }
    }

    /// When a worker is removed, the tasks that it held are set back: those with an attempt left are
    /// tried again, behind the queue and in the order in which the worker got them, and the others
    /// have failed for the given reason. Tasks that were pinned to the worker are pinned to none;
    /// every other pin, every other task and every other worker stays as it was.
    pub proof fn removal_sets_back_what_the_worker_held(
        self,
        w: u128,
        reason: Seq<char>,
        t: u128,
        v: u128,
    )
        requires
            self.wf(),
            self.workers.contains_key(w),
        ensures
            ({
                let post = self.after_remove(w, reason);
                let held = self.workers[w].leased;
                let was = self.tasks[t].spec;
                let left = post.tasks[t].spec;
                let again = |x: u128| self.tasks[x].spec.attempt < self.tasks[x].spec.max_retries;
                let over = |x: u128| self.tasks[x].spec.attempt >= self.tasks[x].spec.max_retries;
                &&& post.workers.contains_key(v) <==> self.workers.contains_key(v) && v != w
                &&& self.workers.contains_key(v) && v != w ==> post.workers[v] == self.workers[v]
                &&& post.tasks.contains_key(t) == self.tasks.contains_key(t)
                &&& self.tasks.contains_key(t) ==> {
                    &&& left.task_id == was.task_id
                    &&& left.function_id == was.function_id
                    &&& left.dependencies == was.dependencies
                    &&& left.output_id == was.output_id
                    &&& left.max_retries == was.max_retries
                    &&& was.target_worker == Some(w) ==> left.target_worker is None
                    &&& was.target_worker != Some(w) ==> left.target_worker == was.target_worker
                    &&& !held.contains(t) ==> {
                        &&& left.attempt == was.attempt
                        &&& post.tasks[t].state == self.tasks[t].state
                    }
                    &&& held.contains(t) && was.attempt < was.max_retries ==> {
                        &&& left.attempt == was.attempt + 1
                        &&& post.tasks[t].state is Ready
                    }
                    &&& held.contains(t) && was.attempt >= was.max_retries ==> {
                        &&& left.attempt == was.attempt
                        &&& post.tasks[t].state == TaskStateView::Failed(reason)
                    }
                }
                &&& post.ready == self.ready + held.filter(again)
                &&& post.known_objects == self.known_objects
                &&& post.heartbeat_timeout == self.heartbeat_timeout
                &&& self.expiry(w).worker_id == w
                &&& self.expiry(w).retried_tasks == held.filter(again)
                &&& self.expiry(w).failed_tasks == held.filter(over)
            }),
    {
        let held = self.workers[w].leased;
        let again = |x: u128| self.tasks[x].spec.attempt < self.tasks[x].spec.max_retries;
        let over = |x: u128| self.tasks[x].spec.attempt >= self.tasks[x].spec.max_retries;
        lemma_filter_same(held, self.may_retry(), again);
        lemma_filter_same(held, self.may_not_retry(), over);
    }

    /// What removing workers one after the other does to one task and to one worker, and what is
    /// reported of one of them.
    proof fn lemma_removals_set_back(
        self,
        list: Seq<u128>,
        reason: Seq<char>,
        t: u128,
        v: u128,
        k: int,
    )
        requires
            self.wf(),
            list.no_duplicates(),
            forall|w: u128| #[trigger] list.contains(w) ==> self.workers.contains_key(w),
        ensures
            ({
                let post = self.after_removals(list, reason);
                let report = self.expiries(list, reason);
                let was = self.tasks[t].spec;
                let left = post.tasks[t].spec;
                let held = exists|w: u128| #[trigger]
                    list.contains(w) && self.workers[w].leased.contains(t);
                let again = |x: u128| self.tasks[x].spec.attempt < self.tasks[x].spec.max_retries;
                let over = |x: u128| self.tasks[x].spec.attempt >= self.tasks[x].spec.max_retries;
                &&& post.workers.contains_key(v) <==> self.workers.contains_key(v) && !list.contains(
                    v,
                )
                &&& self.workers.contains_key(v) && !list.contains(v) ==> post.workers[v]
                    == self.workers[v]
                &&& post.tasks.contains_key(t) == self.tasks.contains_key(t)
                &&& self.tasks.contains_key(t) ==> {
                    &&& left.task_id == was.task_id
                    &&& left.function_id == was.function_id
                    &&& left.dependencies == was.dependencies
                    &&& left.output_id == was.output_id
                    &&& left.max_retries == was.max_retries
                    &&& was.target_worker is None ==> left.target_worker is None
                    &&& was.target_worker matches Some(w) ==> left.target_worker == if list.contains(
                        w,
                    ) {
                        None
                    } else {
                        Some(w)
                    }
                    &&& !held ==> {
                        &&& left.attempt == was.attempt
                        &&& post.tasks[t].state == self.tasks[t].state
                    }
                    &&& held && was.attempt < was.max_retries ==> {
                        &&& left.attempt == was.attempt + 1
                        &&& post.tasks[t].state is Ready
                    }
                    &&& held && was.attempt >= was.max_retries ==> {
                        &&& left.attempt == was.attempt
                        &&& post.tasks[t].state == TaskStateView::Failed(reason)
                    }
                }
                &&& post.ready == self.ready + report.map_values(
                    |e: ExpiryView| e.retried_tasks,
                ).flatten()
                &&& post.known_objects == self.known_objects
                &&& post.heartbeat_timeout == self.heartbeat_timeout
                &&& report.len() == list.len()
                &&& 0 <= k < list.len() ==> {
                    &&& report[k].worker_id == list[k]
                    &&& report[k].retried_tasks == self.workers[list[k]].leased.filter(again)
                    &&& report[k].failed_tasks == self.workers[list[k]].leased.filter(over)
                }
            }),
        decreases list.len(),
    {
        let retried = |e: ExpiryView| e.retried_tasks;
        let report = self.expiries(list, reason);
        if list.len() == 0 {
            assert(report.map_values(retried) =~= Seq::<Seq<u128>>::empty());
            assert(self.ready + report.map_values(retried).flatten() =~= self.ready);
        } else {
            let init = list.drop_last();
            let last = list.last();
            let mid = self.after_removals(init, reason);
            let earlier = self.expiries(init, reason);
            super::laws::lemma_init(list);
            self.lemma_removals_set_back(init, reason, t, v, k);
            self.lemma_removals_set_back(init, reason, t, last, k);
            self.lemma_removals(init, reason);
            assert(list.contains(last));
            mid.removal_sets_back_what_the_worker_held(last, reason, t, v);
            assert(list =~= init + seq![last]);
            assert forall|w: u128| #[trigger] list.contains(w) <==> init.contains(w) || w == last by {
                model::lemma_concat_contains(init, seq![last], w);
                assert(seq![last].contains(w) <==> w == last) by {
                    assert(seq![last][0] == last);
                }
            }
            let leased = self.workers[last].leased;
            assert(mid.workers[last] == self.workers[last]);
            assert forall|x: u128| #[trigger] leased.contains(x) implies mid.tasks[x]
                .spec.attempt == self.tasks[x].spec.attempt && mid.tasks[x].spec.max_retries
                == self.tasks[x].spec.max_retries by {
                self.lemma_removals_set_back(init, reason, x, v, k);
                assert(self.tasks[x].state.owned_by(last));
                assert forall|w: u128| #[trigger] init.contains(
                    w,
                ) implies !self.workers[w].leased.contains(x) by {
                    if self.workers[w].leased.contains(x) {
                        assert(list.contains(w));
                        assert(self.tasks[x].state.owned_by(w));
                    }
                }
            }
            let again = |x: u128| self.tasks[x].spec.attempt < self.tasks[x].spec.max_retries;
            let over = |x: u128| self.tasks[x].spec.attempt >= self.tasks[x].spec.max_retries;
            lemma_filter_same(leased, mid.may_retry(), again);
            lemma_filter_same(leased, mid.may_not_retry(), over);
            assert(report == earlier.push(mid.expiry(last)));
            assert(report.map_values(retried) =~= earlier.map_values(retried).push(
                mid.expiry(last).retried_tasks,
            ));
            earlier.map_values(retried).lemma_flatten_push(mid.expiry(last).retried_tasks);
            assert(mid.ready + mid.expiry(last).retried_tasks =~= self.ready + report.map_values(
                retried,
            ).flatten());
            if leased.contains(t) {
                assert(list.contains(last) && self.workers[last].leased.contains(t));
            }
            if exists|w: u128| #[trigger] init.contains(w) && self.workers[w].leased.contains(t) {
                let w = choose|w: u128| #[trigger]
                    init.contains(w) && self.workers[w].leased.contains(t);
                assert(list.contains(w));
                if leased.contains(t) {
                    assert(self.tasks[t].state.owned_by(w));
                    assert(self.tasks[t].state.owned_by(last));
                }
            }
        }
    }

    /// When the scheduler gives up on silent workers, those are gone that were silent for longer than
    /// the timeout, and every other worker stays as it was, with what it held and what was pinned to
    /// it. The tasks that the silent workers held are set back: those with an attempt left are tried
    /// again, behind the queue, and the others have failed. Each silent worker is reported once, with
    /// what became of its tasks.
    pub proof fn expiry_sets_back_what_the_silent_held(
        self,
        now: Instant,
        report: Seq<ExpiryView>,
        post: SchedulerView,
        t: u128,
        v: u128,
        k: int,
    )
        requires
            self.wf(),
            self.expires(now, report, post),
        ensures
            ({
                let limit = clock::duration_nanos(self.heartbeat_timeout);
                let gone = |w: u128|
                    self.workers.contains_key(w) && clock::elapsed_nanos(
                        now,
                        self.workers[w].last_heartbeat,
                    ) > limit;
                let was = self.tasks[t].spec;
                let left = post.tasks[t].spec;
                let held = exists|w: u128| gone(w) && #[trigger] self.workers[w].leased.contains(t);
                let again = |x: u128| self.tasks[x].spec.attempt < self.tasks[x].spec.max_retries;
                let over = |x: u128| self.tasks[x].spec.attempt >= self.tasks[x].spec.max_retries;
                &&& post.workers.contains_key(v) <==> self.workers.contains_key(v) && !gone(v)
                &&& self.workers.contains_key(v) && !gone(v) ==> post.workers[v] == self.workers[v]
                &&& post.tasks.contains_key(t) == self.tasks.contains_key(t)
                &&& self.tasks.contains_key(t) ==> {
                    &&& left.task_id == was.task_id
                    &&& left.function_id == was.function_id
                    &&& left.dependencies == was.dependencies
                    &&& left.output_id == was.output_id
                    &&& left.max_retries == was.max_retries
                    &&& was.target_worker is None ==> left.target_worker is None
                    &&& was.target_worker matches Some(w) ==> {
                        &&& gone(w) ==> left.target_worker is None
                        &&& !gone(w) ==> left.target_worker == Some(w)
                    }
                    &&& !held ==> {
                        &&& left.attempt == was.attempt
                        &&& post.tasks[t].state == self.tasks[t].state
                    }
                    &&& held && was.attempt < was.max_retries ==> {
                        &&& left.attempt == was.attempt + 1
                        &&& post.tasks[t].state is Ready
                    }
                    &&& held && was.attempt >= was.max_retries ==> {
                        &&& left.attempt == was.attempt
                        &&& post.tasks[t].state == TaskStateView::Failed(
                            "worker heartbeat expired"@,
                        )
                    }
                }
                &&& post.ready == self.ready + report.map_values(
                    |e: ExpiryView| e.retried_tasks,
                ).flatten()
                &&& post.known_objects == self.known_objects
                &&& post.heartbeat_timeout == self.heartbeat_timeout
                &&& report.map_values(|e: ExpiryView| e.worker_id).no_duplicates()
                &&& gone(v) <==> exists|i: int|
                    0 <= i < report.len() && (#[trigger] report[i]).worker_id == v
                &&& 0 <= k < report.len() ==> {
                    let leased = self.workers[report[k].worker_id].leased;
                    &&& report[k].retried_tasks == leased.filter(again)
                    &&& report[k].failed_tasks == leased.filter(over)
                }
            }),
    {
        let list = report.map_values(|e: ExpiryView| e.worker_id);
        self.lemma_removals_set_back(list, "worker heartbeat expired"@, t, v, k);
        assert(list.contains(v) <==> self.silent(v, now));
        if list.contains(v) {
            let i = choose|i: int| 0 <= i < list.len() && list[i] == v;
            assert(report[i].worker_id == v);
        }
        if exists|i: int| 0 <= i < report.len() && (#[trigger] report[i]).worker_id == v {
            let i = choose|i: int| 0 <= i < report.len() && (#[trigger] report[i]).worker_id == v;
            assert(list[i] == v);
        }
        assert((exists|w: u128| #[trigger] list.contains(w) && self.workers[w].leased.contains(t))
            <==> exists|w: u128|
            self.silent(w, now) && #[trigger] self.workers[w].leased.contains(t)) by {
            if exists|w: u128| self.silent(w, now) && #[trigger] self.workers[w].leased.contains(t) {
                let w = choose|w: u128|
                    self.silent(w, now) && #[trigger] self.workers[w].leased.contains(t);
                assert(list.contains(w) && self.workers[w].leased.contains(t));
            }
        }
    }
}

/// Each refusal of the scheduler names the task and the worker that it is about.
pub proof fn refusals_name_task_and_worker(scheduler: SchedulerView, w: WorkerId, t: TaskId)
    ensures
        unknown_task(t) == ErrorView::Scheduler(
            "unknown task "@ + uuid_text::hyphenated_text(t.0),
        ),
        unknown_worker(w) == ErrorView::Scheduler(
            "unknown worker "@ + uuid_text::hyphenated_text(w.0),
        ),
        task_exists(t) == ErrorView::Scheduler(
            "task "@ + uuid_text::hyphenated_text(t.0) + " already exists"@,
        ),
        not_leased(t, w) == ErrorView::Scheduler(
            "task "@ + uuid_text::hyphenated_text(t.0) + " is not leased to worker "@
                + uuid_text::hyphenated_text(w.0),
        ),
        not_owned(t, w) == ErrorView::Scheduler(
            "task "@ + uuid_text::hyphenated_text(t.0) + " is not owned by worker "@
                + uuid_text::hyphenated_text(w.0),
        ),
        scheduler.disowned(w, t) == if scheduler.tasks.contains_key(t.0) {
            not_owned(t, w)
        } else {
            unknown_task(t)
        },
{
}

/// The contents of lists stand in the order of the lists, and those of states and reports are those
/// of their fields.
pub proof fn contents_stand_in_order(
    tasks: Seq<TaskId>,
    workers: Seq<WorkerId>,
    specs: Seq<TaskSpec>,
    report: Seq<WorkerExpiry>,
    record: TaskRecord,
    i: int,
)
    ensures
        task_numbers(tasks).len() == tasks.len(),
        0 <= i < tasks.len() ==> task_numbers(tasks)[i] == tasks[i].0,
        worker_numbers(workers).len() == workers.len(),
        0 <= i < workers.len() ==> worker_numbers(workers)[i] == workers[i].0,
        spec_views(specs).len() == specs.len(),
        0 <= i < specs.len() ==> spec_views(specs)[i] == specs[i]@,
        expiry_views(report).len() == report.len(),
        0 <= i < report.len() ==> {
            &&& expiry_views(report)[i].worker_id == report[i].worker_id.0
            &&& expiry_views(report)[i].retried_tasks == task_numbers(report[i].retried_tasks@)
            &&& expiry_views(report)[i].failed_tasks == task_numbers(report[i].failed_tasks@)
        },
        record@.spec == record.spec@,
        match record.state {
            TaskState::Pending => record@.state == TaskStateView::Pending,
            TaskState::Ready => record@.state == TaskStateView::Ready,
            TaskState::Leased(w) => record@.state == TaskStateView::Leased(w.0),
            TaskState::Running(w) => record@.state == TaskStateView::Running(w.0),
            TaskState::Finished => record@.state == TaskStateView::Finished,
            TaskState::Failed(error) => record@.state == TaskStateView::Failed(error@),
        },
{
}

} // verus!
