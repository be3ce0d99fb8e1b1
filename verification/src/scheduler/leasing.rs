//! Who gets which tasks when a worker asks for some: how many, in which order, and from whom.
use super::laws;
use super::model::{self, Pick, SchedulerView, TaskStateView};
use crate::task::TaskSpecView;
use vstd::prelude::*;

verus! {

/// Whether `x` stands somewhere before `y` in a sequence.
pub open spec fn precedes(s: Seq<u128>, x: u128, y: u128) -> bool {
    exists|i: int, j: int| 0 <= i < j < s.len() && #[trigger] s[i] == x && #[trigger] s[j] == y
}

/// What remains of a sequence stands in the same order as before.
proof fn lemma_filter_precedes(s: Seq<u128>, p: spec_fn(u128) -> bool, a: int, b: int)
    requires
        0 <= a < b < s.filter(p).len(),
    ensures
        precedes(s, s.filter(p)[a], s.filter(p)[b]),
    decreases s.len(),
{
    reveal(Seq::filter);
    let init = s.drop_last();
    let kept = init.filter(p);
    let x = s.filter(p)[a];
    let y = s.filter(p)[b];
    if b < kept.len() {
        lemma_filter_precedes(init, p, a, b);
        let (i, j) = choose|i: int, j: int|
            0 <= i < j < init.len() && #[trigger] init[i] == x && #[trigger] init[j] == y;
        assert(s[i] == x && s[j] == y);
    } else {
        model::lemma_filter(init, p);
        assert(kept.contains(kept[a]));
        assert(init.contains(x));
        let i = choose|i: int| 0 <= i < init.len() && init[i] == x;
        assert(s[i] == x && s[s.len() - 1] == y);
    }
}

/// An element that remains, but neither at a place of what remains nor before it, comes after the
/// element at that place in the whole sequence too.
proof fn lemma_first_kept(s: Seq<u128>, p: spec_fn(u128) -> bool, a: int, x: u128)
    requires
        s.no_duplicates(),
        0 <= a < s.filter(p).len(),
        s.contains(x),
        p(x),
        x != s.filter(p)[a],
        forall|b: int| 0 <= b < a ==> #[trigger] s.filter(p)[b] != x,
    ensures
        precedes(s, s.filter(p)[a], x),
{
    model::lemma_filter(s, p);
    let kept = s.filter(p);
    assert(kept.contains(x));
    let b = choose|b: int| 0 <= b < kept.len() && kept[b] == x;
    lemma_filter_precedes(s, p, a, b);
}

impl SchedulerView {
    /// In which order a row of picks hands tasks out.
    proof fn lemma_picks_order(self, w: u128, picks: Seq<Pick>)
        requires
            self.wf(),
            self.workers.contains_key(w),
            self.allows_picks(w, picks),
        ensures
            ({
                let ids = laws::tasks_of(self.picked_specs(w, picks));
                &&& forall|i: int, x: u128|
                    0 <= i < ids.len() && self.ready.contains(x) && self.can_run(x, w)
                        && !ids.contains(x) ==> #[trigger] precedes(self.ready, ids[i], x)
                &&& forall|i: int, j: int|
                    #![trigger ids[i], ids[j]]
                    0 <= i < j < ids.len() && self.ready.contains(ids[j]) ==> precedes(
                        self.ready,
                        ids[i],
                        ids[j],
                    )
            }),
        decreases picks.len(),
    {
        if picks.len() > 0 {
            let init = picks.drop_last();
            let pick = picks.last();
            let mid = self.after_picks(w, init);
            let before = laws::tasks_of(self.picked_specs(w, init));
            let ids = laws::tasks_of(self.picked_specs(w, picks));
            self.lemma_picks_order(w, init);
            self.lemma_picks_give(w, init);
            self.lemma_picks_give(w, picks);
            mid.lemma_pick_wf(w, pick);
            mid.lemma_pick_gives(w, pick);
            let t = mid.picked(pick);
            let n = before.len() as int;
            assert(ids =~= before.push(t));
            assert(ids[n] == t);
            assert(!before.contains(t)) by {
                if before.contains(t) {
                    let i = choose|i: int| 0 <= i < before.len() && before[i] == t;
                    assert(ids[i] == ids[n]);
                }
            }
            let out = model::outside(before);
            model::lemma_filter(self.ready, out);
            assert(mid.ready == self.ready.filter(out));
            assert(self.tasks.contains_key(t));
            assert(mid.tasks[t] == self.tasks[t]);
            assert forall|x: u128|
                self.ready.contains(x) && self.can_run(x, w) && !ids.contains(
                    x,
                ) implies #[trigger] precedes(self.ready, t, x) by {
                assert(!before.contains(x)) by {
                    if before.contains(x) {
                        let i = choose|i: int| 0 <= i < before.len() && before[i] == x;
                        assert(ids[i] == x);
                    }
                }
                assert(ids.contains(t));
                assert(mid.ready.contains(x));
                assert(mid.tasks[x] == self.tasks[x]);
                let b = choose|b: int| 0 <= b < mid.ready.len() && mid.ready[b] == x;
                assert(mid.can_run(mid.ready[b], w));
                match pick {
                    Pick::Queued(a) => {
                        assert forall|c: int| 0 <= c < a implies #[trigger] mid.ready[c] != x by {
                            assert(!mid.can_run(mid.ready[c], w));
                        }
                        lemma_first_kept(self.ready, out, a, x);
                    },
                    Pick::Stolen(_, _) => {},
                }
            }
            assert forall|i: int, x: u128|
                0 <= i < ids.len() && self.ready.contains(x) && self.can_run(x, w) && !ids.contains(
                    x,
                ) implies #[trigger] precedes(self.ready, ids[i], x) by {
                if i < n {
                    assert(!before.contains(x)) by {
                        if before.contains(x) {
                            let l = choose|l: int| 0 <= l < before.len() && before[l] == x;
                            assert(ids[l] == x);
                        }
                    }
                    assert(precedes(self.ready, before[i], x));
                }
            }
            assert forall|i: int, j: int|
                #![trigger ids[i], ids[j]]
                0 <= i < j < ids.len() && self.ready.contains(ids[j]) implies precedes(
                self.ready,
                ids[i],
                ids[j],
            ) by {
                if j < n {
                    assert(ids[i] == before[i] && ids[j] == before[j]);
                } else {
                    assert(self.can_run(t, w));
                    assert(precedes(self.ready, before[i], t));
                }
            }
        }
    }

    /// A worker gets tasks first come, first served. Of the tasks in the queue that it may run it
    /// gets those in front, in order; and it gets a task of another worker only after all of them.
    pub proof fn leasing_is_first_come_first_served(
        self,
        w: u128,
        capacity: nat,
        assigned: Seq<TaskSpecView>,
        post: SchedulerView,
        i: int,
        j: int,
        x: u128,
    )
        requires
            self.wf(),
            self.workers.contains_key(w),
            self.leases(w, capacity, assigned, post),
            0 <= i < assigned.len(),
        ensures
            i < j < assigned.len() && self.ready.contains(assigned[j].task_id) ==> precedes(
                self.ready,
                assigned[i].task_id,
                assigned[j].task_id,
            ),
            self.ready.contains(x) && (self.tasks[x].spec.target_worker is None
                || self.tasks[x].spec.target_worker == Some(w)) ==> precedes(
                self.ready,
                assigned[i].task_id,
                x,
            ) || exists|k: int| 0 <= k < assigned.len() && (#[trigger] assigned[k]).task_id == x,
    {
        let picks = choose|picks: Seq<Pick>| self.leases_by(w, capacity, picks, assigned, post);
        self.lemma_picks_order(w, picks);
        let ids = laws::tasks_of(assigned);
        assert(ids[i] == assigned[i].task_id);
        if i < j < assigned.len() {
            assert(ids[j] == assigned[j].task_id);
        }
        if self.ready.contains(x) && (self.tasks[x].spec.target_worker is None
            || self.tasks[x].spec.target_worker == Some(w)) {
            assert(self.can_run(x, w));
            if ids.contains(x) {
                let k = choose|k: int| 0 <= k < ids.len() && ids[k] == x;
                assert(assigned[k].task_id == x);
            } else {
                assert(precedes(self.ready, ids[i], x));
            }
        }
    }

    /// A worker is never given more than it asks for; one that holds tasks is never given more than
    /// it has free slots. Where it is given less, nothing is left that it could have: every task in
    /// the queue is pinned to another worker, and either no other worker holds several tasks, or one
    /// of those that hold the most has none which the worker may run and which has not been started.
    pub proof fn leasing_fills_up_what_is_free(
        self,
        w: u128,
        capacity: nat,
        assigned: Seq<TaskSpecView>,
        post: SchedulerView,
        k: int,
    )
        requires
            self.wf(),
            self.workers.contains_key(w),
            self.leases(w, capacity, assigned, post),
        ensures
            ({
                let held = self.workers[w].leased.len();
                let slots = self.workers[w].slots;
                let n = assigned.len();
                let rich = |v: u128| post.workers.contains_key(v) && v != w
                    && post.workers[v].leased.len() > 1;
                &&& n <= capacity
                &&& held > 0 && n > 0 ==> held + n <= slots
                &&& n < capacity && (held == 0 || held + n < slots) ==> {
                    &&& 0 <= k < post.ready.len() ==> (
                    post.tasks[post.ready[k]].spec.target_worker matches Some(u) && u != w)
                    &&& {
                        ||| forall|v: u128|
                            #[trigger] post.workers.contains_key(v) && v != w
                                ==> post.workers[v].leased.len() <= 1
                        ||| exists|v: u128| #[trigger]
                            rich(v) && (forall|u: u128| #[trigger]
                                rich(u) ==> post.workers[u].leased.len()
                                    <= post.workers[v].leased.len()) && forall|j: int|
                                0 <= j < post.workers[v].leased.len() ==> {
                                    let task = post.tasks[#[trigger] post.workers[v].leased[j]];
                                    ||| !(task.state is Leased)
                                    ||| (task.spec.target_worker matches Some(u) && u != w)
                                }
                    }
                }
            }),
    {
        let picks = choose|picks: Seq<Pick>| self.leases_by(w, capacity, picks, assigned, post);
        self.lemma_picks_give(w, picks);
        let held = self.workers[w].leased.len();
        let n = assigned.len();
        let rich = |v: u128| post.workers.contains_key(v) && v != w && post.workers[v].leased.len()
            > 1;
        assert forall|v: u128| #[trigger] rich(v) == post.may_lose(w, v) by {}
        if n < capacity && (held == 0 || held + n < self.workers[w].slots) {
            assert(post.allows_nothing(w));
            if 0 <= k < post.ready.len() {
                assert(!post.can_run(post.ready[k], w));
                assert(post.ready.contains(post.ready[k]));
            }
            if forall|v: u128| !#[trigger] post.may_lose(w, v) {
                assert forall|v: u128| #[trigger] post.workers.contains_key(v) && v
                    != w implies post.workers[v].leased.len() <= 1 by {
                    assert(!post.may_lose(w, v));
                }
            } else {
                let v = choose|v: u128| #[trigger]
                    post.busiest(w, v) && forall|j: int|
                        0 <= j < post.workers[v].leased.len() ==> !post.stealable(
                            #[trigger] post.workers[v].leased[j],
                            w,
                        );
                assert(rich(v));
                assert forall|u: u128| #[trigger] rich(u) implies post.workers[u].leased.len()
                    <= post.workers[v].leased.len() by {
                    assert(post.may_lose(w, u));
                }
                assert forall|j: int| 0 <= j < post.workers[v].leased.len() implies {
                    let task = post.tasks[#[trigger] post.workers[v].leased[j]];
                    ||| !(task.state is Leased)
                    ||| (task.spec.target_worker matches Some(u) && u != w)
                } by {
                    let t = post.workers[v].leased[j];
                    assert(post.workers[v].leased.contains(t));
                    assert(!post.stealable(t, w));
                }
            }
        }
    }

    /// What a worker is given are tasks as they were described, each once, that wait in the queue or
    /// that another worker holds and has not started, and that are pinned to no other worker. They
    /// are leased to the worker now, and listed with it behind what it held. All other tasks, and
    /// all that the others hold, stay as they were.
    pub proof fn leasing_passes_tasks_on(
        self,
        w: u128,
        capacity: nat,
        assigned: Seq<TaskSpecView>,
        post: SchedulerView,
        i: int,
        t: u128,
        v: u128,
    )
        requires
            self.wf(),
            self.workers.contains_key(w),
            self.leases(w, capacity, assigned, post),
        ensures
            ({
                let ids = assigned.map_values(|spec: TaskSpecView| spec.task_id);
                &&& ids.no_duplicates()
                &&& 0 <= i < assigned.len() ==> {
                    let x = assigned[i].task_id;
                    &&& self.tasks.contains_key(x)
                    &&& assigned[i] == self.tasks[x].spec
                    &&& assigned[i].target_worker is None || assigned[i].target_worker == Some(w)
                    &&& self.ready.contains(x) || (self.tasks[x].state matches TaskStateView::Leased(
                        u,
                    ) && u != w)
                    &&& post.tasks[x].state == TaskStateView::Leased(w)
                }
                &&& post.tasks.contains_key(t) == self.tasks.contains_key(t)
                &&& self.tasks.contains_key(t) ==> post.tasks[t].spec == self.tasks[t].spec
                &&& self.tasks.contains_key(t) && !ids.contains(t) ==> post.tasks[t].state
                    == self.tasks[t].state
                &&& post.ready == self.ready.filter(|x: u128| !ids.contains(x))
                &&& post.workers.contains_key(v) == self.workers.contains_key(v)
                &&& self.workers.contains_key(v) ==> {
                    &&& post.workers[v].slots == self.workers[v].slots
                    &&& post.workers[v].last_heartbeat == self.workers[v].last_heartbeat
                    &&& v == w ==> post.workers[v].leased == self.workers[v].leased + ids
                    &&& v != w ==> post.workers[v].leased == self.workers[v].leased.filter(
                        |x: u128| !ids.contains(x),
                    )
                }
                &&& post.known_objects == self.known_objects
                &&& post.heartbeat_timeout == self.heartbeat_timeout
            }),
    {
        self.leasing_gives(w, capacity, assigned, post);
        let ids = assigned.map_values(|spec: TaskSpecView| spec.task_id);
        assert(ids =~= laws::tasks_of(assigned));
        let kept = |x: u128| !ids.contains(x);
        super::effects::lemma_filter_same(self.ready, model::outside(ids), kept);
        super::effects::lemma_filter_same(self.workers[v].leased, model::outside(ids), kept);
        if 0 <= i < assigned.len() {
            let x = assigned[i].task_id;
            assert(ids[i] == x);
            assert(self.available_to(w, x));
        }
    }

    /// What a row of picks takes from whom.
    proof fn lemma_picks_level(self, w: u128, picks: Seq<Pick>, u: u128, v: u128)
        requires
            self.wf(),
            self.workers.contains_key(w),
            self.allows_picks(w, picks),
            self.workers.contains_key(u),
            self.workers.contains_key(v),
            u != w,
            v != w,
        ensures
            ({
                let post = self.after_picks(w, picks);
                let before = self.workers[v].leased.len();
                let after = post.workers[v].leased.len();
                &&& after <= before
                &&& after < before ==> after >= 1
                &&& after < before ==> post.workers[u].leased.len() <= after + 1
            }),
        decreases picks.len(),
    {
        if picks.len() > 0 {
            let init = picks.drop_last();
            let pick = picks.last();
            let mid = self.after_picks(w, init);
            self.lemma_picks_level(w, init, u, v);
            self.lemma_picks_level(w, init, v, u);
            self.lemma_picks_give(w, init);
            mid.lemma_pick_wf(w, pick);
            if let Pick::Stolen(victim, j) = pick {
                assert(mid.busiest(w, victim));
                assert(mid.workers.contains_key(u) && mid.workers.contains_key(v));
                assert(mid.may_lose(w, u) || mid.workers[u].leased.len() <= 1);
            }
        }
    }

    /// What a row of picks takes first.
    proof fn lemma_picks_take_first(self, w: u128, picks: Seq<Pick>, v: u128, a: int, b: int)
        requires
            self.wf(),
            self.workers.contains_key(w),
            self.allows_picks(w, picks),
            self.workers.contains_key(v),
            v != w,
            0 <= a < b < self.workers[v].leased.len(),
            self.stealable(self.workers[v].leased[a], w),
        ensures
            ({
                let ids = laws::tasks_of(self.picked_specs(w, picks));
                ids.contains(self.workers[v].leased[b]) ==> ids.contains(self.workers[v].leased[a])
            }),
        decreases picks.len(),
    {
        if picks.len() > 0 {
            let init = picks.drop_last();
            let pick = picks.last();
            let mid = self.after_picks(w, init);
            let before = laws::tasks_of(self.picked_specs(w, init));
            let ids = laws::tasks_of(self.picked_specs(w, picks));
            self.lemma_picks_take_first(w, init, v, a, b);
            self.lemma_picks_give(w, init);
            mid.lemma_pick_wf(w, pick);
            mid.lemma_pick_gives(w, pick);
            let t = mid.picked(pick);
            assert(ids =~= before.push(t));
            let leased = self.workers[v].leased;
            let x = leased[a];
            let y = leased[b];
            assert(leased.contains(x) && leased.contains(y));
            assert forall|z: u128| #[trigger] ids.contains(z) <==> before.contains(z) || z == t by {
                if before.contains(z) {
                    let i = choose|i: int| 0 <= i < before.len() && before[i] == z;
                    assert(ids[i] == z);
                }
                assert(ids[before.len() as int] == t);
            }
            if ids.contains(y) && !before.contains(y) && !before.contains(x) {
                assert(y == t);
                let out = model::outside(before);
                model::lemma_filter(leased, out);
                assert(mid.workers[v].leased == leased.filter(out));
                assert(mid.workers[v].leased.contains(y));
                assert(mid.tasks[y].state.owned_by(v));
                match pick {
                    Pick::Queued(i) => {
                        assert(mid.ready.contains(mid.ready[i]));
                    },
                    Pick::Stolen(victim, j) => {
                        assert(mid.workers[victim].leased.contains(y));
                        assert(victim == v);
                        assert(mid.workers[v].leased.contains(x));
                        assert(mid.tasks[x] == self.tasks[x]);
                        assert forall|c: int| 0 <= c < j implies #[trigger] leased.filter(out)[c]
                            != x by {
                            assert(!mid.stealable(mid.workers[v].leased[c], w));
                        }
                        lemma_first_kept(leased, out, j, x);
                        let (i, k) = choose|i: int, k: int|
                            0 <= i < k < leased.len() && #[trigger] leased[i] == y
                                && #[trigger] leased[k] == x;
                        assert(i == b && k == a);
                    },
                }
            }
        }
    }

    /// A worker takes over tasks from those who hold the most, and from nobody the last one: a worker
    /// that loses tasks keeps at least one, and no other worker is left with more than one task more
    /// than it. Of one worker's tasks, the first that may be taken is taken first.
    pub proof fn the_busiest_lose_tasks_first(
        self,
        w: u128,
        capacity: nat,
        assigned: Seq<TaskSpecView>,
        post: SchedulerView,
        u: u128,
        v: u128,
        a: int,
        b: int,
    )
        requires
            self.wf(),
            self.workers.contains_key(w),
            self.leases(w, capacity, assigned, post),
            self.workers.contains_key(u),
            self.workers.contains_key(v),
            u != w,
            v != w,
        ensures
            post.workers[v].leased.len() <= self.workers[v].leased.len(),
            post.workers[v].leased.len() < self.workers[v].leased.len() ==> {
                &&& post.workers[v].leased.len() >= 1
                &&& post.workers[u].leased.len() <= post.workers[v].leased.len() + 1
            },
            ({
                let x = self.workers[v].leased[a];
                let y = self.workers[v].leased[b];
                let ids = assigned.map_values(|spec: TaskSpecView| spec.task_id);
                &&& 0 <= a < b < self.workers[v].leased.len()
                &&& ids.contains(y)
                &&& self.tasks[x].state == TaskStateView::Leased(v)
                &&& self.tasks[x].spec.target_worker is None || self.tasks[x].spec.target_worker
                    == Some(w)
            } ==> assigned.map_values(|spec: TaskSpecView| spec.task_id).contains(
                self.workers[v].leased[a],
            )),
    {
        let picks = choose|picks: Seq<Pick>| self.leases_by(w, capacity, picks, assigned, post);
        self.lemma_picks_level(w, picks, u, v);
        let ids = assigned.map_values(|spec: TaskSpecView| spec.task_id);
        assert(ids =~= laws::tasks_of(assigned));
        let leased = self.workers[v].leased;
        if 0 <= a < b < leased.len() && self.tasks[leased[a]].state == TaskStateView::Leased(v) && (
        self.tasks[leased[a]].spec.target_worker is None
            || self.tasks[leased[a]].spec.target_worker == Some(w)) {
            assert(leased.contains(leased[a]));
            self.lemma_picks_take_first(w, picks, v, a, b);
        }
    }
}

} // verus!
