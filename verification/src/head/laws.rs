//! What holds of the head node as a whole.
use super::model::{self, ActorTaskView, HeadView};
use crate::messages::{
    self, Code, CompleteTaskRequest, CreateActorRequest, FailTaskRequest, LeaseView,
    PollTaskRequest, RegisterWorkerRequest, StatusView, SubmitActorTaskRequest, SubmitTaskRequest,
};
use crate::scheduler::model::{ExpiryView, SchedulerView, TaskStateView};
use crate::task::TaskSpecView;
use crate::uuid_text;
use crate::worker;
use std::time::{Duration, Instant};
use vstd::prelude::*;

verus! {

/// The text of an identifier is read as that identifier.
pub proof fn texts_name_their_identifiers(id: u128)
    ensures
        model::read_id(model::id_text(id)) == Ok::<u128, StatusView>(id),
{
    uuid_text::text_reads_back(id);
}

/// The texts of a list of identifiers are read as these identifiers, in the same order.
pub proof fn lists_of_texts_name_their_identifiers(ids: Seq<u128>)
    ensures
        model::read_ids(model::id_texts(ids)) == Ok::<Seq<u128>, StatusView>(ids),
    decreases ids.len(),
{
    let texts = model::id_texts(ids);
    if ids.len() == 0 {
        assert(texts.len() == 0);
        assert(ids =~= Seq::<u128>::empty());
    } else {
        let init = ids.drop_last();
        lists_of_texts_name_their_identifiers(init);
        assert(texts.drop_last() =~= model::id_texts(init));
        texts_name_their_identifiers(ids.last());
        assert(init.push(ids.last()) =~= ids);
    }
}

/// A text that names no identifier is refused as an invalid argument.
pub proof fn unreadable_texts_are_invalid_arguments(text: Seq<char>)
    requires
        uuid_text::read_uuid(text) is None,
    ensures
        model::read_id(text) matches Err(status) && status.code == Code::InvalidArgument,
{
}

/// What a worker is told of a task names the task and its output; and it tells a call of an actor
/// from a plain task.
pub proof fn leases_name_their_tasks(spec: TaskSpecView, call: Option<ActorTaskView>)
    ensures
        model::read_id(model::lease_of(spec, call).task_id) == Ok::<u128, StatusView>(spec.task_id),
        model::read_id(model::lease_of(spec, call).output_id) == Ok::<u128, StatusView>(
            spec.output_id,
        ),
        model::lease_of(spec, call).actor_id.len() > 0 <==> call is Some,
        call matches Some(call) ==> model::read_id(model::lease_of(spec, Some(call)).actor_id)
            == Ok::<u128, StatusView>(call.actor_id),
{
    texts_name_their_identifiers(spec.task_id);
    texts_name_their_identifiers(spec.output_id);
    if let Some(call) = call {
        texts_name_their_identifiers(call.actor_id);
        assert(model::id_text(call.actor_id).len() == 36);
    }
}

impl HeadView {
    /// What was put is what is got, by whatever text names the object; other objects stay as they
    /// were.
    pub proof fn get_after_put(
        self,
        id: u128,
        data: Seq<u8>,
        post: HeadView,
        text: Seq<char>,
        other: Seq<char>,
    )
        requires
            self.puts(id, data, post),
            model::read_id(text) == Ok::<u128, StatusView>(id),
            model::read_id(other) != Ok::<u128, StatusView>(id),
        ensures
            post.object(text) == Ok::<(Seq<char>, Seq<u8>), StatusView>((model::id_text(id), data)),
            post.object(other) == self.object(other),
    {
    }

    /// Asking for an object that was never put is answered with "not found".
    pub proof fn missing_objects_are_not_found(self, text: Seq<char>, id: u128)
        requires
            model::read_id(text) == Ok::<u128, StatusView>(id),
            !self.objects.contains_key(id),
        ensures
            self.object(text) matches Err(status) && status.code == Code::NotFound,
    {
    }

    /// The result that the worker which has a task reports is stored under the task's output, and
    /// the task is finished.
    pub proof fn reports_are_taken(
        self,
        w: u128,
        spec: TaskSpecView,
        call: Option<ActorTaskView>,
        request: CompleteTaskRequest,
        post: HeadView,
        r: Result<(), StatusView>,
    )
        requires
            self.scheduler.owns(w, spec.task_id),
            request.worker_id@ == model::id_text(w),
            request.task_id@ == model::lease_of(spec, call).task_id,
            request.output_id@ == model::lease_of(spec, call).output_id,
            self.completes(request, post, r),
        ensures
            r is Ok,
            post.object(model::id_text(spec.output_id)) == Ok::<(Seq<char>, Seq<u8>), StatusView>(
                (model::id_text(spec.output_id), request.data@),
            ),
            post.scheduler.tasks[spec.task_id].state is Finished,
            post.scheduler.known_objects.contains(spec.output_id),
    {
        leases_name_their_tasks(spec, call);
        texts_name_their_identifiers(w);
        let mid = self.scheduler.after_release(w, spec.task_id).with_state(
            spec.task_id,
            TaskStateView::Finished,
        );
        assert(!mid.freed_by(spec.output_id, spec.task_id));
    }

    /// A report on a task by a worker that does not have it is refused and changes nothing; in
    /// particular nothing is stored.
    pub proof fn reports_by_others_are_refused(
        self,
        w: u128,
        t: u128,
        request: CompleteTaskRequest,
        post: HeadView,
        r: Result<(), StatusView>,
    )
        requires
            model::read_id(request.worker_id@) == Ok::<u128, StatusView>(w),
            model::read_id(request.task_id@) == Ok::<u128, StatusView>(t),
            model::read_id(request.output_id@) is Ok,
            !self.scheduler.owns(w, t),
            self.completes(request, post, r),
        ensures
            post == self,
            r matches Err(status) && status.code == Code::FailedPrecondition,
    {
    }

    /// A call of an actor that does not exist is refused as "not found", and changes nothing.
    pub proof fn calls_of_unknown_actors_are_refused(
        self,
        request: SubmitActorTaskRequest,
        task: u128,
        a: u128,
    )
        requires
            model::read_id(request.actor_id@) == Ok::<u128, StatusView>(a),
            !self.actors.contains_key(a),
        ensures
            self.after_submit_actor_task(request, task).0 == self,
            self.after_submit_actor_task(request, task).1 matches Err(status) && status.code
                == Code::NotFound,
    {
    }

    /// A call of an actor that lives with a worker is pinned to that worker.
    pub proof fn calls_go_where_the_actor_lives(
        self,
        request: SubmitActorTaskRequest,
        task: u128,
        a: u128,
        w: u128,
    )
        requires
            self.wf(),
            model::read_id(request.actor_id@) == Ok::<u128, StatusView>(a),
            self.actors.contains_key(a),
            self.actors[a].owner_worker == Some(w),
            self.after_submit_actor_task(request, task).1 is Ok,
        ensures
            self.after_submit_actor_task(request, task).0.scheduler.tasks[task].spec.target_worker
                == Some(w),
    {
    }

    /// An actor that lives with no worker moves to the worker that is first given a call of it, and
    /// one that lives with a worker stays there.
    pub proof fn actors_move_to_who_gets_their_calls(
        self,
        tasks: Seq<TaskSpecView>,
        w: u128,
        a: u128,
        i: int,
    )
        requires
            self.actors.contains_key(a),
            0 <= i < tasks.len(),
            self.call_of(tasks[i].task_id) matches Some(call) && call.actor_id == a,
        ensures
            self.after_claims(tasks, w).actors[a].owner_worker == Some(
                match self.actors[a].owner_worker {
                    Some(owner) => owner,
                    None => w,
                },
            ),
    {
        assert(self.calls(tasks, a));
    }

    /// When a worker has been taken out, no actor lives with it, so that the next call of its actors
    /// may go to any worker.
    pub proof fn removal_releases_actors(self, w: u128, reason: Seq<char>, a: u128)
        requires
            self.wf(),
            self.actors.contains_key(a),
        ensures
            self.after_remove_worker(w, reason).actors.contains_key(a),
            self.after_remove_worker(w, reason).actors[a].owner_worker != Some(w),
            self.actors[a].owner_worker != Some(w) ==> self.after_remove_worker(w, reason).actors[a]
                == self.actors[a],
    {
        assert(seq![w][0] == w);
        assert(seq![w].contains(w));
    }
}

impl HeadView {
    /// Whether every object that counts as available is stored.
    pub open spec fn stocked(self) -> bool {
        forall|o: u128| #[trigger]
            self.scheduler.known_objects.contains(o) ==> self.objects.contains_key(o)
    }

    /// Whether every call of an actor is a task, and agrees with the actor that it calls.
    pub open spec fn calls_wf(self) -> bool {
        forall|t: u128| #[trigger]
            self.actor_tasks.contains_key(t) ==> {
                let call = self.actor_tasks[t];
                &&& self.scheduler.tasks.contains_key(t)
                &&& self.actors.contains_key(call.actor_id)
                &&& self.actors[call.actor_id].spec.constructor_dependencies
                    == call.constructor_dependencies
            }
    }

    /// Whether a call of an actor waits for the objects that it takes, and for those that the
    /// actor's constructor takes as long as they are not available.
    pub open spec fn waits_wf(self) -> bool {
        forall|t: u128, o: u128|
            self.actor_tasks.contains_key(t) && #[trigger] self.needs(t, o)
                ==> self.scheduler.tasks[t].spec.dependencies.contains(o)
                || self.scheduler.known_objects.contains(o)
    }

    /// Whether call `t` takes object `o`, or the constructor of the actor that it calls does.
    pub open spec fn needs(self, t: u128, o: u128) -> bool {
        self.actor_tasks[t].dependencies.contains(o)
            || self.actor_tasks[t].constructor_dependencies.contains(o)
    }

    /// Whether the objects that the constructors of actors take are available once the actors live
    /// with a worker.
    pub open spec fn homes_supplied(self) -> bool {
        forall|a: u128, o: u128|
            self.actors.contains_key(a) && self.actors[a].owner_worker is Some
                && #[trigger] self.actors[a].spec.constructor_dependencies.contains(o)
                ==> self.scheduler.known_objects.contains(o)
    }

    /// Whether a head node is such that a worker can fetch all that it is told to.
    pub open spec fn settled(self) -> bool {
        &&& self.wf()
        &&& self.stocked()
        &&& self.calls_wf()
        &&& self.waits_wf()
        &&& self.homes_supplied()
    }

    /// An empty head node is settled.
    pub proof fn empty_is_settled(timeout: Duration)
        ensures
            HeadView::empty(timeout).settled(),
    {
    }

    /// A head node stays settled when its scheduler moves on without a new task, and its objects
    /// grow along.
    proof fn lemma_moves_on(self, post: HeadView)
        requires
            self.settled(),
            post.wf(),
            post.stocked(),
            post.actor_tasks == self.actor_tasks,
            post.actors.dom() == self.actors.dom(),
            forall|a: u128| #[trigger]
                self.actors.contains_key(a) ==> {
                    &&& post.actors[a].spec == self.actors[a].spec
                    &&& post.actors[a].owner_worker is Some ==> self.actors[a].owner_worker is Some
                },
            self.scheduler.evolves(post.scheduler),
        ensures
            post.settled(),
    {
        assert forall|t: u128, o: u128|
            post.actor_tasks.contains_key(t) && #[trigger] post.needs(
                t,
                o,
            ) implies post.scheduler.tasks[t].spec.dependencies.contains(o)
            || post.scheduler.known_objects.contains(o) by {
            assert(self.needs(t, o));
            assert(self.scheduler.tasks.contains_key(t));
        }
        assert forall|a: u128, o: u128|
            post.actors.contains_key(a) && post.actors[a].owner_worker is Some
                && #[trigger] post.actors[a].spec.constructor_dependencies.contains(
                o,
            ) implies post.scheduler.known_objects.contains(o) by {
            assert(self.actors[a].spec.constructor_dependencies.contains(o));
        }
    }

    /// A head node stays settled when an object is put.
    pub proof fn puts_settle(self, id: u128, data: Seq<u8>, post: HeadView)
        requires
            self.settled(),
            self.puts(id, data, post),
        ensures
            post.settled(),
    {
        self.scheduler.lemma_object_wf(id, post.scheduler);
        self.scheduler.availability_evolves(id, post.scheduler);
        assert(post.homes_wf());
        self.lemma_moves_on(post);
    }

    /// A head node stays settled when a task is submitted, under an identifier that is not taken or
    /// not.
    pub proof fn submissions_settle(self, request: SubmitTaskRequest, task: u128)
        requires
            self.settled(),
        ensures
            self.after_submit_task(request, task).0.settled(),
    {
        let post = self.after_submit_task(request, task).0;
        if post != self {
            let dependencies = model::read_ids(messages::texts(request.dependencies@))->Ok_0;
            let output = model::read_id(request.output_id@)->Ok_0;
            let spec = model::submitted_task(request, dependencies, output, task);
            self.scheduler.lemma_submit_wf(spec);
            self.scheduler.submission_evolves(spec);
            self.lemma_moves_on(post);
        }
    }

    /// A head node stays settled when an actor is created under an identifier that is not taken.
    pub proof fn creations_settle(self, request: CreateActorRequest)
        requires
            self.settled(),
            model::read_id(request.actor_id@) matches Ok(a) ==> !self.actors.contains_key(a),
        ensures
            self.after_create_actor(request).0.settled(),
    {
        let post = self.after_create_actor(request).0;
        assert(post.actors_wf());
        assert forall|t: u128, o: u128|
            post.actor_tasks.contains_key(t) && #[trigger] post.needs(
                t,
                o,
            ) implies post.scheduler.tasks[t].spec.dependencies.contains(o)
            || post.scheduler.known_objects.contains(o) by {
            assert(self.needs(t, o));
        }
        assert forall|a: u128, o: u128|
            post.actors.contains_key(a) && post.actors[a].owner_worker is Some
                && #[trigger] post.actors[a].spec.constructor_dependencies.contains(
                o,
            ) implies post.scheduler.known_objects.contains(o) by {
            assert(self.actors[a].spec.constructor_dependencies.contains(o));
        }
    }

    /// A head node stays settled when a call of an actor is submitted under an identifier that is
    /// not taken.
    pub proof fn calls_settle(self, request: SubmitActorTaskRequest, task: u128)
        requires
            self.settled(),
            !self.scheduler.tasks.contains_key(task),
        ensures
            self.after_submit_actor_task(request, task).0.settled(),
    {
        let post = self.after_submit_actor_task(request, task).0;
        if post != self {
            let a = model::read_id(request.actor_id@)->Ok_0;
            let output = model::read_id(request.output_id@)->Ok_0;
            let dependencies = model::read_ids(messages::texts(request.dependencies@))->Ok_0;
            let spec = self.actor_call_task(a, request, dependencies, output, task);
            let call = self.actor_call(a, request.method_id@, dependencies);
            self.scheduler.lemma_submit_wf(spec);
            self.scheduler.submission_evolves(spec);
            assert(post.scheduler == self.scheduler.after_submit(spec));
            assert(post.scheduler.tasks[task].spec.dependencies == spec.dependencies);
            assert forall|t: u128, o: u128|
                post.actor_tasks.contains_key(t) && #[trigger] post.needs(
                    t,
                    o,
                ) implies post.scheduler.tasks[t].spec.dependencies.contains(o)
                || post.scheduler.known_objects.contains(o) by {
                if t == task {
                    let constructor = self.actors[a].spec.constructor_dependencies;
                    if self.actors[a].owner_worker is None {
                        crate::scheduler::model::lemma_concat_contains(dependencies, constructor, o);
                    } else {
                        assert(constructor.contains(o) ==> self.scheduler.known_objects.contains(o));
                    }
                } else {
                    assert(self.needs(t, o));
                    assert(self.scheduler.tasks.contains_key(t));
                }
            }
            assert forall|x: u128, o: u128|
                post.actors.contains_key(x) && post.actors[x].owner_worker is Some
                    && #[trigger] post.actors[x].spec.constructor_dependencies.contains(
                    o,
                ) implies post.scheduler.known_objects.contains(o) by {
                assert(self.actors[x].spec.constructor_dependencies.contains(o));
            }
        }
    }

    /// A head node stays settled when a worker registers.
    pub proof fn registrations_settle(self, request: RegisterWorkerRequest, now: Instant)
        requires
            self.settled(),
        ensures
            self.after_register_worker(request, now).0.settled(),
    {
        if let Ok(w) = model::read_id(request.worker_id@) {
            self.scheduler.registration_evolves(w, request.slots as nat, now);
            self.lemma_moves_on(self.after_register_worker(request, now).0);
        }
    }

    /// A head node stays settled when a worker gives a sign of life.
    pub proof fn heartbeats_settle(self, worker_id: Seq<char>, now: Instant)
        requires
            self.settled(),
        ensures
            self.after_heartbeat(worker_id, now).0.settled(),
    {
        if let Ok(w) = model::read_id(worker_id) {
            self.scheduler.heartbeat_evolves(w, now);
            self.lemma_moves_on(self.after_heartbeat(worker_id, now).0);
        }
    }

    /// A head node stays settled when a worker is taken out.
    pub proof fn removals_settle(self, worker_id: Seq<char>)
        requires
            self.settled(),
        ensures
            self.after_unregister_worker(worker_id).0.settled(),
    {
        let post = self.after_unregister_worker(worker_id).0;
        if post != self {
            let w = model::read_id(worker_id)->Ok_0;
            self.scheduler.lemma_remove_wf(w, "worker unregistered"@);
            self.scheduler.removal_evolves(w, "worker unregistered"@);
            assert(seq![w][0] == w);
            assert(seq![w].contains(w));
            assert(post.actors.dom() =~= self.actors.dom());
            assert(post.wf());
            self.lemma_moves_on(post);
        }
    }

    /// A head node stays settled when a failure is reported.
    pub proof fn failures_settle(self, request: FailTaskRequest)
        requires
            self.settled(),
        ensures
            self.after_fail_task(request).0.settled(),
    {
        let post = self.after_fail_task(request).0;
        if post != self {
            let w = model::read_id(request.worker_id@)->Ok_0;
            let t = model::read_id(request.task_id@)->Ok_0;
            self.scheduler.lemma_fail_wf(w, t, request.error@);
            self.scheduler.failure_evolves(w, t, request.error@);
            assert(post.homes_wf());
            self.lemma_moves_on(post);
        }
    }

    /// A head node stays settled when a result is reported.
    pub proof fn completions_settle(
        self,
        request: CompleteTaskRequest,
        post: HeadView,
        r: Result<(), StatusView>,
    )
        requires
            self.settled(),
            self.completes(request, post, r),
        ensures
            post.settled(),
    {
        if r is Ok {
            let w = model::read_id(request.worker_id@)->Ok_0;
            let t = model::read_id(request.task_id@)->Ok_0;
            let output = model::read_id(request.output_id@)->Ok_0;
            self.scheduler.lemma_finish_wf(w, t);
            let mid = self.scheduler.after_release(w, t).with_state(t, TaskStateView::Finished);
            mid.lemma_object_wf(output, post.scheduler);
            self.scheduler.completion_evolves(w, t, output, post.scheduler);
            assert(post.homes_wf());
            self.lemma_moves_on(post);
        }
    }

    /// A head node stays settled when it gives up on silent workers.
    pub proof fn cleanups_settle(self, now: Instant, report: Seq<ExpiryView>, post: HeadView)
        requires
            self.settled(),
            self.cleans_up(now, report, post),
        ensures
            post.settled(),
    {
        let gone = model::reported(report);
        self.scheduler.expiry_evolves(now, report, post.scheduler);
        self.scheduler.lemma_removals(gone, "worker heartbeat expired"@);
        self.scheduler.lemma_removals_workers(gone, "worker heartbeat expired"@);
        assert(post.actors.dom() =~= self.actors.dom());
        assert(post.homes_wf()) by {
            assert forall|a: u128| #[trigger] post.actors.contains_key(
                a,
            ) implies match post.actors[a].owner_worker {
                Some(w) => post.scheduler.workers.contains_key(w),
                None => true,
            } by {
                assert(self.actors.contains_key(a));
            }
        }
        self.lemma_moves_on(post);
    }
}

impl HeadView {
    /// All that a task which is handed out takes is available.
    proof fn lemma_given_task(self, w: u128, given: Seq<TaskSpecView>, post: SchedulerView, i: int)
        requires
            self.settled(),
            self.scheduler.gives(w, given, post),
            0 <= i < given.len(),
        ensures
            self.scheduler.all_known(given[i].dependencies),
            self.actor_tasks.contains_key(given[i].task_id) ==> forall|o: u128| #[trigger]
                self.needs(given[i].task_id, o) ==> self.scheduler.known_objects.contains(o),
    {
        let t = given[i].task_id;
        assert(self.scheduler.available_to(w, t));
        let known = self.scheduler.tasks[t].spec.dependencies;
        assert(self.scheduler.all_known(known));
        if self.actor_tasks.contains_key(t) {
            assert forall|o: u128| #[trigger] self.needs(
                t,
                o,
            ) implies self.scheduler.known_objects.contains(o) by {
                if known.contains(o) {
                    let k = choose|k: int| 0 <= k < known.len() && known[k] == o;
                    assert(self.scheduler.known_objects.contains(known[k]));
                }
            }
        }
    }

    /// A head node stays settled when it hands out tasks.
    pub proof fn handing_out_settles(
        self,
        w: u128,
        capacity: nat,
        post: HeadView,
        r: Result<Seq<LeaseView>, StatusView>,
    )
        requires
            self.settled(),
            self.hands_out(w, capacity, post, r),
        ensures
            post.settled(),
    {
        if self.scheduler.workers.contains_key(w) {
            let given = choose|given: Seq<TaskSpecView>|
                {
                    &&& #[trigger] self.scheduler.leases(w, capacity, given, post.scheduler)
                    &&& post == self.with_scheduler(post.scheduler).after_claims(given, w)
                    &&& r == Ok::<Seq<LeaseView>, StatusView>(self.leases_of(given))
                };
            self.scheduler.leasing_gives(w, capacity, given, post.scheduler);
            self.scheduler.leasing_evolves(w, capacity, given, post.scheduler);
            let mid = self.with_scheduler(post.scheduler);
            assert(post.actors.dom() =~= self.actors.dom());
            assert(post.homes_wf()) by {
                assert forall|a: u128| #[trigger] post.actors.contains_key(
                    a,
                ) implies match post.actors[a].owner_worker {
                    Some(v) => post.scheduler.workers.contains_key(v),
                    None => true,
                } by {
                    assert(self.actors.contains_key(a));
                }
            }
            assert forall|t: u128, o: u128|
                post.actor_tasks.contains_key(t) && #[trigger] post.needs(
                    t,
                    o,
                ) implies post.scheduler.tasks[t].spec.dependencies.contains(o)
                || post.scheduler.known_objects.contains(o) by {
                assert(self.needs(t, o));
                assert(self.scheduler.tasks.contains_key(t));
            }
            assert forall|a: u128, o: u128|
                post.actors.contains_key(a) && post.actors[a].owner_worker is Some
                    && #[trigger] post.actors[a].spec.constructor_dependencies.contains(
                    o,
                ) implies post.scheduler.known_objects.contains(o) by {
                assert(self.actors.contains_key(a));
                assert(self.actors[a].spec.constructor_dependencies.contains(o));
                if self.actors[a].owner_worker is None {
                    assert(mid.calls(given, a));
                    let i = choose|i: int|
                        0 <= i < given.len() && (#[trigger] mid.call_of(
                            given[i].task_id,
                        ) matches Some(call) && call.actor_id == a);
                    let t = given[i].task_id;
                    assert(self.actor_tasks.contains_key(t));
                    self.lemma_given_task(w, given, post.scheduler, i);
                    assert(self.needs(t, o));
                }
            }
        }
    }

    /// A head node stays settled when a worker asks for tasks.
    pub proof fn polls_settle(
        self,
        request: PollTaskRequest,
        now: Instant,
        post: HeadView,
        r: Result<Seq<LeaseView>, StatusView>,
    )
        requires
            self.settled(),
            self.polls(request, now, post, r),
        ensures
            post.settled(),
    {
        if let Ok(w) = model::read_id(request.worker_id@) {
            let (report, mid) = choose|report: Seq<ExpiryView>, mid: HeadView|
                {
                    &&& #[trigger] self.cleans_up(now, report, mid)
                    &&& mid.hands_out(w, request.capacity as nat, post, r)
                };
            self.cleanups_settle(now, report, mid);
            mid.handing_out_settles(w, request.capacity as nat, post, r);
        }
    }

    /// A worker can fetch every object that it has to fetch for a task that it was given.
    pub proof fn leases_can_be_fetched_for(
        self,
        w: u128,
        capacity: nat,
        post: HeadView,
        leases: Seq<LeaseView>,
        i: int,
        j: int,
    )
        requires
            self.settled(),
            self.hands_out(w, capacity, post, Ok(leases)),
            0 <= i < leases.len(),
            0 <= j < worker::wanted(leases[i]).len(),
        ensures
            post.object(worker::wanted(leases[i])[j]) is Ok,
    {
        let given = choose|given: Seq<TaskSpecView>|
            {
                &&& #[trigger] self.scheduler.leases(w, capacity, given, post.scheduler)
                &&& post == self.with_scheduler(post.scheduler).after_claims(given, w)
                &&& Ok::<Seq<LeaseView>, StatusView>(leases) == Ok::<Seq<LeaseView>, StatusView>(
                    self.leases_of(given),
                )
            };
        self.scheduler.leasing_gives(w, capacity, given, post.scheduler);
        self.lemma_given_task(w, given, post.scheduler, i);
        let spec = given[i];
        let call = self.call_of(spec.task_id);
        assert(leases[i] == model::lease_of(spec, call));
        leases_name_their_tasks(spec, call);
        let wanted = worker::wanted(leases[i]);
        match call {
            None => {
                let o = spec.dependencies[j];
                assert(wanted[j] == model::id_text(o));
                texts_name_their_identifiers(o);
            },
            Some(call) => {
                let n = call.dependencies.len();
                let o = if j < n {
                    call.dependencies[j]
                } else {
                    call.constructor_dependencies[j - n]
                };
                assert(wanted[j] == model::id_text(o));
                assert(self.needs(spec.task_id, o));
                texts_name_their_identifiers(o);
            },
        }
    }
}

impl HeadView {
    /// Whether a head node may become `post` in the course of time: its scheduler evolves, and no
    /// object, no actor and no call of an actor is forgotten.
    pub open spec fn evolves(self, post: HeadView) -> bool {
        &&& self.scheduler.evolves(post.scheduler)
        &&& self.objects.dom().subset_of(post.objects.dom())
        &&& self.actors.dom().subset_of(post.actors.dom())
        &&& self.actor_tasks.dom().subset_of(post.actor_tasks.dom())
    }

    /// Evolving once and evolving again is evolving.
    pub proof fn evolution_goes_on(self, mid: HeadView, post: HeadView)
        requires
            self.evolves(mid),
            mid.evolves(post),
        ensures
            self.evolves(post),
    {
        self.scheduler.evolution_goes_on(mid.scheduler, post.scheduler);
    }

    /// A head node evolves when an object is put.
    pub proof fn puts_evolve(self, id: u128, data: Seq<u8>, post: HeadView)
        requires
            self.puts(id, data, post),
        ensures
            self.evolves(post),
    {
        self.scheduler.availability_evolves(id, post.scheduler);
    }

    /// A head node evolves when a task is submitted.
    pub proof fn submissions_evolve(self, request: SubmitTaskRequest, task: u128)
        ensures
            self.evolves(self.after_submit_task(request, task).0),
    {
    }

    /// A head node evolves when an actor is created.
    pub proof fn creations_evolve(self, request: CreateActorRequest)
        ensures
            self.evolves(self.after_create_actor(request).0),
    {
    }

    /// A head node evolves when a call of an actor is submitted.
    pub proof fn calls_evolve(self, request: SubmitActorTaskRequest, task: u128)
        ensures
            self.evolves(self.after_submit_actor_task(request, task).0),
    {
    }

    /// A head node evolves when a worker registers.
    pub proof fn registrations_evolve(self, request: RegisterWorkerRequest, now: Instant)
        ensures
            self.evolves(self.after_register_worker(request, now).0),
    {
    }

    /// A head node evolves when a worker gives a sign of life.
    pub proof fn heartbeats_evolve(self, worker_id: Seq<char>, now: Instant)
        ensures
            self.evolves(self.after_heartbeat(worker_id, now).0),
    {
    }

    /// A head node evolves when a worker is taken out.
    pub proof fn removals_evolve(self, worker_id: Seq<char>)
        requires
            self.wf(),
        ensures
            self.evolves(self.after_unregister_worker(worker_id).0),
    {
        if let Ok(w) = model::read_id(worker_id) {
            if self.scheduler.workers.contains_key(w) {
                self.scheduler.removal_evolves(w, "worker unregistered"@);
            }
        }
    }

    /// A head node evolves when a failure is reported.
    pub proof fn failures_evolve(self, request: FailTaskRequest)
        ensures
            self.evolves(self.after_fail_task(request).0),
    {
    }

    /// A head node evolves when a result is reported.
    pub proof fn completions_evolve(
        self,
        request: CompleteTaskRequest,
        post: HeadView,
        r: Result<(), StatusView>,
    )
        requires
            self.completes(request, post, r),
        ensures
            self.evolves(post),
    {
        if r is Ok {
            self.scheduler.completion_evolves(
                model::read_id(request.worker_id@)->Ok_0,
                model::read_id(request.task_id@)->Ok_0,
                model::read_id(request.output_id@)->Ok_0,
                post.scheduler,
            );
        }
    }

    /// A head node evolves when it gives up on silent workers.
    pub proof fn cleanups_evolve(self, now: Instant, report: Seq<ExpiryView>, post: HeadView)
        requires
            self.wf(),
            self.cleans_up(now, report, post),
        ensures
            self.evolves(post),
    {
        self.scheduler.expiry_evolves(now, report, post.scheduler);
    }

    /// A head node evolves when a worker asks for tasks.
    pub proof fn polls_evolve(
        self,
        request: PollTaskRequest,
        now: Instant,
        post: HeadView,
        r: Result<Seq<LeaseView>, StatusView>,
    )
        requires
            self.wf(),
            self.polls(request, now, post, r),
        ensures
            self.evolves(post),
    {
        if let Ok(w) = model::read_id(request.worker_id@) {
            let (report, mid) = choose|report: Seq<ExpiryView>, mid: HeadView|
                {
                    &&& #[trigger] self.cleans_up(now, report, mid)
                    &&& mid.hands_out(w, request.capacity as nat, post, r)
                };
            self.cleanups_evolve(now, report, mid);
            self.scheduler.lemma_removals(model::reported(report), "worker heartbeat expired"@);
            if mid.scheduler.workers.contains_key(w) {
                let given = choose|given: Seq<TaskSpecView>|
                    {
                        &&& #[trigger] mid.scheduler.leases(
                            w,
                            request.capacity as nat,
                            given,
                            post.scheduler,
                        )
                        &&& post == mid.with_scheduler(post.scheduler).after_claims(given, w)
                        &&& r == Ok::<Seq<LeaseView>, StatusView>(mid.leases_of(given))
                    };
                mid.scheduler.leasing_evolves(
                    w,
                    request.capacity as nat,
                    given,
                    post.scheduler,
                );
            }
            self.evolution_goes_on(mid, post);
        }
    }
}

} // verus!
