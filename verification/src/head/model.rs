//! What a head node holds, and what each request does to it.
use crate::error::ErrorView;
use crate::ids::{TaskId, WorkerId};
use crate::messages::{
    self, Code, CompleteTaskRequest, CreateActorRequest, FailTaskRequest, LeaseView,
    PollTaskRequest, RegisterWorkerRequest, StatusView, SubmitActorTaskRequest, SubmitTaskRequest,
};
use crate::object_store;
use crate::scheduler;
use crate::scheduler::model::{ExpiryView, SchedulerView};
use crate::task::{self, ActorSpecView, TaskSpecView};
use crate::uuid_text;
use std::time::{Duration, Instant};
use vstd::prelude::*;

verus! {

/// An actor, and the worker that it lives with, if it lives with one.
#[verifier::ext_equal]
pub struct ActorRecordView {
    pub spec: ActorSpecView,
    pub owner_worker: Option<u128>,
}

/// What is known of a task that is a call of an actor's method.
#[verifier::ext_equal]
pub struct ActorTaskView {
    pub actor_id: u128,
    pub actor_type: Seq<char>,
    pub method_id: Seq<char>,
    pub dependencies: Seq<u128>,
    pub constructor_dependencies: Seq<u128>,
}

/// The content of a head node.
#[verifier::ext_equal]
pub struct HeadView {
    pub objects: Map<u128, Seq<u8>>,
    pub scheduler: SchedulerView,
    pub actors: Map<u128, ActorRecordView>,
    pub actor_tasks: Map<u128, ActorTaskView>,
}

/// The answer to a submission: the task and the object that its result will be.
#[verifier::ext_equal]
pub struct SubmittedView {
    pub task_id: Seq<char>,
    pub output_id: Seq<char>,
}

/// The identifier that a text names, or the refusal of a text that names none.
pub open spec fn read_id(text: Seq<char>) -> Result<u128, StatusView> {
    match uuid_text::read_uuid(text) {
        Some(id) => Ok(id),
        None => Err(
            messages::status_of(ErrorView::Decode(uuid_text::uuid_parse_error(text))),
        ),
    }
}

/// The identifiers that a list of texts names, or the refusal of the first text that names none.
pub open spec fn read_ids(texts: Seq<Seq<char>>) -> Result<Seq<u128>, StatusView>
    decreases texts.len(),
{
    if texts.len() == 0 {
        Ok(Seq::empty())
    } else {
        match read_ids(texts.drop_last()) {
            Ok(ids) => match read_id(texts.last()) {
                Ok(id) => Ok(ids.push(id)),
                Err(status) => Err(status),
            },
            Err(status) => Err(status),
        }
    }
}

/// The text of an identifier.
pub open spec fn id_text(id: u128) -> Seq<char> {
    uuid_text::hyphenated_text(id)
}

/// The texts of a list of identifiers.
pub open spec fn id_texts(ids: Seq<u128>) -> Seq<Seq<char>> {
    ids.map_values(|id: u128| id_text(id))
}

/// The refusal of a call of an actor that does not exist.
pub open spec fn unknown_actor(id: u128) -> StatusView {
    StatusView {
        code: Code::NotFound,
        message: "actor "@ + id_text(id) + " was not found"@,
    }
}

/// The name under which a call of an actor's method is scheduled.
pub open spec fn actor_function(
    id: u128,
    actor_type: Seq<char>,
    method_id: Seq<char>,
) -> Seq<char> {
    "actor:"@ + id_text(id) + ":"@ + actor_type + ":"@ + method_id
}

/// The task that a submission describes, when it is given the identifier `task`.
pub open spec fn submitted_task(
    request: SubmitTaskRequest,
    dependencies: Seq<u128>,
    output: u128,
    task: u128,
) -> TaskSpecView {
    TaskSpecView {
        max_retries: request.max_retries,
        ..task::fresh_task(task, request.function_id@, dependencies, output)
    }
}

/// What a worker is told of a task that it is to run.
pub open spec fn lease_of(spec: TaskSpecView, call: Option<ActorTaskView>) -> LeaseView {
    match call {
        Some(call) => LeaseView {
            task_id: id_text(spec.task_id),
            function_id: spec.function_id,
            dependencies: id_texts(call.dependencies),
            output_id: id_text(spec.output_id),
            attempt: spec.attempt,
            actor_id: id_text(call.actor_id),
            actor_type: call.actor_type,
            method_id: call.method_id,
            constructor_dependencies: id_texts(call.constructor_dependencies),
        },
        None => LeaseView {
            task_id: id_text(spec.task_id),
            function_id: spec.function_id,
            dependencies: id_texts(spec.dependencies),
            output_id: id_text(spec.output_id),
            attempt: spec.attempt,
            actor_id: Seq::empty(),
            actor_type: Seq::empty(),
            method_id: Seq::empty(),
            constructor_dependencies: Seq::empty(),
        },
    }
}

impl ActorRecordView {
    /// The actor when it no longer lives with any of the listed workers.
    pub open spec fn released_from(self, workers: Seq<u128>) -> ActorRecordView {
        match self.owner_worker {
            Some(owner) if workers.contains(owner) => ActorRecordView {
                owner_worker: None,
                ..self
            },
            _ => self,
        }
    }

    /// The actor when it has been asked to live with a worker: it moves there unless it lives with
    /// one already.
    pub open spec fn claimed_by(self, w: u128) -> ActorRecordView {
        match self.owner_worker {
            Some(_) => self,
            None => ActorRecordView { owner_worker: Some(w), ..self },
        }
    }
}

/// The workers that a list of reports is about.
pub open spec fn reported(report: Seq<ExpiryView>) -> Seq<u128> {
    report.map_values(|e: ExpiryView| e.worker_id)
}

impl HeadView {
    /// A head node that knows of nothing.
    pub open spec fn empty(heartbeat_timeout: Duration) -> HeadView {
        HeadView {
            objects: Map::empty(),
            scheduler: SchedulerView::empty(heartbeat_timeout),
            actors: Map::empty(),
            actor_tasks: Map::empty(),
        }
    }

    /// Actors are filed under their own identifiers.
    pub open spec fn actors_wf(self) -> bool {
        &&& self.actors.dom().finite()
        &&& forall|a: u128| #[trigger]
            self.actors.contains_key(a) ==> self.actors[a].spec.actor_id == a
    }

    /// Actors live with registered workers only.
    pub open spec fn homes_wf(self) -> bool {
        forall|a: u128| #[trigger]
            self.actors.contains_key(a) ==> match self.actors[a].owner_worker {
                Some(w) => self.scheduler.workers.contains_key(w),
                None => true,
            }
    }

    /// What holds of every head node.
    pub open spec fn wf(self) -> bool {
        &&& self.scheduler.wf()
        &&& self.actors_wf()
        &&& self.homes_wf()
    }

    /// The head node with another scheduler.
    pub open spec fn with_scheduler(self, scheduler: SchedulerView) -> HeadView {
        HeadView { scheduler, ..self }
    }

    /// Whether `post` is the head node after bytes were put under an identifier.
    pub open spec fn puts(self, id: u128, data: Seq<u8>, post: HeadView) -> bool {
        &&& self.scheduler.makes_available(id, post.scheduler)
        &&& post == (HeadView {
            objects: self.objects.insert(id, data),
            ..self
        }).with_scheduler(post.scheduler)
    }

    /// What a submission leads to when the task is given the identifier `task`.
    pub open spec fn after_submit_task(self, request: SubmitTaskRequest, task: u128) -> (
        HeadView,
        Result<SubmittedView, StatusView>,
    ) {
        match read_id(request.output_id@) {
            Err(status) => (self, Err(status)),
            Ok(output) => match read_ids(messages::texts(request.dependencies@)) {
                Err(status) => (self, Err(status)),
                Ok(dependencies) => self.after_scheduling(
                    submitted_task(request, dependencies, output, task),
                ),
            },
        }
    }

    /// What handing a task to the scheduler leads to.
    pub open spec fn after_scheduling(self, spec: TaskSpecView) -> (
        HeadView,
        Result<SubmittedView, StatusView>,
    ) {
        if self.scheduler.tasks.contains_key(spec.task_id) {
            (self, Err(messages::status_of(scheduler::task_exists(TaskId(spec.task_id)))))
        } else {
            (
                self.with_scheduler(self.scheduler.after_submit(spec)),
                Ok(
                    SubmittedView {
                        task_id: id_text(spec.task_id),
                        output_id: id_text(spec.output_id),
                    },
                ),
            )
        }
    }

    /// What the creation of an actor leads to. An actor that was there under the same identifier is
    /// replaced, and lives with no worker.
    pub open spec fn after_create_actor(self, request: CreateActorRequest) -> (
        HeadView,
        Result<Seq<char>, StatusView>,
    ) {
        match read_id(request.actor_id@) {
            Err(status) => (self, Err(status)),
            Ok(id) => match read_ids(messages::texts(request.constructor_dependencies@)) {
                Err(status) => (self, Err(status)),
                Ok(dependencies) => (
                    HeadView {
                        actors: self.actors.insert(
                            id,
                            ActorRecordView {
                                spec: ActorSpecView {
                                    actor_id: id,
                                    actor_type: request.actor_type@,
                                    constructor_dependencies: dependencies,
                                    max_restarts: request.max_restarts,
                                },
                                owner_worker: None,
                            },
                        ),
                        ..self
                    },
                    Ok(id_text(id)),
                ),
            },
        }
    }

    /// What is noted of a call of a method of actor `a`.
    pub open spec fn actor_call(
        self,
        a: u128,
        method_id: Seq<char>,
        dependencies: Seq<u128>,
    ) -> ActorTaskView {
        ActorTaskView {
            actor_id: a,
            actor_type: self.actors[a].spec.actor_type,
            method_id,
            dependencies,
            constructor_dependencies: self.actors[a].spec.constructor_dependencies,
        }
    }

    /// The task for a call of a method of actor `a`, when it is given the identifier `task`. Where
    /// the actor lives with a worker, the task is pinned to that worker; where it lives with none,
    /// the task waits for the constructor's objects too.
    pub open spec fn actor_call_task(
        self,
        a: u128,
        request: SubmitActorTaskRequest,
        dependencies: Seq<u128>,
        output: u128,
        task: u128,
    ) -> TaskSpecView {
        let actor = self.actors[a];
        TaskSpecView {
            target_worker: actor.owner_worker,
            max_retries: request.max_retries,
            ..task::fresh_task(
                task,
                actor_function(a, actor.spec.actor_type, request.method_id@),
                if actor.owner_worker is None {
                    dependencies + actor.spec.constructor_dependencies
                } else {
                    dependencies
                },
                output,
            )
        }
    }

    /// What a call of an actor's method leads to when the task is given the identifier `task`.
    pub open spec fn after_submit_actor_task(self, request: SubmitActorTaskRequest, task: u128) -> (
        HeadView,
        Result<SubmittedView, StatusView>,
    ) {
        match read_id(request.actor_id@) {
            Err(status) => (self, Err(status)),
            Ok(a) => if !self.actors.contains_key(a) {
                (self, Err(unknown_actor(a)))
            } else {
                match read_id(request.output_id@) {
                    Err(status) => (self, Err(status)),
                    Ok(output) => match read_ids(messages::texts(request.dependencies@)) {
                        Err(status) => (self, Err(status)),
                        Ok(dependencies) => (HeadView {
                            actor_tasks: self.actor_tasks.insert(
                                task,
                                self.actor_call(a, request.method_id@, dependencies),
                            ),
                            ..self
                        }).after_scheduling(
                            self.actor_call_task(a, request, dependencies, output, task),
                        ),
                    },
                }
            },
        }
    }

    /// The actors once they no longer live with any of the listed workers.
    pub open spec fn after_release(self, workers: Seq<u128>) -> HeadView {
        HeadView {
            actors: self.actors.map_values(|actor: ActorRecordView| actor.released_from(workers)),
            ..self
        }
    }

    /// After a worker was removed: its actors no longer live with it. An unknown worker is ignored.
    pub open spec fn after_remove_worker(self, w: u128, reason: Seq<char>) -> HeadView {
        if self.scheduler.workers.contains_key(w) {
            self.with_scheduler(self.scheduler.after_remove(w, reason)).after_release(seq![w])
        } else {
            self
        }
    }

    /// Whether `post` is the head node after it has removed, at `now`, the workers that `report` is
    /// about: those that had been silent for too long.
    pub open spec fn cleans_up(self, now: Instant, report: Seq<ExpiryView>, post: HeadView) -> bool {
        &&& self.scheduler.expires(now, report, post.scheduler)
        &&& post == self.with_scheduler(post.scheduler).after_release(reported(report))
    }

    /// What is noted of the call that a task is, if it is a call of an actor's method.
    pub open spec fn call_of(self, task: u128) -> Option<ActorTaskView> {
        if self.actor_tasks.contains_key(task) {
            Some(self.actor_tasks[task])
        } else {
            None
        }
    }

    /// Whether one of the tasks is a call of actor `a`.
    pub open spec fn calls(self, tasks: Seq<TaskSpecView>, a: u128) -> bool {
        exists|i: int|
            0 <= i < tasks.len() && (#[trigger] self.call_of(tasks[i].task_id) matches Some(call)
                && call.actor_id == a)
    }

    /// After actor `a` was asked to live with worker `w`. An unknown actor is ignored.
    pub open spec fn after_claim(self, a: u128, w: u128) -> HeadView {
        if self.actors.contains_key(a) {
            HeadView { actors: self.actors.insert(a, self.actors[a].claimed_by(w)), ..self }
        } else {
            self
        }
    }

    /// After a worker was given tasks: the actors that these call move to the worker, unless they
    /// live with one already.
    pub open spec fn after_claims(self, tasks: Seq<TaskSpecView>, w: u128) -> HeadView {
        HeadView {
            actors: Map::new(
                |a: u128| self.actors.contains_key(a),
                |a: u128|
                    if self.calls(tasks, a) {
                        self.actors[a].claimed_by(w)
                    } else {
                        self.actors[a]
                    },
            ),
            ..self
        }
    }

    /// What a worker is told of the tasks that it is to run.
    pub open spec fn leases_of(self, tasks: Seq<TaskSpecView>) -> Seq<LeaseView> {
        tasks.map_values(|spec: TaskSpecView| lease_of(spec, self.call_of(spec.task_id)))
    }

    /// Whether `post` and `r` are what may come of worker `w` asking for up to `capacity` tasks.
    pub open spec fn hands_out(
        self,
        w: u128,
        capacity: nat,
        post: HeadView,
        r: Result<Seq<LeaseView>, StatusView>,
    ) -> bool {
        if self.scheduler.workers.contains_key(w) {
            exists|tasks: Seq<TaskSpecView>|
                {
                    &&& #[trigger] self.scheduler.leases(w, capacity, tasks, post.scheduler)
                    &&& post == self.with_scheduler(post.scheduler).after_claims(tasks, w)
                    &&& r == Ok::<Seq<LeaseView>, StatusView>(self.leases_of(tasks))
                }
        } else {
            post == self && r == Err::<Seq<LeaseView>, StatusView>(
                messages::status_of(scheduler::unknown_worker(WorkerId(w))),
            )
        }
    }

    /// Whether `post` and `r` are what may come of a poll at `now`: the workers that had been silent
    /// for too long are removed first.
    pub open spec fn polls(
        self,
        request: PollTaskRequest,
        now: Instant,
        post: HeadView,
        r: Result<Seq<LeaseView>, StatusView>,
    ) -> bool {
        match read_id(request.worker_id@) {
            Err(status) => post == self && r == Err::<Seq<LeaseView>, StatusView>(status),
            Ok(w) => exists|report: Seq<ExpiryView>, mid: HeadView|
                {
                    &&& #[trigger] self.cleans_up(now, report, mid)
                    &&& mid.hands_out(w, request.capacity as nat, post, r)
                },
        }
    }

    /// Whether `post` and `r` are what may come of a report that a task is done. Only the worker
    /// that has the task may make it; otherwise nothing is stored.
    pub open spec fn completes(
        self,
        request: CompleteTaskRequest,
        post: HeadView,
        r: Result<(), StatusView>,
    ) -> bool {
        match read_id(request.worker_id@) {
            Err(status) => post == self && r == Err::<(), StatusView>(status),
            Ok(w) => match read_id(request.task_id@) {
                Err(status) => post == self && r == Err::<(), StatusView>(status),
                Ok(t) => match read_id(request.output_id@) {
                    Err(status) => post == self && r == Err::<(), StatusView>(status),
                    Ok(output) => if self.scheduler.owns(w, t) {
                        &&& self.scheduler.completes(w, t, output, post.scheduler)
                        &&& post == (HeadView {
                            objects: self.objects.insert(output, request.data@),
                            ..self
                        }).with_scheduler(post.scheduler)
                        &&& r == Ok::<(), StatusView>(())
                    } else {
                        post == self && r == Err::<(), StatusView>(
                            messages::status_of(
                                self.scheduler.disowned(WorkerId(w), TaskId(t)),
                            ),
                        )
                    },
                },
            },
        }
    }

    /// What a report that a task could not be done leads to.
    pub open spec fn after_fail_task(self, request: FailTaskRequest) -> (
        HeadView,
        Result<(), StatusView>,
    ) {
        match read_id(request.worker_id@) {
            Err(status) => (self, Err(status)),
            Ok(w) => match read_id(request.task_id@) {
                Err(status) => (self, Err(status)),
                Ok(t) => if self.scheduler.owns(w, t) {
                    (
                        self.with_scheduler(self.scheduler.after_fail(w, t, request.error@)),
                        Ok(()),
                    )
                } else {
                    (
                        self,
                        Err(
                            messages::status_of(
                                self.scheduler.disowned(WorkerId(w), TaskId(t)),
                            ),
                        ),
                    )
                },
            },
        }
    }

    /// What the announcement of a worker at `now` leads to.
    pub open spec fn after_register_worker(self, request: RegisterWorkerRequest, now: Instant) -> (
        HeadView,
        Result<Seq<char>, StatusView>,
    ) {
        match read_id(request.worker_id@) {
            Err(status) => (self, Err(status)),
            Ok(w) => (
                self.with_scheduler(
                    self.scheduler.after_register(w, request.slots as nat, now),
                ),
                Ok(id_text(w)),
            ),
        }
    }

    /// What taking a worker out leads to.
    pub open spec fn after_unregister_worker(self, worker_id: Seq<char>) -> (
        HeadView,
        Result<(), StatusView>,
    ) {
        match read_id(worker_id) {
            Err(status) => (self, Err(status)),
            Ok(w) => (self.after_remove_worker(w, "worker unregistered"@), Ok(())),
        }
    }

    /// What a sign of life of a worker at `now` leads to.
    pub open spec fn after_heartbeat(self, worker_id: Seq<char>, now: Instant) -> (
        HeadView,
        Result<(), StatusView>,
    ) {
        match read_id(worker_id) {
            Err(status) => (self, Err(status)),
            Ok(w) => (
                self.with_scheduler(self.scheduler.after_heartbeat(w, now)),
                Ok(()),
            ),
        }
    }

    /// What asking for an object gives: its identifier and its bytes, or a refusal.
    pub open spec fn object(self, object_id: Seq<char>) -> Result<(Seq<char>, Seq<u8>), StatusView> {
        match read_id(object_id) {
            Err(status) => Err(status),
            Ok(id) => match object_store::lookup(self.objects, id) {
                Ok(data) => Ok((id_text(id), data)),
                Err(error) => Err(messages::status_of(error)),
            },
        }
    }
}

} // verus!
