//! What each request changes at the head node, field by field, what it leaves as it was, and what it
//! is answered.
use super::model::{self, HeadView, SubmittedView};
use crate::clock;
use crate::messages::{
    self, Code, CompleteTaskRequest, CreateActorRequest, FailTaskRequest, PollTaskResponse,
    RegisterWorkerRequest, Status, StatusView, SubmitActorTaskRequest,
    SubmitActorTaskResponse, SubmitTaskRequest, SubmitTaskResponse,
};
use crate::scheduler::model::{ExpiryView, TaskStateView};
use crate::uuid_text;
use std::time::{Duration, Instant};
use vstd::prelude::*;

verus! {

/// The refusal of a text that names no identifier.
pub open spec fn unreadable(text: Seq<char>) -> StatusView {
    StatusView {
        code: Code::InvalidArgument,
        message: "failed to decode value: "@ + uuid_text::uuid_parse_error(text),
    }
}

/// The refusal of a submission under an identifier that is taken.
pub open spec fn taken(task: u128) -> StatusView {
    StatusView {
        code: Code::FailedPrecondition,
        message: "scheduler error: "@ + ("task "@ + uuid_text::hyphenated_text(task)
            + " already exists"@),
    }
}

/// Whether each text of a list names an identifier.
pub open spec fn all_readable(list: Seq<String>) -> bool {
    forall|i: int| 0 <= i < list.len() ==> uuid_text::read_uuid((#[trigger] list[i])@) is Some
}

/// Whether the text at place `k` of a list is the first that names no identifier.
pub open spec fn first_unreadable(list: Seq<String>, k: int) -> bool {
    &&& 0 <= k < list.len()
    &&& uuid_text::read_uuid(list[k]@) is None
    &&& forall|i: int| 0 <= i < k ==> uuid_text::read_uuid((#[trigger] list[i])@) is Some
}

/// A text is read as the number that it names; one that names none is refused as an invalid argument,
/// with the reason.
pub proof fn texts_are_read_as_what_they_name(text: Seq<char>)
    ensures
        uuid_text::read_uuid(text) matches Some(id) ==> model::read_id(text) == Ok::<
            u128,
            StatusView,
        >(id),
        uuid_text::read_uuid(text) is None ==> model::read_id(text) == Err::<u128, StatusView>(
            StatusView {
                code: Code::InvalidArgument,
                message: "failed to decode value: "@ + uuid_text::uuid_parse_error(text),
            },
        ),
{
}

/// A list of texts is read one by one, in order.
pub proof fn lists_are_read_one_by_one(list: Seq<String>, ids: Seq<u128>)
    requires
        ids.len() == list.len(),
        forall|i: int|
            0 <= i < list.len() ==> uuid_text::read_uuid((#[trigger] list[i])@) == Some(ids[i]),
    ensures
        model::read_ids(messages::texts(list)) == Ok::<Seq<u128>, StatusView>(ids),
    decreases list.len(),
{
    let texts = messages::texts(list);
    if list.len() == 0 {
        assert(ids =~= Seq::<u128>::empty());
    } else {
        let init = list.drop_last();
        assert forall|i: int| 0 <= i < init.len() implies uuid_text::read_uuid(
            (#[trigger] init[i])@,
        ) == Some(ids.drop_last()[i]) by {
            assert(init[i] == list[i]);
        }
        lists_are_read_one_by_one(init, ids.drop_last());
        assert(texts.drop_last() =~= messages::texts(init));
        assert(texts.last() == list[list.len() - 1]@);
        assert(ids.drop_last().push(ids.last()) =~= ids);
    }
}

/// A list of texts is refused for the first of them that names no identifier.
pub proof fn lists_are_refused_for_the_first_unreadable_text(list: Seq<String>, k: int)
    requires
        0 <= k < list.len(),
        uuid_text::read_uuid(list[k]@) is None,
        forall|i: int| 0 <= i < k ==> uuid_text::read_uuid((#[trigger] list[i])@) is Some,
    ensures
        model::read_ids(messages::texts(list)) == Err::<Seq<u128>, StatusView>(
            StatusView {
                code: Code::InvalidArgument,
                message: "failed to decode value: "@ + uuid_text::uuid_parse_error(list[k]@),
            },
        ),
    decreases list.len(),
{
    let texts = messages::texts(list);
    let init = list.drop_last();
    assert(texts.drop_last() =~= messages::texts(init));
    assert(texts.last() == list[list.len() - 1]@);
    if k < init.len() {
        assert forall|i: int| 0 <= i < k implies uuid_text::read_uuid(
            (#[trigger] init[i])@,
        ) is Some by {
            assert(init[i] == list[i]);
        }
        lists_are_refused_for_the_first_unreadable_text(init, k);
    } else {
        let ids = Seq::new(init.len(), |i: int| uuid_text::read_uuid(init[i]@)->Some_0);
        assert forall|i: int| 0 <= i < init.len() implies uuid_text::read_uuid(
            (#[trigger] init[i])@,
        ) == Some(ids[i]) by {
            assert(init[i] == list[i]);
        }
        lists_are_read_one_by_one(init, ids);
    }
}

impl HeadView {
    /// An empty head node stores nothing, knows of no actor and of no call, and has an empty scheduler
    /// that gives up on a worker after the given time.
    pub proof fn empty_head_nodes_hold_nothing(timeout: Duration, x: u128)
        ensures
            !HeadView::empty(timeout).objects.contains_key(x),
            !HeadView::empty(timeout).actors.contains_key(x),
            !HeadView::empty(timeout).actor_tasks.contains_key(x),
            !HeadView::empty(timeout).scheduler.tasks.contains_key(x),
            !HeadView::empty(timeout).scheduler.workers.contains_key(x),
            !HeadView::empty(timeout).scheduler.known_objects.contains(x),
            HeadView::empty(timeout).scheduler.ready.len() == 0,
            HeadView::empty(timeout).scheduler.heartbeat_timeout == timeout,
    {
    }

    /// When bytes are put under an identifier, these bytes are there, no other object is touched, and
    /// the object counts as available; actors are not touched.
    pub proof fn puts_store_what_they_are_given(
        self,
        id: u128,
        data: Seq<u8>,
        post: HeadView,
        o: u128,
    )
        requires
            self.puts(id, data, post),
        ensures
            post.objects.contains_key(id),
            post.objects[id] == data,
            o != id ==> post.objects.contains_key(o) == self.objects.contains_key(o),
            o != id && self.objects.contains_key(o) ==> post.objects[o] == self.objects[o],
            post.scheduler.known_objects.contains(o) <==> self.scheduler.known_objects.contains(o)
                || o == id,
            self.scheduler.makes_available(id, post.scheduler),
            post.actors == self.actors,
            post.actor_tasks == self.actor_tasks,
    {
    }

    /// Asking for an object that is there gives its name and its bytes; asking for one that is not is
    /// answered with "not found", and a text that names no object is refused.
    pub proof fn objects_are_handed_out(self, text: Seq<char>)
        ensures
            uuid_text::read_uuid(text) is None ==> self.object(text) == Err::<
                (Seq<char>, Seq<u8>),
                StatusView,
            >(unreadable(text)),
            uuid_text::read_uuid(text) matches Some(id) ==> {
                &&& self.objects.contains_key(id) ==> self.object(text) == Ok::<
                    (Seq<char>, Seq<u8>),
                    StatusView,
                >((uuid_text::hyphenated_text(id), self.objects[id]))
                &&& !self.objects.contains_key(id) ==> self.object(text) == Err::<
                    (Seq<char>, Seq<u8>),
                    StatusView,
                >(
                    StatusView {
                        code: Code::NotFound,
                        message: "object "@ + uuid_text::hyphenated_text(id) + " was not found"@,
                    },
                )
            },
    {
    }

    /// A task that is submitted has the function, the dependencies in their order, the output and the
    /// number of retries of the request; it is pinned to no worker and has not been tried again. The
    /// answer names the task and its output. It stands last in the queue where all its dependencies
    /// are available, and waits where one is missing. Nothing else changes.
    pub proof fn submissions_are_taken_as_described(
        self,
        request: SubmitTaskRequest,
        task: u128,
        dependencies: Seq<u128>,
        output: u128,
        x: u128,
    )
        requires
            uuid_text::read_uuid(request.output_id@) == Some(output),
            dependencies.len() == request.dependencies@.len(),
            forall|i: int|
                0 <= i < dependencies.len() ==> uuid_text::read_uuid(
                    (#[trigger] request.dependencies@[i])@,
                ) == Some(dependencies[i]),
            !self.scheduler.tasks.contains_key(task),
        ensures
            ({
                let (post, r) = self.after_submit_task(request, task);
                let spec = post.scheduler.tasks[task].spec;
                let ready = forall|i: int|
                    0 <= i < dependencies.len() ==> self.scheduler.known_objects.contains(
                        #[trigger] dependencies[i],
                    );
                &&& r == Ok::<SubmittedView, StatusView>(
                    SubmittedView {
                        task_id: uuid_text::hyphenated_text(task),
                        output_id: uuid_text::hyphenated_text(output),
                    },
                )
                &&& post.scheduler.tasks.contains_key(task)
                &&& spec.task_id == task
                &&& spec.function_id == request.function_id@
                &&& spec.dependencies == dependencies
                &&& spec.output_id == output
                &&& spec.max_retries == request.max_retries
                &&& spec.attempt == 0
                &&& spec.target_worker is None
                &&& ready ==> {
                    &&& post.scheduler.tasks[task].state is Ready
                    &&& post.scheduler.ready == self.scheduler.ready.push(task)
                }
                &&& !ready ==> {
                    &&& post.scheduler.tasks[task].state is Pending
                    &&& post.scheduler.ready == self.scheduler.ready
                }
                &&& x != task ==> post.scheduler.tasks.contains_key(x)
                    == self.scheduler.tasks.contains_key(x)
                &&& self.scheduler.tasks.contains_key(x) ==> post.scheduler.tasks[x]
                    == self.scheduler.tasks[x]
                &&& post.scheduler.workers == self.scheduler.workers
                &&& post.scheduler.known_objects == self.scheduler.known_objects
                &&& post.scheduler.heartbeat_timeout == self.scheduler.heartbeat_timeout
                &&& post.objects == self.objects
                &&& post.actors == self.actors
                &&& post.actor_tasks == self.actor_tasks
            }),
    {
        lists_are_read_one_by_one(request.dependencies@, dependencies);
        self.scheduler.submission_keeps_the_description(
            model::submitted_task(request, dependencies, output, task),
            x,
        );
    }

    /// A submission is refused, and changes nothing, where its output is unreadable, or else for its
    /// first unreadable dependency, or else where its identifier is taken; the answer says so.
    pub proof fn submissions_are_refused(self, request: SubmitTaskRequest, task: u128, k: int)
        ensures
            ({
                let (post, r) = self.after_submit_task(request, task);
                let output = uuid_text::read_uuid(request.output_id@);
                let list = request.dependencies@;
                &&& r is Err ==> post == self
                &&& output is None ==> r == Err::<SubmittedView, StatusView>(
                    unreadable(request.output_id@),
                )
                &&& output is Some && first_unreadable(list, k) ==> r == Err::<
                    SubmittedView,
                    StatusView,
                >(unreadable(list[k]@))
                &&& output is Some && all_readable(list) && self.scheduler.tasks.contains_key(task)
                    ==> r == Err::<SubmittedView, StatusView>(taken(task))
            }),
    {
        lemma_lists_are_read_or_refused(request.dependencies@, k);
    }

    /// An actor that is created is of the type, takes the constructor's objects in their order and may
    /// be restarted as often as the request says; it lives with no worker. The answer names it. No
    /// other actor is touched, and nothing else changes.
    pub proof fn creations_are_taken_as_described(
        self,
        request: CreateActorRequest,
        id: u128,
        dependencies: Seq<u128>,
        a: u128,
    )
        requires
            uuid_text::read_uuid(request.actor_id@) == Some(id),
            dependencies.len() == request.constructor_dependencies@.len(),
            forall|i: int|
                0 <= i < dependencies.len() ==> uuid_text::read_uuid(
                    (#[trigger] request.constructor_dependencies@[i])@,
                ) == Some(dependencies[i]),
        ensures
            ({
                let (post, r) = self.after_create_actor(request);
                let actor = post.actors[id];
                &&& r == Ok::<Seq<char>, StatusView>(uuid_text::hyphenated_text(id))
                &&& post.actors.contains_key(id)
                &&& actor.spec.actor_id == id
                &&& actor.spec.actor_type == request.actor_type@
                &&& actor.spec.constructor_dependencies == dependencies
                &&& actor.spec.max_restarts == request.max_restarts
                &&& actor.owner_worker is None
                &&& a != id ==> post.actors.contains_key(a) == self.actors.contains_key(a)
                &&& a != id && self.actors.contains_key(a) ==> post.actors[a] == self.actors[a]
                &&& post.objects == self.objects
                &&& post.scheduler == self.scheduler
                &&& post.actor_tasks == self.actor_tasks
            }),
    {
        lists_are_read_one_by_one(request.constructor_dependencies@, dependencies);
    }

    /// The creation of an actor is refused, and changes nothing, where its identifier is unreadable, or
    /// else for the first unreadable object of the constructor; the answer says so.
    pub proof fn creations_are_refused(self, request: CreateActorRequest, k: int)
        ensures
            ({
                let (post, r) = self.after_create_actor(request);
                let id = uuid_text::read_uuid(request.actor_id@);
                let list = request.constructor_dependencies@;
                &&& r is Err ==> post == self
                &&& id is None ==> r == Err::<Seq<char>, StatusView>(unreadable(request.actor_id@))
                &&& id is Some && first_unreadable(list, k) ==> r == Err::<Seq<char>, StatusView>(
                    unreadable(list[k]@),
                )
            }),
    {
        lemma_lists_are_read_or_refused(request.constructor_dependencies@, k);
    }

    /// A call of an actor is scheduled under a name that holds the actor, its type and the method,
    /// with the output and the number of retries of the request. Where the actor lives with a worker,
    /// it is pinned to that worker and waits for the objects of the call; where it lives with none,
    /// it is pinned to none and waits for those of the constructor too. What is noted of the call
    /// names the actor, its type, the method, and the objects of the call and of the constructor, in
    /// their order. The answer names the task and its output. Nothing else changes.
    pub proof fn calls_are_taken_as_described(
        self,
        request: SubmitActorTaskRequest,
        task: u128,
        a: u128,
        dependencies: Seq<u128>,
        output: u128,
        x: u128,
    )
        requires
            self.wf(),
            uuid_text::read_uuid(request.actor_id@) == Some(a),
            uuid_text::read_uuid(request.output_id@) == Some(output),
            dependencies.len() == request.dependencies@.len(),
            forall|i: int|
                0 <= i < dependencies.len() ==> uuid_text::read_uuid(
                    (#[trigger] request.dependencies@[i])@,
                ) == Some(dependencies[i]),
            self.actors.contains_key(a),
            !self.scheduler.tasks.contains_key(task),
        ensures
            ({
                let (post, r) = self.after_submit_actor_task(request, task);
                let spec = post.scheduler.tasks[task].spec;
                let call = post.actor_tasks[task];
                let actor = self.actors[a];
                let ready = forall|i: int|
                    0 <= i < spec.dependencies.len() ==> self.scheduler.known_objects.contains(
                        #[trigger] spec.dependencies[i],
                    );
                &&& r == Ok::<SubmittedView, StatusView>(
                    SubmittedView {
                        task_id: uuid_text::hyphenated_text(task),
                        output_id: uuid_text::hyphenated_text(output),
                    },
                )
                &&& post.scheduler.tasks.contains_key(task)
                &&& spec.task_id == task
                &&& spec.function_id == "actor:"@ + uuid_text::hyphenated_text(a) + ":"@
                    + actor.spec.actor_type + ":"@ + request.method_id@
                &&& spec.output_id == output
                &&& spec.max_retries == request.max_retries
                &&& spec.attempt == 0
                &&& spec.target_worker == actor.owner_worker
                &&& actor.owner_worker is Some ==> spec.dependencies == dependencies
                &&& actor.owner_worker is None ==> spec.dependencies == dependencies
                    + actor.spec.constructor_dependencies
                &&& ready ==> {
                    &&& post.scheduler.tasks[task].state is Ready
                    &&& post.scheduler.ready == self.scheduler.ready.push(task)
                }
                &&& !ready ==> {
                    &&& post.scheduler.tasks[task].state is Pending
                    &&& post.scheduler.ready == self.scheduler.ready
                }
                &&& post.actor_tasks.contains_key(task)
                &&& call.actor_id == a
                &&& call.actor_type == actor.spec.actor_type
                &&& call.method_id == request.method_id@
                &&& call.dependencies == dependencies
                &&& call.constructor_dependencies == actor.spec.constructor_dependencies
                &&& x != task ==> {
                    &&& post.scheduler.tasks.contains_key(x) == self.scheduler.tasks.contains_key(x)
                    &&& post.actor_tasks.contains_key(x) == self.actor_tasks.contains_key(x)
                }
                &&& self.scheduler.tasks.contains_key(x) ==> post.scheduler.tasks[x]
                    == self.scheduler.tasks[x]
                &&& x != task && self.actor_tasks.contains_key(x) ==> post.actor_tasks[x]
                    == self.actor_tasks[x]
                &&& post.scheduler.workers == self.scheduler.workers
                &&& post.scheduler.known_objects == self.scheduler.known_objects
                &&& post.scheduler.heartbeat_timeout == self.scheduler.heartbeat_timeout
                &&& post.objects == self.objects
                &&& post.actors == self.actors
            }),
    {
        lists_are_read_one_by_one(request.dependencies@, dependencies);
        self.scheduler.submission_keeps_the_description(
            self.actor_call_task(a, request, dependencies, output, task),
            x,
        );
    }

    /// A call is refused, and changes nothing, where the actor's identifier is unreadable, or else where
    /// there is no such actor, or else where the output is unreadable, or else for the first unreadable
    /// dependency; the answer says so.
    pub proof fn calls_are_refused(self, request: SubmitActorTaskRequest, task: u128, k: int)
        ensures
            ({
                let (post, r) = self.after_submit_actor_task(request, task);
                let actor = uuid_text::read_uuid(request.actor_id@);
                let output = uuid_text::read_uuid(request.output_id@);
                let list = request.dependencies@;
                &&& actor is None ==> post == self && r == Err::<SubmittedView, StatusView>(
                    unreadable(request.actor_id@),
                )
                &&& actor matches Some(a) ==> {
                    &&& !self.actors.contains_key(a) ==> post == self && r == Err::<
                        SubmittedView,
                        StatusView,
                    >(
                        StatusView {
                            code: Code::NotFound,
                            message: "actor "@ + uuid_text::hyphenated_text(a) + " was not found"@,
                        },
                    )
                    &&& self.actors.contains_key(a) && output is None ==> post == self && r == Err::<
                        SubmittedView,
                        StatusView,
                    >(unreadable(request.output_id@))
                    &&& self.actors.contains_key(a) && output is Some && first_unreadable(list, k)
                        ==> post == self && r == Err::<SubmittedView, StatusView>(
                        unreadable(list[k]@),
                    )
                }
            }),
    {
        lemma_lists_are_read_or_refused(request.dependencies@, k);
    }

    /// A worker that announces itself has the slots of its announcement, and at least one; it was last
    /// heard of just then, holds no task, and is named in the answer. No other worker, no task and
    /// nothing else is touched. An unreadable announcement is refused.
    pub proof fn registrations_take_the_slots(
        self,
        request: RegisterWorkerRequest,
        now: Instant,
        v: u128,
    )
        ensures
            ({
                let (post, r) = self.after_register_worker(request, now);
                &&& uuid_text::read_uuid(request.worker_id@) is None ==> {
                    &&& post == self
                    &&& r == Err::<Seq<char>, StatusView>(unreadable(request.worker_id@))
                }
                &&& uuid_text::read_uuid(request.worker_id@) matches Some(w) ==> {
                    &&& r == Ok::<Seq<char>, StatusView>(uuid_text::hyphenated_text(w))
                    &&& post.scheduler.workers.contains_key(w)
                    &&& request.slots >= 1 ==> post.scheduler.workers[w].slots == request.slots
                    &&& request.slots == 0 ==> post.scheduler.workers[w].slots == 1
                    &&& post.scheduler.workers[w].last_heartbeat == now
                    &&& post.scheduler.workers[w].leased.len() == 0
                    &&& v != w ==> post.scheduler.workers.contains_key(v)
                        == self.scheduler.workers.contains_key(v)
                    &&& v != w && self.scheduler.workers.contains_key(v)
                        ==> post.scheduler.workers[v] == self.scheduler.workers[v]
                    &&& post.scheduler.tasks == self.scheduler.tasks
                    &&& post.scheduler.ready == self.scheduler.ready
                    &&& post.scheduler.known_objects == self.scheduler.known_objects
                    &&& post.scheduler.heartbeat_timeout == self.scheduler.heartbeat_timeout
                    &&& post.objects == self.objects
                    &&& post.actors == self.actors
                    &&& post.actor_tasks == self.actor_tasks
                }
            }),
    {
    }

    /// A sign of life moves the time at which its worker was last heard of, and nothing else. One of
    /// an unknown worker is granted and moves nothing; an unreadable one is refused.
    pub proof fn heartbeats_move_one_time(self, worker_id: Seq<char>, now: Instant, v: u128)
        ensures
            ({
                let (post, r) = self.after_heartbeat(worker_id, now);
                &&& uuid_text::read_uuid(worker_id) is None ==> {
                    &&& post == self
                    &&& r == Err::<(), StatusView>(unreadable(worker_id))
                }
                &&& uuid_text::read_uuid(worker_id) matches Some(w) ==> {
                    &&& r is Ok
                    &&& post.scheduler.workers.contains_key(v)
                        == self.scheduler.workers.contains_key(v)
                    &&& self.scheduler.workers.contains_key(v) ==> {
                        let was = self.scheduler.workers[v];
                        let left = post.scheduler.workers[v];
                        &&& left.slots == was.slots
                        &&& left.leased == was.leased
                        &&& v == w ==> left.last_heartbeat == now
                        &&& v != w ==> left.last_heartbeat == was.last_heartbeat
                    }
                    &&& post.scheduler.tasks == self.scheduler.tasks
                    &&& post.scheduler.ready == self.scheduler.ready
                    &&& post.scheduler.known_objects == self.scheduler.known_objects
                    &&& post.scheduler.heartbeat_timeout == self.scheduler.heartbeat_timeout
                    &&& post.objects == self.objects
                    &&& post.actors == self.actors
                    &&& post.actor_tasks == self.actor_tasks
                }
            }),
    {
    }
}

impl HeadView {
    /// A call under an identifier that is taken is refused: no task, no actor and no object changes.
    /// What is noted under the identifier is the call all the same.
    pub proof fn calls_under_a_taken_identifier_are_refused(
        self,
        request: SubmitActorTaskRequest,
        task: u128,
        a: u128,
        dependencies: Seq<u128>,
        x: u128,
    )
        requires
            self.scheduler.tasks.contains_key(task),
            uuid_text::read_uuid(request.actor_id@) == Some(a),
            self.actors.contains_key(a),
            uuid_text::read_uuid(request.output_id@) is Some,
            dependencies.len() == request.dependencies@.len(),
            forall|i: int|
                0 <= i < dependencies.len() ==> uuid_text::read_uuid(
                    (#[trigger] request.dependencies@[i])@,
                ) == Some(dependencies[i]),
        ensures
            ({
                let (post, r) = self.after_submit_actor_task(request, task);
                let call = post.actor_tasks[task];
                &&& r == Err::<SubmittedView, StatusView>(taken(task))
                &&& post.scheduler == self.scheduler
                &&& post.objects == self.objects
                &&& post.actors == self.actors
                &&& post.actor_tasks.contains_key(task)
                &&& call.actor_id == a
                &&& call.actor_type == self.actors[a].spec.actor_type
                &&& call.method_id == request.method_id@
                &&& call.dependencies == dependencies
                &&& call.constructor_dependencies == self.actors[a].spec.constructor_dependencies
                &&& x != task ==> post.actor_tasks.contains_key(x)
                    == self.actor_tasks.contains_key(x)
                &&& x != task && self.actor_tasks.contains_key(x) ==> post.actor_tasks[x]
                    == self.actor_tasks[x]
            }),
    {
        lists_are_read_one_by_one(request.dependencies@, dependencies);
    }

    /// When a worker is taken out, the tasks that it held are set back, as a scheduler does it, for the
    /// reason that the worker was unregistered. The actors that lived with it live with none; every
    /// other actor stays where it was. Taking out an unknown worker is granted and changes nothing; an
    /// unreadable request is refused.
    pub proof fn removals_take_out_one_worker(self, worker_id: Seq<char>, a: u128, t: u128, v: u128)
        requires
            self.wf(),
        ensures
            ({
                let (post, r) = self.after_unregister_worker(worker_id);
                &&& uuid_text::read_uuid(worker_id) is None ==> {
                    &&& post == self
                    &&& r == Err::<(), StatusView>(unreadable(worker_id))
                }
                &&& uuid_text::read_uuid(worker_id) matches Some(w) ==> {
                    let held = self.scheduler.workers[w].leased;
                    let was = self.scheduler.tasks[t];
                    let left = post.scheduler.tasks[t];
                    &&& r is Ok
                    &&& !self.scheduler.workers.contains_key(w) ==> post == self
                    &&& self.scheduler.workers.contains_key(w) ==> {
                        &&& post.scheduler.workers.contains_key(v)
                            <==> self.scheduler.workers.contains_key(v) && v != w
                        &&& self.scheduler.workers.contains_key(v) && v != w
                            ==> post.scheduler.workers[v] == self.scheduler.workers[v]
                        &&& post.scheduler.tasks.contains_key(t)
                            == self.scheduler.tasks.contains_key(t)
                        &&& self.scheduler.tasks.contains_key(t) ==> {
                            &&& left.spec.task_id == was.spec.task_id
                            &&& left.spec.function_id == was.spec.function_id
                            &&& left.spec.dependencies == was.spec.dependencies
                            &&& left.spec.output_id == was.spec.output_id
                            &&& left.spec.max_retries == was.spec.max_retries
                            &&& was.spec.target_worker == Some(w) ==> left.spec.target_worker is None
                            &&& was.spec.target_worker != Some(w) ==> left.spec.target_worker
                                == was.spec.target_worker
                            &&& !held.contains(t) ==> {
                                &&& left.spec.attempt == was.spec.attempt
                                &&& left.state == was.state
                            }
                            &&& held.contains(t) && was.spec.attempt < was.spec.max_retries ==> {
                                &&& left.spec.attempt == was.spec.attempt + 1
                                &&& left.state is Ready
                            }
                            &&& held.contains(t) && was.spec.attempt >= was.spec.max_retries ==> {
                                &&& left.spec.attempt == was.spec.attempt
                                &&& left.state == TaskStateView::Failed("worker unregistered"@)
                            }
                        }
                        &&& post.scheduler.ready == self.scheduler.ready + held.filter(
                            |x: u128|
                                self.scheduler.tasks[x].spec.attempt
                                    < self.scheduler.tasks[x].spec.max_retries,
                        )
                        &&& post.scheduler.known_objects == self.scheduler.known_objects
                        &&& post.scheduler.heartbeat_timeout == self.scheduler.heartbeat_timeout
                        &&& post.objects == self.objects
                        &&& post.actor_tasks == self.actor_tasks
                        &&& post.actors.contains_key(a) == self.actors.contains_key(a)
                        &&& self.actors.contains_key(a) ==> {
                            &&& post.actors[a].spec == self.actors[a].spec
                            &&& self.actors[a].owner_worker == Some(w)
                                ==> post.actors[a].owner_worker is None
                            &&& self.actors[a].owner_worker != Some(w)
                                ==> post.actors[a].owner_worker == self.actors[a].owner_worker
                        }
                    }
                }
            }),
    {
        if let Some(w) = uuid_text::read_uuid(worker_id) {
            if self.scheduler.workers.contains_key(w) {
                self.scheduler.removal_sets_back_what_the_worker_held(
                    w,
                    "worker unregistered"@,
                    t,
                    v,
                );
                if self.actors.contains_key(a) {
                    self.removal_releases_actors(w, "worker unregistered"@, a);
                }
            }
        }
    }

    /// When silent workers are given up, the actors that lived with one of them live with none, and
    /// every other actor stays where it was: one whose worker was not silent for too long keeps its
    /// home. Objects and what is noted of calls stay, and the tasks change as a scheduler that gives
    /// up on its silent workers has it.
    pub proof fn cleanups_release_the_actors_of_the_silent(
        self,
        now: Instant,
        report: Seq<ExpiryView>,
        post: HeadView,
        a: u128,
    )
        requires
            self.cleans_up(now, report, post),
        ensures
            self.scheduler.expires(now, report, post.scheduler),
            post.objects == self.objects,
            post.actor_tasks == self.actor_tasks,
            post.actors.contains_key(a) == self.actors.contains_key(a),
            self.actors.contains_key(a) ==> {
                &&& post.actors[a].spec == self.actors[a].spec
                &&& self.actors[a].owner_worker is None ==> post.actors[a].owner_worker is None
                &&& self.actors[a].owner_worker matches Some(w) ==> {
                    let silent = self.scheduler.workers.contains_key(w) && clock::elapsed_nanos(
                        now,
                        self.scheduler.workers[w].last_heartbeat,
                    ) > clock::duration_nanos(self.scheduler.heartbeat_timeout);
                    &&& silent ==> post.actors[a].owner_worker is None
                    &&& !silent ==> post.actors[a].owner_worker == Some(w)
                }
            },
    {
        let gone = model::reported(report);
        if let Some(w) = self.actors[a].owner_worker {
            self.scheduler.expiry_removes_the_silent(now, report, post.scheduler, w);
            assert(gone =~= report.map_values(|e: ExpiryView| e.worker_id));
            assert(gone.contains(w) <==> self.scheduler.silent(w, now));
        }
    }

    /// The worker that has a task may report its result: the bytes are stored under the output that
    /// the report names, the task is finished, and the scheduler takes the result as available. Any
    /// other worker is refused, and then nothing changes.
    pub proof fn results_are_taken_from_who_has_the_task(
        self,
        request: CompleteTaskRequest,
        post: HeadView,
        r: Result<(), StatusView>,
        w: u128,
        t: u128,
        output: u128,
        o: u128,
    )
        requires
            self.wf(),
            uuid_text::read_uuid(request.worker_id@) == Some(w),
            uuid_text::read_uuid(request.task_id@) == Some(t),
            uuid_text::read_uuid(request.output_id@) == Some(output),
            self.completes(request, post, r),
        ensures
            ({
                let entitled = self.scheduler.tasks.contains_key(t) && (self.scheduler.tasks[t].state
                    == TaskStateView::Leased(w) || self.scheduler.tasks[t].state
                    == TaskStateView::Running(w));
                &&& !entitled ==> {
                    &&& post == self
                    &&& r matches Err(status) && status.code == Code::FailedPrecondition
                        && status.message == if self.scheduler.tasks.contains_key(t) {
                        "scheduler error: "@ + ("task "@ + uuid_text::hyphenated_text(t)
                            + " is not owned by worker "@ + uuid_text::hyphenated_text(w))
                    } else {
                        "scheduler error: "@ + ("unknown task "@ + uuid_text::hyphenated_text(t))
                    }
                }
                &&& entitled ==> {
                    &&& r is Ok
                    &&& post.objects.contains_key(output)
                    &&& post.objects[output] == request.data@
                    &&& o != output ==> post.objects.contains_key(o) == self.objects.contains_key(o)
                    &&& o != output && self.objects.contains_key(o) ==> post.objects[o]
                        == self.objects[o]
                    &&& self.scheduler.completes(w, t, output, post.scheduler)
                    &&& post.scheduler.tasks[t].state is Finished
                    &&& post.scheduler.tasks[t].spec == self.scheduler.tasks[t].spec
                    &&& post.scheduler.known_objects.contains(o)
                        <==> self.scheduler.known_objects.contains(o) || o == output
                    &&& post.actors == self.actors
                    &&& post.actor_tasks == self.actor_tasks
                }
            }),
    {
        if self.scheduler.owns(w, t) {
            self.scheduler.completion_finishes_one_task(w, t, output, post.scheduler, t, w, 0, o);
        }
    }

    /// The worker that has a task may report that it could not do it: the task is tried again, as the
    /// last in the queue, where it has an attempt left, and otherwise has failed with the reported
    /// error. Any other worker is refused, and then nothing changes.
    pub proof fn failures_are_taken_from_who_has_the_task(
        self,
        request: FailTaskRequest,
        w: u128,
        t: u128,
        x: u128,
        v: u128,
        i: int,
    )
        requires
            self.wf(),
            uuid_text::read_uuid(request.worker_id@) == Some(w),
            uuid_text::read_uuid(request.task_id@) == Some(t),
        ensures
            ({
                let (post, r) = self.after_fail_task(request);
                let entitled = self.scheduler.tasks.contains_key(t) && (self.scheduler.tasks[t].state
                    == TaskStateView::Leased(w) || self.scheduler.tasks[t].state
                    == TaskStateView::Running(w));
                let was = self.scheduler.tasks[t].spec;
                let left = post.scheduler.tasks[t].spec;
                &&& !entitled ==> {
                    &&& post == self
                    &&& r matches Err(status) && status.code == Code::FailedPrecondition
                        && status.message == if self.scheduler.tasks.contains_key(t) {
                        "scheduler error: "@ + ("task "@ + uuid_text::hyphenated_text(t)
                            + " is not owned by worker "@ + uuid_text::hyphenated_text(w))
                    } else {
                        "scheduler error: "@ + ("unknown task "@ + uuid_text::hyphenated_text(t))
                    }
                }
                &&& entitled ==> {
                    &&& r is Ok
                    &&& left.task_id == was.task_id
                    &&& left.function_id == was.function_id
                    &&& left.dependencies == was.dependencies
                    &&& left.output_id == was.output_id
                    &&& left.target_worker == was.target_worker
                    &&& left.max_retries == was.max_retries
                    &&& was.attempt < was.max_retries ==> {
                        &&& left.attempt == was.attempt + 1
                        &&& post.scheduler.tasks[t].state is Ready
                        &&& post.scheduler.ready == self.scheduler.ready.push(t)
                    }
                    &&& was.attempt >= was.max_retries ==> {
                        &&& left.attempt == was.attempt
                        &&& post.scheduler.tasks[t].state == TaskStateView::Failed(request.error@)
                        &&& post.scheduler.ready == self.scheduler.ready
                    }
                    &&& post.scheduler.tasks.contains_key(x) == self.scheduler.tasks.contains_key(x)
                    &&& x != t && self.scheduler.tasks.contains_key(x) ==> post.scheduler.tasks[x]
                        == self.scheduler.tasks[x]
                    &&& post.scheduler.workers.contains_key(v)
                        == self.scheduler.workers.contains_key(v)
                    &&& self.scheduler.workers.contains_key(v) ==> {
                        let had = self.scheduler.workers[v];
                        let keeps = post.scheduler.workers[v];
                        &&& keeps.slots == had.slots
                        &&& keeps.last_heartbeat == had.last_heartbeat
                        &&& v != w || !had.leased.contains(t) ==> keeps.leased == had.leased
                        &&& v == w && 0 <= i < had.leased.len() && had.leased[i] == t ==> keeps.leased
                            == had.leased.remove(i)
                    }
                    &&& post.scheduler.known_objects == self.scheduler.known_objects
                    &&& post.scheduler.heartbeat_timeout == self.scheduler.heartbeat_timeout
                    &&& post.objects == self.objects
                    &&& post.actors == self.actors
                    &&& post.actor_tasks == self.actor_tasks
                }
            }),
    {
        if self.scheduler.owns(w, t) {
            self.scheduler.failure_sets_one_task_back(w, t, request.error@, x, v, i);
        }
    }

    /// A report is refused, and changes nothing, where the worker is unreadable, or else the task, or
    /// else, for a result, the output; the answer says so.
    pub proof fn unreadable_reports_are_refused(
        self,
        done: CompleteTaskRequest,
        post: HeadView,
        r: Result<(), StatusView>,
        failed: FailTaskRequest,
    )
        ensures
            self.completes(done, post, r) ==> {
                let worker = uuid_text::read_uuid(done.worker_id@);
                let task = uuid_text::read_uuid(done.task_id@);
                let output = uuid_text::read_uuid(done.output_id@);
                &&& r is Err ==> post == self
                &&& worker is None ==> r == Err::<(), StatusView>(unreadable(done.worker_id@))
                &&& worker is Some && task is None ==> r == Err::<(), StatusView>(
                    unreadable(done.task_id@),
                )
                &&& worker is Some && task is Some && output is None ==> r == Err::<(), StatusView>(
                    unreadable(done.output_id@),
                )
            },
            ({
                let (post, r) = self.after_fail_task(failed);
                let worker = uuid_text::read_uuid(failed.worker_id@);
                let task = uuid_text::read_uuid(failed.task_id@);
                &&& r is Err ==> post == self
                &&& worker is None ==> r == Err::<(), StatusView>(unreadable(failed.worker_id@))
                &&& worker is Some && task is None ==> r == Err::<(), StatusView>(
                    unreadable(failed.task_id@),
                )
            }),
    {
    }
}

/// A list of texts that all name something is read, and another one is refused for its first text that
/// names nothing.
proof fn lemma_lists_are_read_or_refused(list: Seq<String>, k: int)
    ensures
        all_readable(list) ==> model::read_ids(messages::texts(list)) is Ok,
        first_unreadable(list, k) ==> model::read_ids(messages::texts(list)) == Err::<
            Seq<u128>,
            StatusView,
        >(unreadable(list[k]@)),
{
    if all_readable(list) {
        let ids = Seq::new(list.len(), |i: int| uuid_text::read_uuid(list[i]@)->Some_0);
        lists_are_read_one_by_one(list, ids);
    }
    if first_unreadable(list, k) {
        lists_are_refused_for_the_first_unreadable_text(list, k);
    }
}

/// The text of an identifier is its hyphenated one, and the texts of a list of identifiers stand in
/// the order of the list.
pub proof fn texts_of_identifiers_stand_in_order(ids: Seq<u128>, i: int)
    ensures
        model::id_texts(ids).len() == ids.len(),
        0 <= i < ids.len() ==> model::id_texts(ids)[i] == uuid_text::hyphenated_text(ids[i]),
        0 <= i < ids.len() ==> model::id_text(ids[i]) == uuid_text::hyphenated_text(ids[i]),
{
}

/// The content of an answer is that of its fields, and that of a refusal is the refusal.
pub proof fn answers_show_their_fields<T>(
    task: Result<SubmitTaskResponse, Status>,
    call: Result<SubmitActorTaskResponse, Status>,
    leases: Result<PollTaskResponse, Status>,
    report: Result<T, Status>,
    i: int,
)
    ensures
        match task {
            Ok(response) => super::submitted(task) matches Ok(view) && view.task_id
                == response.task_id@ && view.output_id == response.output_id@,
            Err(status) => super::submitted(task) matches Err(view) && view.code == status.code
                && view.message == status.message@,
        },
        match call {
            Ok(response) => super::called(call) matches Ok(view) && view.task_id == response.task_id@
                && view.output_id == response.output_id@,
            Err(status) => super::called(call) matches Err(view) && view.code == status.code
                && view.message == status.message@,
        },
        match leases {
            Ok(response) => {
                &&& super::leased(leases) matches Ok(views)
                &&& views.len() == response.tasks@.len()
                &&& 0 <= i < views.len() ==> views[i] == response.tasks@[i]@
            },
            Err(status) => super::leased(leases) matches Err(view) && view.code == status.code
                && view.message == status.message@,
        },
        match report {
            Ok(_) => super::granted(report) is Ok,
            Err(status) => super::granted(report) matches Err(view) && view.code == status.code
                && view.message == status.message@,
        },
{
}

} // verus!
