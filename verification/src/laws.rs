//! What holds of clients, head node and workers together.
use crate::client;
use crate::codec;
use crate::error::{ErrorView, MiniRayError};
use crate::head::laws;
use crate::head::model::{self, ActorTaskView, HeadView, SubmittedView};
use crate::ids::WorkerId;
use crate::messages::{
    self, LeaseView, PollTaskRequest, PutObjectRequest, StatusView, SubmitActorTaskRequest,
    SubmitTaskRequest,
};
use crate::task::TaskSpecView;
use crate::uuid_text;
use crate::worker::{self, Report, TaskExecution};
use serde::de::DeserializeOwned;
use serde::Serialize;
use std::time::Instant;
use vstd::prelude::*;

verus! {

/// A client reads the text of an identifier in an answer as that identifier.
pub proof fn answers_name_their_identifiers(id: u128)
    ensures
        client::read_answer(model::id_text(id)) == Ok::<u128, ErrorView>(id),
{
    uuid_text::text_reads_back(id);
}

/// A client that puts a value and then gets it has it back, where the serialisation and the
/// deserialisation of its type agree on it.
pub proof fn values_survive_the_head_node<T: Serialize + DeserializeOwned>(
    value: T,
    id: u128,
    request: PutObjectRequest,
    before: HeadView,
    after: HeadView,
    data: Seq<u8>,
    r: Result<T, MiniRayError>,
)
    requires
        codec::agrees(value),
        codec::may_encode(value, Ok(request.data)),
        before.puts(id, request.data@, after),
        after.object(model::id_text(id)) == Ok::<(Seq<char>, Seq<u8>), StatusView>(
            (model::id_text(id), data),
        ),
        codec::may_decode(data, r),
    ensures
        r == Ok::<T, MiniRayError>(value),
{
    laws::texts_name_their_identifiers(id);
    codec::decoding_undoes_encoding(value, request.data, r);
}

/// A task that a client submits is scheduled as the client describes it, and the client's reference
/// is to the task's output.
pub proof fn submissions_arrive(
    head: HeadView,
    request: SubmitTaskRequest,
    dependencies: Seq<u128>,
    output: u128,
    task: u128,
)
    requires
        messages::texts(request.dependencies@) == model::id_texts(dependencies),
        request.output_id@ == model::id_text(output),
        !head.scheduler.tasks.contains_key(task),
    ensures
        head.after_submit_task(request, task) == (
            head.with_scheduler(
                head.scheduler.after_submit(
                    model::submitted_task(request, dependencies, output, task),
                ),
            ),
            Ok::<SubmittedView, StatusView>(
                SubmittedView { task_id: model::id_text(task), output_id: model::id_text(output) },
            ),
        ),
        client::read_submission(model::id_text(task), model::id_text(output)) == Ok::<
            u128,
            ErrorView,
        >(output),
{
    laws::lists_of_texts_name_their_identifiers(dependencies);
    laws::texts_name_their_identifiers(output);
    answers_name_their_identifiers(task);
    answers_name_their_identifiers(output);
}

/// A call that a client makes of an actor that exists is scheduled, and the client's reference is to
/// the call's output.
pub proof fn calls_arrive(
    head: HeadView,
    request: SubmitActorTaskRequest,
    a: u128,
    dependencies: Seq<u128>,
    output: u128,
    task: u128,
)
    requires
        head.actors.contains_key(a),
        request.actor_id@ == model::id_text(a),
        messages::texts(request.dependencies@) == model::id_texts(dependencies),
        request.output_id@ == model::id_text(output),
        !head.scheduler.tasks.contains_key(task),
    ensures
        ({
            let (after, answer) = head.after_submit_actor_task(request, task);
            &&& answer == Ok::<SubmittedView, StatusView>(
                SubmittedView { task_id: model::id_text(task), output_id: model::id_text(output) },
            )
            &&& after.scheduler == head.scheduler.after_submit(
                head.actor_call_task(a, request, dependencies, output, task),
            )
            &&& after.call_of(task) == Some(head.actor_call(a, request.method_id@, dependencies))
        }),
        client::read_submission(model::id_text(task), model::id_text(output)) == Ok::<
            u128,
            ErrorView,
        >(output),
{
    laws::lists_of_texts_name_their_identifiers(dependencies);
    laws::texts_name_their_identifiers(output);
    laws::texts_name_their_identifiers(a);
    answers_name_their_identifiers(task);
    answers_name_their_identifiers(output);
}

/// What a worker makes of a task that it has is what a client gets as the task's output.
pub proof fn results_arrive(
    before: HeadView,
    w: WorkerId,
    spec: TaskSpecView,
    call: Option<ActorTaskView>,
    data: Vec<u8>,
    execution: Result<TaskExecution, MiniRayError>,
    report: Report,
    after: HeadView,
    r: Result<(), StatusView>,
)
    requires
        before.scheduler.owns(w@, spec.task_id),
        worker::executed(model::lease_of(spec, call), Ok(data), execution),
        worker::reports(w, model::lease_of(spec, call), execution, report),
        report matches Report::Complete(request) ==> before.completes(request, after, r),
    ensures
        report is Complete,
        r is Ok,
        after.scheduler.tasks[spec.task_id].state is Finished,
        after.object(model::id_text(spec.output_id)) == Ok::<(Seq<char>, Seq<u8>), StatusView>(
            (model::id_text(spec.output_id), data@),
        ),
{
    if let Report::Complete(request) = report {
        before.reports_are_taken(w@, spec, call, request, after, r);
    }
}

/// A task is given to a worker as it was submitted, whenever that is: the lease names the function, the
/// dependencies in their order and the output of the submission.
pub proof fn tasks_are_leased_as_they_were_submitted(
    head: HeadView,
    request: SubmitTaskRequest,
    dependencies: Seq<u128>,
    output: u128,
    task: u128,
    later: HeadView,
    poll: PollTaskRequest,
    w: u128,
    now: Instant,
    post: HeadView,
    leases: Seq<LeaseView>,
    i: int,
    j: int,
)
    requires
        uuid_text::read_uuid(request.output_id@) == Some(output),
        dependencies.len() == request.dependencies@.len(),
        forall|k: int|
            0 <= k < dependencies.len() ==> uuid_text::read_uuid(
                (#[trigger] request.dependencies@[k])@,
            ) == Some(dependencies[k]),
        head.after_submit_task(request, task).1 is Ok,
        head.after_submit_task(request, task).0.evolves(later),
        later.wf(),
        !later.actor_tasks.contains_key(task),
        uuid_text::read_uuid(poll.worker_id@) == Some(w),
        later.polls(poll, now, post, Ok(leases)),
        0 <= i < leases.len(),
        leases[i].task_id == uuid_text::hyphenated_text(task),
    ensures
        leases[i].function_id == request.function_id@,
        leases[i].output_id == uuid_text::hyphenated_text(output),
        leases[i].actor_id.len() == 0,
        leases[i].dependencies.len() == request.dependencies@.len(),
        0 <= j < leases[i].dependencies.len() ==> leases[i].dependencies[j]
            == uuid_text::hyphenated_text(dependencies[j]),
{
    head.submissions_are_refused(request, task, 0);
    head.submissions_are_taken_as_described(request, task, dependencies, output, task);
    later.polls_tell_what_the_tasks_are(poll, now, post, leases, w, i, j);
    let t = post.scheduler.workers[w].leased[later.scheduler.workers[w].leased.len() + i];
    uuid_text::hyphenated_text_injective(t, task);
}

/// A call of an actor is given to a worker as it was made, whenever that is: the lease names the actor,
/// its type, the method, the dependencies of the call and those of the constructor in their order, and
/// the output.
pub proof fn calls_are_leased_as_they_were_made(
    head: HeadView,
    request: SubmitActorTaskRequest,
    a: u128,
    dependencies: Seq<u128>,
    output: u128,
    task: u128,
    later: HeadView,
    poll: PollTaskRequest,
    w: u128,
    now: Instant,
    post: HeadView,
    leases: Seq<LeaseView>,
    i: int,
    j: int,
)
    requires
        head.wf(),
        uuid_text::read_uuid(request.actor_id@) == Some(a),
        uuid_text::read_uuid(request.output_id@) == Some(output),
        dependencies.len() == request.dependencies@.len(),
        forall|k: int|
            0 <= k < dependencies.len() ==> uuid_text::read_uuid(
                (#[trigger] request.dependencies@[k])@,
            ) == Some(dependencies[k]),
        head.actors.contains_key(a),
        !head.scheduler.tasks.contains_key(task),
        head.after_submit_actor_task(request, task).0.evolves(later),
        later.wf(),
        later.actor_tasks[task] == head.after_submit_actor_task(request, task).0.actor_tasks[task],
        uuid_text::read_uuid(poll.worker_id@) == Some(w),
        later.polls(poll, now, post, Ok(leases)),
        0 <= i < leases.len(),
        leases[i].task_id == uuid_text::hyphenated_text(task),
    ensures
        ({
            let lease = leases[i];
            let constructor = head.actors[a].spec.constructor_dependencies;
            &&& lease.actor_id == uuid_text::hyphenated_text(a)
            &&& lease.actor_type == head.actors[a].spec.actor_type
            &&& lease.method_id == request.method_id@
            &&& lease.output_id == uuid_text::hyphenated_text(output)
            &&& lease.dependencies.len() == request.dependencies@.len()
            &&& 0 <= j < lease.dependencies.len() ==> lease.dependencies[j]
                == uuid_text::hyphenated_text(dependencies[j])
            &&& lease.constructor_dependencies.len() == constructor.len()
            &&& 0 <= j < constructor.len() ==> lease.constructor_dependencies[j]
                == uuid_text::hyphenated_text(constructor[j])
        }),
{
    head.calls_are_taken_as_described(request, task, a, dependencies, output, task);
    later.polls_tell_what_the_tasks_are(poll, now, post, leases, w, i, j);
    let t = post.scheduler.workers[w].leased[later.scheduler.workers[w].leased.len() + i];
    uuid_text::hyphenated_text_injective(t, task);
}

/// A worker whose slots are all taken is given nothing. By a poll, one that held nothing comes to hold at
/// most as many tasks as it asked for, and one that held some within its slots stays within them.
pub proof fn full_workers_are_given_nothing(
    head: HeadView,
    poll: PollTaskRequest,
    w: u128,
    now: Instant,
    post: HeadView,
    leases: Seq<LeaseView>,
)
    requires
        head.wf(),
        uuid_text::read_uuid(poll.worker_id@) == Some(w),
        head.polls(poll, now, post, Ok(leases)),
    ensures
        ({
            let held = head.scheduler.workers[w].leased.len();
            let slots = head.scheduler.workers[w].slots;
            &&& held >= slots ==> leases.len() == 0
            &&& post.scheduler.workers[w].leased.len() == held + leases.len()
            &&& held == 0 ==> post.scheduler.workers[w].leased.len() <= poll.capacity
            &&& 0 < held <= slots ==> post.scheduler.workers[w].leased.len() <= slots
        }),
{
    head.polls_stay_within_what_is_asked_for(poll, now, post, leases, w, 0);
    head.polls_tell_what_the_tasks_are(poll, now, post, leases, w, 0, 0);
    head.polls_are_granted_to_registered_workers(poll, now, post, Ok(leases));
}

} // verus!
