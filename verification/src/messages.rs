//! What clients and workers ask of the head node, and what it answers.
use crate::error::{ErrorView, MiniRayError};
use vstd::prelude::*;

verus! {

/// Asks to store bytes under an identifier.
#[derive(Clone, Debug, PartialEq, Eq)]
pub struct PutObjectRequest {
    pub object_id: String,
    pub data: Vec<u8>,
}

/// Says under which identifier the bytes were stored.
#[derive(Clone, Debug, PartialEq, Eq)]
pub struct PutObjectResponse {
    pub object_id: String,
}

/// Asks for the bytes of an object.
#[derive(Clone, Debug, PartialEq, Eq)]
pub struct GetObjectRequest {
    pub object_id: String,
}

/// The bytes of an object.
#[derive(Clone, Debug, PartialEq, Eq)]
pub struct GetObjectResponse {
    pub object_id: String,
    pub data: Vec<u8>,
}

/// Asks to run a function.
#[derive(Clone, Debug, PartialEq, Eq)]
pub struct SubmitTaskRequest {
    pub function_id: String,
    pub dependencies: Vec<String>,
    pub output_id: String,
    pub max_retries: u32,
}

/// Says as which task the function will run.
#[derive(Clone, Debug, PartialEq, Eq)]
pub struct SubmitTaskResponse {
    pub task_id: String,
    pub output_id: String,
}

/// Asks to create an actor.
#[derive(Clone, Debug, PartialEq, Eq)]
pub struct CreateActorRequest {
    pub actor_type: String,
    pub constructor_dependencies: Vec<String>,
    pub actor_id: String,
    pub max_restarts: u32,
}

/// Says as which actor it was created.
#[derive(Clone, Debug, PartialEq, Eq)]
pub struct CreateActorResponse {
    pub actor_id: String,
}

/// Asks to call a method of an actor.
#[derive(Clone, Debug, PartialEq, Eq)]
pub struct SubmitActorTaskRequest {
    pub actor_id: String,
    pub method_id: String,
    pub dependencies: Vec<String>,
    pub output_id: String,
    pub max_retries: u32,
}

/// Says as which task the method will run.
#[derive(Clone, Debug, PartialEq, Eq)]
pub struct SubmitActorTaskResponse {
    pub task_id: String,
    pub output_id: String,
}

/// Announces a worker.
#[derive(Clone, Debug, PartialEq, Eq)]
pub struct RegisterWorkerRequest {
    pub worker_id: String,
    pub slots: u32,
}

/// Says as which worker it was registered.
#[derive(Clone, Debug, PartialEq, Eq)]
pub struct RegisterWorkerResponse {
    pub worker_id: String,
}

/// Takes a worker out.
#[derive(Clone, Debug, PartialEq, Eq)]
pub struct UnregisterWorkerRequest {
    pub worker_id: String,
}

/// The worker is out.
#[derive(Clone, Debug, PartialEq, Eq)]
pub struct UnregisterWorkerResponse {}

/// Asks for tasks to run.
#[derive(Clone, Debug, PartialEq, Eq)]
pub struct PollTaskRequest {
    pub worker_id: String,
    pub capacity: u32,
}

/// A task that a worker is to run. Where `actor_id` is not empty, it is a call of an actor's method.
#[derive(Debug, PartialEq, Eq)]
pub struct TaskLease {
    pub task_id: String,
    pub function_id: String,
    pub dependencies: Vec<String>,
    pub output_id: String,
    pub attempt: u32,
    pub actor_id: String,
    pub actor_type: String,
    pub method_id: String,
    pub constructor_dependencies: Vec<String>,
}

/// The content of a [`TaskLease`].
#[verifier::ext_equal]
pub struct LeaseView {
    pub task_id: Seq<char>,
    pub function_id: Seq<char>,
    pub dependencies: Seq<Seq<char>>,
    pub output_id: Seq<char>,
    pub attempt: u32,
    pub actor_id: Seq<char>,
    pub actor_type: Seq<char>,
    pub method_id: Seq<char>,
    pub constructor_dependencies: Seq<Seq<char>>,
}

/// The contents of a list of texts.
pub open spec fn texts(list: Seq<String>) -> Seq<Seq<char>> {
    list.map_values(|text: String| text@)
}

impl View for TaskLease {
    type V = LeaseView;

    open spec fn view(&self) -> LeaseView {
        LeaseView {
            task_id: self.task_id@,
            function_id: self.function_id@,
            dependencies: texts(self.dependencies@),
            output_id: self.output_id@,
            attempt: self.attempt,
            actor_id: self.actor_id@,
            actor_type: self.actor_type@,
            method_id: self.method_id@,
            constructor_dependencies: texts(self.constructor_dependencies@),
        }
    }
}

/// A list of texts, copied.
pub fn copy_texts(list: &Vec<String>) -> (copy: Vec<String>)
    ensures
        copy@ == list@,
{
    let mut copy: Vec<String> = Vec::new();
    let n = list.len();
    for i in 0..n
        invariant
            n == list@.len(),
            copy@ == list@.take(i as int),
    {
        copy.push(list[i].clone());
        assert(list@.take(i + 1) =~= list@.take(i as int).push(list@[i as int]));
    }
    assert(list@.take(n as int) =~= list@);
    copy
}

impl Clone for TaskLease {
    fn clone(&self) -> (copy: Self)
        ensures
            copy@ == self@,
    {
        TaskLease {
            task_id: self.task_id.clone(),
            function_id: self.function_id.clone(),
            dependencies: copy_texts(&self.dependencies),
            output_id: self.output_id.clone(),
            attempt: self.attempt,
            actor_id: self.actor_id.clone(),
            actor_type: self.actor_type.clone(),
            method_id: self.method_id.clone(),
            constructor_dependencies: copy_texts(&self.constructor_dependencies),
        }
    }
}

/// The tasks that a worker is to run.
#[derive(Debug, PartialEq, Eq)]
pub struct PollTaskResponse {
    pub tasks: Vec<TaskLease>,
}

/// The contents of a list of leases.
pub open spec fn lease_views(leases: Seq<TaskLease>) -> Seq<LeaseView> {
    leases.map_values(|lease: TaskLease| lease@)
}

/// Reports that a task is done, with its result.
#[derive(Clone, Debug, PartialEq, Eq)]
pub struct CompleteTaskRequest {
    pub worker_id: String,
    pub task_id: String,
    pub output_id: String,
    pub data: Vec<u8>,
}

/// The result was taken.
#[derive(Clone, Debug, PartialEq, Eq)]
pub struct CompleteTaskResponse {}

/// Reports that a task could not be done.
#[derive(Clone, Debug, PartialEq, Eq)]
pub struct FailTaskRequest {
    pub worker_id: String,
    pub task_id: String,
    pub error: String,
}

/// The failure was noted.
#[derive(Clone, Debug, PartialEq, Eq)]
pub struct FailTaskResponse {}

/// Says that a worker is alive.
#[derive(Clone, Debug, PartialEq, Eq)]
pub struct HeartbeatRequest {
    pub worker_id: String,
    pub running: u32,
    pub queued: u32,
}

/// The sign of life was noted.
#[derive(Clone, Debug, PartialEq, Eq)]
pub struct HeartbeatResponse {}

/// Why the head node refuses a request.
#[derive(Clone, Copy, Debug, PartialEq, Eq, Structural)]
pub enum Code {
    /// Something in the request cannot be read.
    InvalidArgument,
    /// The request names something that does not exist.
    NotFound,
    /// The request does not fit the state of the system.
    FailedPrecondition,
}

/// A refusal.
#[derive(Clone, Debug, PartialEq, Eq)]
pub struct Status {
    pub code: Code,
    pub message: String,
}

/// The content of a [`Status`].
#[verifier::ext_equal]
pub struct StatusView {
    pub code: Code,
    pub message: Seq<char>,
}

impl View for Status {
    type V = StatusView;

    open spec fn view(&self) -> StatusView {
        StatusView { code: self.code, message: self.message@ }
    }
}

/// The refusal that stands for an error.
pub open spec fn status_of(error: ErrorView) -> StatusView {
    StatusView {
        code: match error {
            ErrorView::MissingObject(_) => Code::NotFound,
            ErrorView::Encode(_) | ErrorView::Decode(_) => Code::InvalidArgument,
            ErrorView::TaskFailed(_) | ErrorView::Scheduler(_) | ErrorView::Transport(_) => {
                Code::FailedPrecondition
            },
        },
        message: error.text(),
    }
}

/// The refusal that stands for an error.
pub fn status_from_error(error: MiniRayError) -> (status: Status)
    ensures
        status@ == status_of(error@),
{
    let message = error.to_string();
    let code = match error {
        MiniRayError::MissingObject(_) => Code::NotFound,
        MiniRayError::Decode(_) | MiniRayError::Encode(_) => Code::InvalidArgument,
        MiniRayError::Scheduler(_)
        | MiniRayError::TaskFailed(_)
        | MiniRayError::Transport(_) => Code::FailedPrecondition,
    };
    Status { code, message }
}

/// The refusal for an error holds the error in words, under a code that tells what is missing from
/// what cannot be read and from what does not fit.
pub proof fn refusals_tell_errors_apart(error: ErrorView)
    ensures
        status_of(error).message == error.text(),
        status_of(error).code == Code::NotFound <==> error is MissingObject,
        status_of(error).code == Code::InvalidArgument <==> error is Encode || error is Decode,
        status_of(error).code == Code::FailedPrecondition <==> error is TaskFailed
            || error is Scheduler || error is Transport,
{
}

/// The contents of a list of texts are those of its texts, in order.
pub proof fn texts_stand_in_order(list: Seq<String>, i: int)
    ensures
        texts(list).len() == list.len(),
        0 <= i < list.len() ==> texts(list)[i] == list[i]@,
{
}

/// The contents of a list of leases are those of its leases, in order.
pub proof fn leases_stand_in_order(leases: Seq<TaskLease>, i: int)
    ensures
        lease_views(leases).len() == leases.len(),
        0 <= i < leases.len() ==> lease_views(leases)[i] == leases[i]@,
{
}

/// The content of a lease is that of its fields, one by one.
pub proof fn leases_show_their_fields(lease: TaskLease, i: int)
    ensures
        lease@.task_id == lease.task_id@,
        lease@.function_id == lease.function_id@,
        lease@.output_id == lease.output_id@,
        lease@.attempt == lease.attempt,
        lease@.actor_id == lease.actor_id@,
        lease@.actor_type == lease.actor_type@,
        lease@.method_id == lease.method_id@,
        lease@.dependencies.len() == lease.dependencies@.len(),
        0 <= i < lease.dependencies@.len() ==> lease@.dependencies[i] == lease.dependencies@[i]@,
        lease@.constructor_dependencies.len() == lease.constructor_dependencies@.len(),
        0 <= i < lease.constructor_dependencies@.len() ==> lease@.constructor_dependencies[i]
            == lease.constructor_dependencies@[i]@,
{
}

} // verus!
