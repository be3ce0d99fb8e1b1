//! Descriptions of tasks, actors and actor method calls.
use crate::ids::{ActorId, ObjectId, TaskId, WorkerId};
use crate::uuid_text;
use vstd::prelude::*;

verus! {

/// The numbers of a list of object identifiers.
pub open spec fn object_numbers(ids: Seq<ObjectId>) -> Seq<u128> {
    ids.map_values(|id: ObjectId| id@)
}

/// A list of object identifiers, copied.
pub fn copy_ids(ids: &Vec<ObjectId>) -> (copy: Vec<ObjectId>)
    ensures
        copy@ == ids@,
{
    let copy = ids.clone();
    assert(copy@ =~= ids@);
    copy
}

/// A task: which function to run, on which objects, and where its result goes.
#[derive(Debug, PartialEq, Eq)]
pub struct TaskSpec {
    pub task_id: TaskId,
    pub function_id: String,
    /// The objects that have to be available before the task may run.
    pub dependencies: Vec<ObjectId>,
    pub output_id: ObjectId,
    /// The one worker that may run the task, if it is pinned to one.
    pub target_worker: Option<WorkerId>,
    /// How many times the task may be tried again.
    pub max_retries: u32,
    /// How many times it has been tried again.
    pub attempt: u32,
}

/// The content of a [`TaskSpec`].
#[verifier::ext_equal]
pub struct TaskSpecView {
    pub task_id: u128,
    pub function_id: Seq<char>,
    pub dependencies: Seq<u128>,
    pub output_id: u128,
    pub target_worker: Option<u128>,
    pub max_retries: u32,
    pub attempt: u32,
}

/// The number of an optional worker identifier.
pub open spec fn worker_number(worker: Option<WorkerId>) -> Option<u128> {
    match worker {
        Some(id) => Some(id@),
        None => None,
    }
}

impl View for TaskSpec {
    type V = TaskSpecView;

    open spec fn view(&self) -> TaskSpecView {
        TaskSpecView {
            task_id: self.task_id@,
            function_id: self.function_id@,
            dependencies: object_numbers(self.dependencies@),
            output_id: self.output_id@,
            target_worker: worker_number(self.target_worker),
            max_retries: self.max_retries,
            attempt: self.attempt,
        }
    }
}

impl TaskSpec {
    /// A task with a fresh identifier, pinned to no worker, that may be tried again once.
    pub fn new(function_id: &str, dependencies: Vec<ObjectId>, output_id: ObjectId) -> (spec: Self)
        ensures
            spec@ == fresh_task(
                spec@.task_id,
                function_id@,
                object_numbers(dependencies@),
                output_id@,
            ),
            uuid_text::may_draw(spec@.task_id),
            spec@.task_id & 0xf000_c000_0000_0000_0000 == 0x4000_8000_0000_0000_0000,
    {
        Self::with_id(TaskId::new(), function_id, dependencies, output_id)
    }

    /// The task that [`TaskSpec::new`] makes when it draws `task_id`.
    pub fn with_id(
        task_id: TaskId,
        function_id: &str,
        dependencies: Vec<ObjectId>,
        output_id: ObjectId,
    ) -> (spec: Self)
        ensures
            spec@ == fresh_task(
                task_id@,
                function_id@,
                object_numbers(dependencies@),
                output_id@,
            ),
    {
        TaskSpec {
            task_id,
            function_id: function_id.to_owned(),
            dependencies,
            output_id,
            target_worker: None,
            max_retries: 1,
            attempt: 0,
        }
    }
}

/// A task as it is first described: pinned to no worker, to be tried again at most once.
pub open spec fn fresh_task(
    task_id: u128,
    function_id: Seq<char>,
    dependencies: Seq<u128>,
    output_id: u128,
) -> TaskSpecView {
    TaskSpecView {
        task_id,
        function_id,
        dependencies,
        output_id,
        target_worker: None,
        max_retries: 1,
        attempt: 0,
    }
}

impl Clone for TaskSpec {
    fn clone(&self) -> (copy: Self)
        ensures
            copy@ == self@,
    {
        TaskSpec {
            task_id: self.task_id,
            function_id: self.function_id.clone(),
            dependencies: copy_ids(&self.dependencies),
            output_id: self.output_id,
            target_worker: self.target_worker,
            max_retries: self.max_retries,
            attempt: self.attempt,
        }
    }
}

/// An actor: its type and the objects that its constructor takes.
#[derive(Debug, PartialEq, Eq)]
pub struct ActorSpec {
    pub actor_id: ActorId,
    pub actor_type: String,
    pub constructor_dependencies: Vec<ObjectId>,
    pub max_restarts: u32,
}

/// The content of an [`ActorSpec`].
#[verifier::ext_equal]
pub struct ActorSpecView {
    pub actor_id: u128,
    pub actor_type: Seq<char>,
    pub constructor_dependencies: Seq<u128>,
    pub max_restarts: u32,
}

impl View for ActorSpec {
    type V = ActorSpecView;

    open spec fn view(&self) -> ActorSpecView {
        ActorSpecView {
            actor_id: self.actor_id@,
            actor_type: self.actor_type@,
            constructor_dependencies: object_numbers(self.constructor_dependencies@),
            max_restarts: self.max_restarts,
        }
    }
}

impl ActorSpec {
    /// An actor with a fresh identifier, that is not to be restarted.
    pub fn new(actor_type: &str, constructor_dependencies: Vec<ObjectId>) -> (spec: Self)
        ensures
            spec@ == (ActorSpecView {
                actor_id: spec@.actor_id,
                actor_type: actor_type@,
                constructor_dependencies: object_numbers(constructor_dependencies@),
                max_restarts: 0,
            }),
            uuid_text::may_draw(spec@.actor_id),
            spec@.actor_id & 0xf000_c000_0000_0000_0000 == 0x4000_8000_0000_0000_0000,
    {
        ActorSpec {
            actor_id: ActorId::new(),
            actor_type: actor_type.to_owned(),
            constructor_dependencies,
            max_restarts: 0,
        }
    }
}

impl Clone for ActorSpec {
    fn clone(&self) -> (copy: Self)
        ensures
            copy@ == self@,
    {
        ActorSpec {
            actor_id: self.actor_id,
            actor_type: self.actor_type.clone(),
            constructor_dependencies: copy_ids(&self.constructor_dependencies),
            max_restarts: self.max_restarts,
        }
    }
}

/// A method call on an actor.
#[derive(Debug, PartialEq, Eq)]
pub struct ActorTaskSpec {
    pub task_id: TaskId,
    pub actor_id: ActorId,
    pub method_id: String,
    pub dependencies: Vec<ObjectId>,
    pub output_id: ObjectId,
    pub max_retries: u32,
    pub attempt: u32,
}

/// The content of an [`ActorTaskSpec`].
#[verifier::ext_equal]
pub struct ActorTaskSpecView {
    pub task_id: u128,
    pub actor_id: u128,
    pub method_id: Seq<char>,
    pub dependencies: Seq<u128>,
    pub output_id: u128,
    pub max_retries: u32,
    pub attempt: u32,
}

impl View for ActorTaskSpec {
    type V = ActorTaskSpecView;

    open spec fn view(&self) -> ActorTaskSpecView {
        ActorTaskSpecView {
            task_id: self.task_id@,
            actor_id: self.actor_id@,
            method_id: self.method_id@,
            dependencies: object_numbers(self.dependencies@),
            output_id: self.output_id@,
            max_retries: self.max_retries,
            attempt: self.attempt,
        }
    }
}

impl ActorTaskSpec {
    /// A method call with a fresh identifier, that may be tried again once.
    pub fn new(
        actor_id: ActorId,
        method_id: &str,
        dependencies: Vec<ObjectId>,
        output_id: ObjectId,
    ) -> (spec: Self)
        ensures
            spec@ == (ActorTaskSpecView {
                task_id: spec@.task_id,
                actor_id: actor_id@,
                method_id: method_id@,
                dependencies: object_numbers(dependencies@),
                output_id: output_id@,
                max_retries: 1,
                attempt: 0,
            }),
            uuid_text::may_draw(spec@.task_id),
            spec@.task_id & 0xf000_c000_0000_0000_0000 == 0x4000_8000_0000_0000_0000,
    {
        ActorTaskSpec {
            task_id: TaskId::new(),
            actor_id,
            method_id: method_id.to_owned(),
            dependencies,
            output_id,
            max_retries: 1,
            attempt: 0,
        }
    }
}

impl Clone for ActorTaskSpec {
    fn clone(&self) -> (copy: Self)
        ensures
            copy@ == self@,
    {
        ActorTaskSpec {
            task_id: self.task_id,
            actor_id: self.actor_id,
            method_id: self.method_id.clone(),
            dependencies: copy_ids(&self.dependencies),
            output_id: self.output_id,
            max_retries: self.max_retries,
            attempt: self.attempt,
        }
    }
}

/// An object with its bytes.
#[derive(Debug, PartialEq, Eq)]
pub struct ObjectData {
    pub id: ObjectId,
    pub bytes: Vec<u8>,
}

impl Clone for ObjectData {
    fn clone(&self) -> (copy: Self)
        ensures
            copy.id == self.id,
            copy.bytes@ == self.bytes@,
    {
        let bytes = self.bytes.clone();
        assert(bytes@ =~= self.bytes@);
        ObjectData { id: self.id, bytes }
    }
}

/// A fresh task does what it was described to do, on the objects in their order; it is pinned to no
/// worker, has not been tried again, and may be tried again once.
pub proof fn fresh_tasks_are_as_described(
    task_id: u128,
    function_id: Seq<char>,
    dependencies: Seq<u128>,
    output_id: u128,
)
    ensures
        ({
            let spec = fresh_task(task_id, function_id, dependencies, output_id);
            &&& spec.task_id == task_id
            &&& spec.function_id == function_id
            &&& spec.dependencies == dependencies
            &&& spec.output_id == output_id
            &&& spec.target_worker is None
            &&& spec.max_retries == 1
            &&& spec.attempt == 0
        }),
{
}

/// The numbers of a list of object identifiers stand in the order of the list.
pub proof fn object_numbers_stand_in_order(ids: Seq<ObjectId>, i: int)
    ensures
        object_numbers(ids).len() == ids.len(),
        0 <= i < ids.len() ==> object_numbers(ids)[i] == ids[i].0,
{
}

/// The content of a task, of an actor and of a method call is that of its fields, one by one.
pub proof fn descriptions_show_their_fields(
    spec: TaskSpec,
    actor: ActorSpec,
    call: ActorTaskSpec,
    i: int,
)
    ensures
        spec@.task_id == spec.task_id.0,
        spec@.function_id == spec.function_id@,
        spec@.dependencies.len() == spec.dependencies@.len(),
        0 <= i < spec.dependencies@.len() ==> spec@.dependencies[i] == spec.dependencies@[i].0,
        spec@.output_id == spec.output_id.0,
        spec.target_worker is None ==> spec@.target_worker is None,
        spec.target_worker matches Some(w) ==> spec@.target_worker == Some(w.0),
        spec@.max_retries == spec.max_retries,
        spec@.attempt == spec.attempt,
        actor@.actor_id == actor.actor_id.0,
        actor@.actor_type == actor.actor_type@,
        actor@.constructor_dependencies.len() == actor.constructor_dependencies@.len(),
        0 <= i < actor.constructor_dependencies@.len() ==> actor@.constructor_dependencies[i]
            == actor.constructor_dependencies@[i].0,
        actor@.max_restarts == actor.max_restarts,
        call@.task_id == call.task_id.0,
        call@.actor_id == call.actor_id.0,
        call@.method_id == call.method_id@,
        call@.dependencies.len() == call.dependencies@.len(),
        0 <= i < call.dependencies@.len() ==> call@.dependencies[i] == call.dependencies@[i].0,
        call@.output_id == call.output_id.0,
        call@.max_retries == call.max_retries,
        call@.attempt == call.attempt,
{
}

} // verus!
