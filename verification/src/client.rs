//! The client: what it asks of the head node, and what it makes of the answers.
use crate::codec::{self, decode, encode};
use crate::error::{ErrorView, MiniRayError};
use crate::head::model;
use crate::ids::{ActorId, ObjectId, TaskId};
use crate::messages::{
    self, CreateActorRequest, CreateActorResponse, GetObjectRequest, GetObjectResponse,
    PutObjectRequest, PutObjectResponse, SubmitActorTaskRequest, SubmitActorTaskResponse,
    SubmitTaskRequest, SubmitTaskResponse,
};
use crate::refs::{ActorRef, ObjectRef};
use crate::uuid_text;
use serde::de::DeserializeOwned;
use serde::Serialize;
use vstd::prelude::*;

verus! {

/// The numbers of the objects that a list of references refers to.
pub open spec fn targets<T>(refs: Seq<ObjectRef<T>>) -> Seq<u128> {
    refs.map_values(|r: ObjectRef<T>| r.target()@)
}

/// The identifiers of the objects that a list of references refers to, in order, as text.
pub fn object_ref_ids(refs: Vec<ObjectRef<()>>) -> (ids: Vec<String>)
    ensures
        messages::texts(ids@) == model::id_texts(targets(refs@)),
{
    let mut ids: Vec<String> = Vec::new();
    let n = refs.len();
    for i in 0..n
        invariant
            n == refs@.len(),
            ids@.len() == i,
            forall|j: int| 0 <= j < i ==> (#[trigger] ids@[j])@ == refs@[j].target().text(),
    {
        ids.push(refs[i].id().to_string());
    }
    assert(messages::texts(ids@) =~= model::id_texts(targets(refs@)));
    ids
}

/// References to the same objects, in order, under the name of the unit type.
pub fn erase_refs<T: 'static>(refs: Vec<ObjectRef<T>>) -> (erased: Vec<ObjectRef<()>>)
    ensures
        targets(erased@) == targets(refs@),
        forall|i: int| 0 <= i < erased@.len() ==> (#[trigger] erased@[i]).label() == "()"@,
{
    let mut erased: Vec<ObjectRef<()>> = Vec::new();
    let n = refs.len();
    for i in 0..n
        invariant
            n == refs@.len(),
            erased@.len() == i,
            forall|j: int|
                0 <= j < i ==> (#[trigger] erased@[j]).target() == refs@[j].target()
                    && erased@[j].label() == "()"@,
    {
        erased.push(refs[i].erase());
    }
    assert(targets(erased@) =~= targets(refs@));
    erased
}

/// The error for a head node that cannot be reached, or that refuses a request, for this reason.
pub fn transport_error(message: String) -> (error: MiniRayError)
    ensures
        error@ == ErrorView::Transport(message@),
{
    MiniRayError::Transport(message)
}

/// What reading an identifier in an answer gives.
pub open spec fn read_answer(text: Seq<char>) -> Result<u128, ErrorView> {
    match uuid_text::read_uuid(text) {
        Some(id) => Ok(id),
        None => Err(ErrorView::Decode(uuid_text::uuid_parse_error(text))),
    }
}

/// Asks to store a value under a fresh identifier.
pub fn put_request<T: Serialize>(value: &T) -> (r: Result<PutObjectRequest, MiniRayError>)
    ensures
        match r {
            Ok(request) => exists|id: u128|
                {
                    &&& request.object_id@ == #[trigger] model::id_text(id)
                    &&& uuid_text::may_draw(id)
                    &&& id & 0xf000_c000_0000_0000_0000 == 0x4000_8000_0000_0000_0000
                    &&& codec::may_encode(*value, Ok(request.data))
                },
            Err(e) => codec::may_encode(*value, Err(e)),
        },
{
    let object_id = ObjectId::new();
    let encoded = encode(value);
    put_request_as(object_id, encoded)
}

/// Asks to store what encoding a value came to, where that are bytes.
pub fn put_request_as(object_id: ObjectId, encoded: Result<Vec<u8>, MiniRayError>) -> (r: Result<
    PutObjectRequest,
    MiniRayError,
>)
    ensures
        match encoded {
            Ok(data) => {
                &&& r matches Ok(request)
                &&& request.object_id@ == model::id_text(object_id@)
                &&& request.data == data
            },
            Err(e) => r == Err::<PutObjectRequest, MiniRayError>(e),
        },
{
    match encoded {
        Ok(data) => Ok(PutObjectRequest { object_id: object_id.to_string(), data }),
        Err(e) => Err(e),
    }
}

/// A reference to the object that was stored.
pub fn put_response<T: 'static>(response: PutObjectResponse, type_label: &'static str) -> (r: Result<
    ObjectRef<T>,
    MiniRayError,
>)
    ensures
        match read_answer(response.object_id@) {
            Ok(id) => {
                &&& r matches Ok(object_ref)
                &&& object_ref.target() == ObjectId(id)
                &&& object_ref.label() == type_label@
            },
            Err(error) => r matches Err(e) && e@ == error,
        },
{
    match ObjectId::from_string(response.object_id.as_str()) {
        Ok(id) => Ok(ObjectRef::new(id, type_label)),
        Err(e) => Err(e),
    }
}

/// Asks for an object.
pub fn get_request<T: 'static>(object_ref: ObjectRef<T>) -> (request: GetObjectRequest)
    ensures
        request.object_id@ == object_ref.target().text(),
{
    GetObjectRequest { object_id: object_ref.id().to_string() }
}

/// The value of an object.
pub fn get_response<T: DeserializeOwned>(response: GetObjectResponse) -> (r: Result<T, MiniRayError>)
    ensures
        codec::may_decode(response.data@, r),
        r matches Err(e) ==> e is Decode,
{
    decode(response.data.as_slice())
}

/// Asks to run a function on objects, with a fresh identifier for its result; it may be tried again
/// once.
pub fn submit_request(function_id: &str, dependencies: Vec<ObjectRef<()>>) -> (request:
    SubmitTaskRequest)
    ensures
        request.function_id@ == function_id@,
        messages::texts(request.dependencies@) == model::id_texts(targets(dependencies@)),
        request.max_retries == 1,
        exists|id: u128|
            {
                &&& request.output_id@ == #[trigger] model::id_text(id)
                &&& uuid_text::may_draw(id)
                &&& id & 0xf000_c000_0000_0000_0000 == 0x4000_8000_0000_0000_0000
            },
{
    submit_request_as(function_id, dependencies, ObjectId::new())
}

/// Asks to run a function on objects.
pub fn submit_request_as(
    function_id: &str,
    dependencies: Vec<ObjectRef<()>>,
    output_id: ObjectId,
) -> (request: SubmitTaskRequest)
    ensures
        request.function_id@ == function_id@,
        messages::texts(request.dependencies@) == model::id_texts(targets(dependencies@)),
        request.max_retries == 1,
        request.output_id@ == model::id_text(output_id@),
{
    SubmitTaskRequest {
        function_id: function_id.to_owned(),
        dependencies: object_ref_ids(dependencies),
        output_id: output_id.to_string(),
        max_retries: 1,
    }
}

/// What the answer to a submission comes to: the identifier of the result. Both identifiers in the
/// answer have to be readable.
pub open spec fn read_submission(task_id: Seq<char>, output_id: Seq<char>) -> Result<
    u128,
    ErrorView,
> {
    match read_answer(task_id) {
        Ok(_) => read_answer(output_id),
        Err(error) => Err(error),
    }
}

fn submission<Out: 'static>(task_id: &str, output_id: &str, type_label: &'static str) -> (r: Result<
    ObjectRef<Out>,
    MiniRayError,
>)
    ensures
        match read_submission(task_id@, output_id@) {
            Ok(id) => {
                &&& r matches Ok(object_ref)
                &&& object_ref.target() == ObjectId(id)
                &&& object_ref.label() == type_label@
            },
            Err(error) => r matches Err(e) && e@ == error,
        },
{
    match TaskId::from_string(task_id) {
        Ok(_) => match ObjectId::from_string(output_id) {
            Ok(id) => Ok(ObjectRef::new(id, type_label)),
            Err(e) => Err(e),
        },
        Err(e) => Err(e),
    }
}

/// A reference to the result of a task that was submitted.
pub fn submit_response<Out: 'static>(response: SubmitTaskResponse, type_label: &'static str) -> (r:
    Result<ObjectRef<Out>, MiniRayError>)
    ensures
        match read_submission(response.task_id@, response.output_id@) {
            Ok(id) => {
                &&& r matches Ok(object_ref)
                &&& object_ref.target() == ObjectId(id)
                &&& object_ref.label() == type_label@
            },
            Err(error) => r matches Err(e) && e@ == error,
        },
{
    submission(response.task_id.as_str(), response.output_id.as_str(), type_label)
}

/// Asks to create an actor under a fresh identifier.
pub fn create_actor_request(
    actor_type: &str,
    constructor_dependencies: Vec<ObjectRef<()>>,
    max_restarts: u32,
) -> (request: CreateActorRequest)
    ensures
        request.actor_type@ == actor_type@,
        messages::texts(request.constructor_dependencies@) == model::id_texts(
            targets(constructor_dependencies@),
        ),
        request.max_restarts == max_restarts,
        exists|id: u128|
            {
                &&& request.actor_id@ == #[trigger] model::id_text(id)
                &&& uuid_text::may_draw(id)
                &&& id & 0xf000_c000_0000_0000_0000 == 0x4000_8000_0000_0000_0000
            },
{
    create_actor_request_as(actor_type, constructor_dependencies, max_restarts, ActorId::new())
}

/// Asks to create an actor.
pub fn create_actor_request_as(
    actor_type: &str,
    constructor_dependencies: Vec<ObjectRef<()>>,
    max_restarts: u32,
    actor_id: ActorId,
) -> (request: CreateActorRequest)
    ensures
        request.actor_type@ == actor_type@,
        messages::texts(request.constructor_dependencies@) == model::id_texts(
            targets(constructor_dependencies@),
        ),
        request.max_restarts == max_restarts,
        request.actor_id@ == model::id_text(actor_id@),
{
    CreateActorRequest {
        actor_type: actor_type.to_owned(),
        constructor_dependencies: object_ref_ids(constructor_dependencies),
        actor_id: actor_id.to_string(),
        max_restarts,
    }
}

/// A reference to the actor that was created.
pub fn create_actor_response<Actor: 'static>(
    response: CreateActorResponse,
    type_label: &'static str,
) -> (r: Result<ActorRef<Actor>, MiniRayError>)
    ensures
        match read_answer(response.actor_id@) {
            Ok(id) => {
                &&& r matches Ok(actor_ref)
                &&& actor_ref.target() == ActorId(id)
                &&& actor_ref.label() == type_label@
            },
            Err(error) => r matches Err(e) && e@ == error,
        },
{
    match ActorId::from_string(response.actor_id.as_str()) {
        Ok(id) => Ok(ActorRef::new(id, type_label)),
        Err(e) => Err(e),
    }
}

/// Asks to call a method of an actor on objects, with a fresh identifier for its result; it may be
/// tried again once.
pub fn call_actor_request(
    actor_ref: ActorRef<()>,
    method_id: &str,
    dependencies: Vec<ObjectRef<()>>,
) -> (request: SubmitActorTaskRequest)
    ensures
        request.actor_id@ == actor_ref.target().text(),
        request.method_id@ == method_id@,
        messages::texts(request.dependencies@) == model::id_texts(targets(dependencies@)),
        request.max_retries == 1,
        exists|id: u128|
            {
                &&& request.output_id@ == #[trigger] model::id_text(id)
                &&& uuid_text::may_draw(id)
                &&& id & 0xf000_c000_0000_0000_0000 == 0x4000_8000_0000_0000_0000
            },
{
    call_actor_request_as(actor_ref, method_id, dependencies, ObjectId::new())
}

/// Asks to call a method of an actor on objects.
pub fn call_actor_request_as(
    actor_ref: ActorRef<()>,
    method_id: &str,
    dependencies: Vec<ObjectRef<()>>,
    output_id: ObjectId,
) -> (request: SubmitActorTaskRequest)
    ensures
        request.actor_id@ == actor_ref.target().text(),
        request.method_id@ == method_id@,
        messages::texts(request.dependencies@) == model::id_texts(targets(dependencies@)),
        request.max_retries == 1,
        request.output_id@ == model::id_text(output_id@),
{
    SubmitActorTaskRequest {
        actor_id: actor_ref.id().to_string(),
        method_id: method_id.to_owned(),
        dependencies: object_ref_ids(dependencies),
        output_id: output_id.to_string(),
        max_retries: 1,
    }
}

/// A reference to the result of a call of an actor that was submitted.
pub fn call_actor_response<Out: 'static>(
    response: SubmitActorTaskResponse,
    type_label: &'static str,
) -> (r: Result<ObjectRef<Out>, MiniRayError>)
    ensures
        match read_submission(response.task_id@, response.output_id@) {
            Ok(id) => {
                &&& r matches Ok(object_ref)
                &&& object_ref.target() == ObjectId(id)
                &&& object_ref.label() == type_label@
            },
            Err(error) => r matches Err(e) && e@ == error,
        },
{
    submission(response.task_id.as_str(), response.output_id.as_str(), type_label)
}

/// The objects that a list of references refers to stand in the order of the list.
pub proof fn targets_stand_in_order<T>(refs: Seq<ObjectRef<T>>, i: int)
    ensures
        targets(refs).len() == refs.len(),
        0 <= i < refs.len() ==> targets(refs)[i] == refs[i].target().0,
{
}

/// An answer is read as what it names: the object or actor, and for a submission the output. Where an
/// identifier in it names nothing, reading it is a decoding error, for the task before the output.
pub proof fn answers_are_read_as_what_they_name(text: Seq<char>, task_id: Seq<char>)
    ensures
        uuid_text::read_uuid(text) matches Some(id) ==> {
            &&& read_answer(text) == Ok::<u128, ErrorView>(id)
            &&& uuid_text::read_uuid(task_id) is Some ==> read_submission(task_id, text) == Ok::<
                u128,
                ErrorView,
            >(id)
        },
        uuid_text::read_uuid(text) is None ==> {
            &&& read_answer(text) == Err::<u128, ErrorView>(
                ErrorView::Decode(uuid_text::uuid_parse_error(text)),
            )
            &&& uuid_text::read_uuid(task_id) is Some ==> read_submission(task_id, text) == Err::<
                u128,
                ErrorView,
            >(ErrorView::Decode(uuid_text::uuid_parse_error(text)))
        },
        uuid_text::read_uuid(task_id) is None ==> read_submission(task_id, text) == Err::<
            u128,
            ErrorView,
        >(ErrorView::Decode(uuid_text::uuid_parse_error(task_id))),
{
}

} // verus!
