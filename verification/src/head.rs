//! The head node: it stores objects, schedules tasks and knows where actors live.
use crate::clock;
use crate::ids::{ActorId, ObjectId, TaskId, WorkerId};
use crate::maps::keys_of;
use crate::messages::{
    self, status_from_error, Code, CompleteTaskRequest, CompleteTaskResponse, CreateActorRequest,
    CreateActorResponse, FailTaskRequest, FailTaskResponse, GetObjectRequest, GetObjectResponse,
    HeartbeatRequest, HeartbeatResponse, LeaseView, PollTaskRequest, PollTaskResponse,
    PutObjectRequest, PutObjectResponse, RegisterWorkerRequest, RegisterWorkerResponse, Status,
    StatusView, SubmitActorTaskRequest, SubmitActorTaskResponse, SubmitTaskRequest,
    SubmitTaskResponse, TaskLease, UnregisterWorkerRequest, UnregisterWorkerResponse,
};
use crate::object_store::InMemoryObjectStore;
use crate::scheduler::{self, Scheduler};
use crate::task::{self, copy_ids, ActorSpec, TaskSpec, TaskSpecView};
use crate::uuid_text;
use std::collections::HashMap;
use std::time::Instant;
use vstd::prelude::*;
use vstd::string::StringExecFns;

pub mod effects;
pub mod laws;
pub mod model;
pub mod polling;

use crate::scheduler::model::ExpiryView;
use model::{ActorRecordView, ActorTaskView, HeadView, SubmittedView};

verus! {

#[derive(Debug)]
struct ActorRecord {
    spec: ActorSpec,
    owner_worker: Option<WorkerId>,
}

impl View for ActorRecord {
    type V = ActorRecordView;

    closed spec fn view(&self) -> ActorRecordView {
        ActorRecordView {
            spec: self.spec@,
            owner_worker: task::worker_number(self.owner_worker),
        }
    }
}

#[derive(Debug)]
struct ActorTaskLeaseMeta {
    actor_id: ActorId,
    actor_type: String,
    method_id: String,
    dependencies: Vec<ObjectId>,
    constructor_dependencies: Vec<ObjectId>,
}

impl View for ActorTaskLeaseMeta {
    type V = ActorTaskView;

    closed spec fn view(&self) -> ActorTaskView {
        ActorTaskView {
            actor_id: self.actor_id@,
            actor_type: self.actor_type@,
            method_id: self.method_id@,
            dependencies: task::object_numbers(self.dependencies@),
            constructor_dependencies: task::object_numbers(self.constructor_dependencies@),
        }
    }
}

impl Clone for ActorTaskLeaseMeta {
    fn clone(&self) -> (copy: Self)
        ensures
            copy@ == self@,
    {
        ActorTaskLeaseMeta {
            actor_id: self.actor_id,
            actor_type: self.actor_type.clone(),
            method_id: self.method_id.clone(),
            dependencies: copy_ids(&self.dependencies),
            constructor_dependencies: copy_ids(&self.constructor_dependencies),
        }
    }
}

/// The head node.
#[derive(Debug)]
pub struct HeadService {
    object_store: InMemoryObjectStore,
    scheduler: Scheduler,
    actors: HashMap<u128, ActorRecord>,
    actor_tasks: HashMap<u128, ActorTaskLeaseMeta>,
}

impl View for HeadService {
    type V = HeadView;

    closed spec fn view(&self) -> HeadView {
        HeadView {
            objects: self.object_store@,
            scheduler: self.scheduler@,
            actors: self.actors@.map_values(|actor: ActorRecord| actor@),
            actor_tasks: self.actor_tasks@.map_values(|meta: ActorTaskLeaseMeta| meta@),
        }
    }
}

/// Reads the identifier of an object.
pub fn parse_object_id(value: &str) -> (r: Result<ObjectId, Status>)
    ensures
        match model::read_id(value@) {
            Ok(id) => r == Ok::<ObjectId, Status>(ObjectId(id)),
            Err(status) => r matches Err(e) && e@ == status,
        },
{
    match ObjectId::from_string(value) {
        Ok(id) => Ok(id),
        Err(error) => Err(status_from_error(error)),
    }
}

/// Reads the identifier of a task.
pub fn parse_task_id(value: &str) -> (r: Result<TaskId, Status>)
    ensures
        match model::read_id(value@) {
            Ok(id) => r == Ok::<TaskId, Status>(TaskId(id)),
            Err(status) => r matches Err(e) && e@ == status,
        },
{
    match TaskId::from_string(value) {
        Ok(id) => Ok(id),
        Err(error) => Err(status_from_error(error)),
    }
}

/// Reads the identifier of a worker.
pub fn parse_worker_id(value: &str) -> (r: Result<WorkerId, Status>)
    ensures
        match model::read_id(value@) {
            Ok(id) => r == Ok::<WorkerId, Status>(WorkerId(id)),
            Err(status) => r matches Err(e) && e@ == status,
        },
{
    match WorkerId::from_string(value) {
        Ok(id) => Ok(id),
        Err(error) => Err(status_from_error(error)),
    }
}

/// Reads the identifier of an actor.
pub fn parse_actor_id(value: &str) -> (r: Result<ActorId, Status>)
    ensures
        match model::read_id(value@) {
            Ok(id) => r == Ok::<ActorId, Status>(ActorId(id)),
            Err(status) => r matches Err(e) && e@ == status,
        },
{
    match ActorId::from_string(value) {
        Ok(id) => Ok(id),
        Err(error) => Err(status_from_error(error)),
    }
}

/// A list is refused for the first of its texts that is refused.
proof fn lemma_refused_prefix(texts: Seq<Seq<char>>, n: nat)
    requires
        n <= texts.len(),
        model::read_ids(texts.take(n as int)) is Err,
    ensures
        model::read_ids(texts) == model::read_ids(texts.take(n as int)),
    decreases texts.len(),
{
    if n == texts.len() {
        assert(texts.take(n as int) =~= texts);
    } else {
        assert(texts.drop_last().take(n as int) =~= texts.take(n as int));
        lemma_refused_prefix(texts.drop_last(), n);
    }
}

/// Reads a list of identifiers of objects.
pub fn parse_object_ids(values: Vec<String>) -> (r: Result<Vec<ObjectId>, Status>)
    ensures
        match model::read_ids(messages::texts(values@)) {
            Ok(ids) => r matches Ok(list) && task::object_numbers(list@) == ids,
            Err(status) => r matches Err(e) && e@ == status,
        },
{
    let ghost all = messages::texts(values@);
    let mut ids: Vec<ObjectId> = Vec::new();
    assert(task::object_numbers(ids@) =~= Seq::<u128>::empty());
    let n = values.len();
    for i in 0..n
        invariant
            n == values@.len(),
            all == messages::texts(values@),
            model::read_ids(all.take(i as int)) == Ok::<Seq<u128>, StatusView>(
                task::object_numbers(ids@),
            ),
    {
        assert(all.take(i + 1).drop_last() =~= all.take(i as int));
        assert(all.take(i + 1).last() == values@[i as int]@);
        match parse_object_id(values[i].as_str()) {
            Ok(id) => {
                let ghost before = ids@;
                ids.push(id);
                assert(task::object_numbers(ids@) =~= task::object_numbers(before).push(id@));
            },
            Err(status) => {
                proof {
                    lemma_refused_prefix(all, (i + 1) as nat);
                }
                return Err(status);
            },
        }
    }
    assert(all.take(n as int) =~= all);
    Ok(ids)
}

/// The texts of a list of identifiers of objects.
pub fn object_texts(ids: &Vec<ObjectId>) -> (list: Vec<String>)
    ensures
        messages::texts(list@) == model::id_texts(task::object_numbers(ids@)),
{
    let mut list: Vec<String> = Vec::new();
    let n = ids.len();
    for i in 0..n
        invariant
            n == ids@.len(),
            list@.len() == i,
            forall|j: int| 0 <= j < i ==> (#[trigger] list@[j])@ == ids@[j].text(),
    {
        list.push(ids[i].to_string());
    }
    assert(messages::texts(list@) =~= model::id_texts(task::object_numbers(ids@)));
    list
}

/// What a worker is told of a task that it is to run.
fn task_lease_from_spec(spec: TaskSpec, actor_meta: Option<ActorTaskLeaseMeta>) -> (lease:
    TaskLease)
    ensures
        lease@ == model::lease_of(
            spec@,
            match actor_meta {
                Some(meta) => Some(meta@),
                None => None,
            },
        ),
{
    let task_id = spec.task_id.to_string();
    let output_id = spec.output_id.to_string();
    match actor_meta {
        Some(meta) => TaskLease {
            task_id,
            function_id: spec.function_id,
            dependencies: object_texts(&meta.dependencies),
            output_id,
            attempt: spec.attempt,
            actor_id: meta.actor_id.to_string(),
            actor_type: meta.actor_type,
            method_id: meta.method_id,
            constructor_dependencies: object_texts(&meta.constructor_dependencies),
        },
        None => {
            let lease = TaskLease {
                task_id,
                function_id: spec.function_id,
                dependencies: object_texts(&spec.dependencies),
                output_id,
                attempt: spec.attempt,
                actor_id: String::new(),
                actor_type: String::new(),
                method_id: String::new(),
                constructor_dependencies: Vec::new(),
            };
            assert(lease@ =~= model::lease_of(spec@, None));
            lease
        },
    }
}

/// The content of an answer to a submission.
pub open spec fn submitted(r: Result<SubmitTaskResponse, Status>) -> Result<
    SubmittedView,
    StatusView,
> {
    match r {
        Ok(response) => Ok(
            SubmittedView { task_id: response.task_id@, output_id: response.output_id@ },
        ),
        Err(status) => Err(status@),
    }
}

/// The content of an answer to a call of an actor's method.
pub open spec fn called(r: Result<SubmitActorTaskResponse, Status>) -> Result<
    SubmittedView,
    StatusView,
> {
    match r {
        Ok(response) => Ok(
            SubmittedView { task_id: response.task_id@, output_id: response.output_id@ },
        ),
        Err(status) => Err(status@),
    }
}

/// The content of an answer that says nothing but that the request was granted.
pub open spec fn granted<T>(r: Result<T, Status>) -> Result<(), StatusView> {
    match r {
        Ok(_) => Ok(()),
        Err(status) => Err(status@),
    }
}

/// The content of an answer to a poll.
pub open spec fn leased(r: Result<PollTaskResponse, Status>) -> Result<Seq<LeaseView>, StatusView> {
    match r {
        Ok(response) => Ok(messages::lease_views(response.tasks@)),
        Err(status) => Err(status@),
    }
}

impl HeadService {
    /// A head node with a store and a scheduler.
    pub fn new(object_store: InMemoryObjectStore, scheduler: Scheduler) -> (head: Self)
        requires
            scheduler@.wf(),
        ensures
            head@ == (HeadView {
                objects: object_store@,
                scheduler: scheduler@,
                actors: Map::empty(),
                actor_tasks: Map::empty(),
            }),
            head@.wf(),
    {
        let head = HeadService {
            object_store,
            scheduler,
            actors: HashMap::new(),
            actor_tasks: HashMap::new(),
        };
        assert(head@.actors =~= Map::<u128, ActorRecordView>::empty());
        assert(head@.actor_tasks =~= Map::<u128, ActorTaskView>::empty());
        head
    }

    /// An empty head node that gives up on a worker after ten seconds.
    pub fn with_defaults() -> (head: Self)
        ensures
            head@ == HeadView::empty(head@.scheduler.heartbeat_timeout),
            clock::duration_nanos(head@.scheduler.heartbeat_timeout) == 10_000_000_000,
            head@.wf(),
    {
        Self::new(InMemoryObjectStore::new(), Scheduler::default())
    }

    /// The objects.
    pub fn object_store(&self) -> (store: &InMemoryObjectStore)
        ensures
            store@ == self@.objects,
    {
        &self.object_store
    }

    /// How many actors there are.
    pub fn actor_count(&self) -> (n: usize)
        requires
            self@.wf(),
        ensures
            n == self@.actors.len(),
    {
        assert(self@.actors.dom() =~= self.actors@.dom());
        self.actors.len()
    }

    /// The worker that an actor lives with.
    fn owner_of(&self, a: u128) -> (owner: Option<WorkerId>)
        requires
            self@.actors.contains_key(a),
        ensures
            task::worker_number(owner) == self@.actors[a].owner_worker,
    {
        match self.actors.get(&a) {
            Some(actor) => actor.owner_worker,
            None => None,
        }
    }

    /// Has an actor live with a worker, or with none.
    fn set_owner(&mut self, a: u128, owner_worker: Option<WorkerId>)
        requires
            old(self)@.actors.contains_key(a),
        ensures
            final(self)@ == (HeadView {
                actors: old(self)@.actors.insert(
                    a,
                    ActorRecordView {
                        owner_worker: task::worker_number(owner_worker),
                        ..old(self)@.actors[a]
                    },
                ),
                ..old(self)@
            }),
    {
        let ghost before = self@;
        if let Some(actor) = self.actors.remove(&a) {
            self.actors.insert(a, ActorRecord { spec: actor.spec, owner_worker });
        }
        assert(self@.actors =~= before.actors.insert(
            a,
            ActorRecordView {
                owner_worker: task::worker_number(owner_worker),
                ..before.actors[a]
            },
        ));
    }

    /// Takes actors off the workers that they live with.
    fn release_actor_owners(&mut self, worker_ids: &Vec<WorkerId>)
        requires
            old(self)@.actors_wf(),
        ensures
            final(self)@ == old(self)@.after_release(scheduler::worker_numbers(worker_ids@)),
            final(self)@.actors_wf(),
    {
        let ghost before = self@;
        let ghost gone = scheduler::worker_numbers(worker_ids@);
        let keys = keys_of(&self.actors);
        let n = keys.len();
        assert(before.actors.dom() =~= self.actors@.dom());
        for i in 0..n
            invariant
                n == keys@.len(),
                keys@.no_duplicates(),
                gone == scheduler::worker_numbers(worker_ids@),
                forall|k: u128| #[trigger] keys@.contains(k) <==> before.actors.contains_key(k),
                self@.objects == before.objects,
                self@.scheduler == before.scheduler,
                self@.actor_tasks == before.actor_tasks,
                self@.actors.dom() == before.actors.dom(),
                forall|j: int|
                    0 <= j < i ==> self@.actors[#[trigger] keys@[j]]
                        == before.actors[keys@[j]].released_from(gone),
                forall|j: int|
                    i <= j < n ==> self@.actors[#[trigger] keys@[j]] == before.actors[keys@[j]],
        {
            let ghost mid = self@;
            let key = keys[i];
            assert(keys@.contains(key));
            assert(mid.actors.contains_key(key));
            let owner = self.owner_of(key);
            if let Some(owner) = owner {
                if scheduler::lists_worker(worker_ids, owner) {
                    self.set_owner(key, None);
                }
            }
            assert(mid.actors[key].released_from(gone) == self@.actors[key]);
            assert forall|j: int| 0 <= j < n && j != i implies self@.actors[#[trigger] keys@[j]]
                == mid.actors[keys@[j]] by {
                assert(keys@[j] != key);
            }
            assert(self@.actors.dom() =~= before.actors.dom());
        }
        assert forall|a: u128| #[trigger] self@.actors.contains_key(a) implies self@.actors[a]
            == before.actors[a].released_from(gone) by {
            assert(keys@.contains(a));
        }
        assert(self@ =~= before.after_release(gone));
    }

    /// Removes a worker, for a reason.
    fn remove_worker(&mut self, worker_id: WorkerId, reason: String)
        requires
            old(self)@.wf(),
        ensures
            final(self)@ == old(self)@.after_remove_worker(worker_id@, reason@),
            final(self)@.wf(),
    {
        let ghost before = self@;
        let removed = self.scheduler.remove_worker(worker_id, reason).is_some();
        if removed {
            let gone = vec![worker_id];
            self.release_actor_owners(&gone);
            assert(scheduler::worker_numbers(gone@) =~= seq![worker_id@]);
            assert(seq![worker_id@][0] == worker_id@);
            assert forall|a: u128| #[trigger] self@.actors.contains_key(
                a,
            ) implies match self@.actors[a].owner_worker {
                Some(w) => self@.scheduler.workers.contains_key(w),
                None => true,
            } by {
                assert(before.actors.contains_key(a));
                assert(seq![worker_id@].contains(worker_id@));
            }
        }
    }

    /// Removes the workers that have been silent for too long, and returns how many they were.
    pub fn cleanup_expired_workers(&mut self) -> (count: usize)
        requires
            old(self)@.wf(),
        ensures
            exists|now: Instant, report: Seq<ExpiryView>|
                {
                    &&& clock::may_read(now)
                    &&& #[trigger] old(self)@.cleans_up(now, report, final(self)@)
                    &&& count == report.len()
                },
            final(self)@.wf(),
    {
        self.cleanup_expired_workers_at(Instant::now())
    }

    /// Removes the workers that, at `now`, have been silent for too long, and returns how many they
    /// were.
    pub fn cleanup_expired_workers_at(&mut self, now: Instant) -> (count: usize)
        requires
            old(self)@.wf(),
        ensures
            exists|report: Seq<ExpiryView>| #[trigger]
                old(self)@.cleans_up(now, report, final(self)@) && count == report.len(),
            final(self)@.wf(),
    {
        let ghost before = self@;
        let expiries = self.scheduler.expire_workers_at(now);
        let ghost report = scheduler::expiry_views(expiries@);
        let mut gone: Vec<WorkerId> = Vec::new();
        let n = expiries.len();
        for i in 0..n
            invariant
                n == expiries@.len(),
                gone@.len() == i,
                forall|j: int| 0 <= j < i ==> gone@[j] == (#[trigger] expiries@[j]).worker_id,
        {
            gone.push(expiries[i].worker_id);
        }
        assert(scheduler::worker_numbers(gone@) =~= model::reported(report));
        self.release_actor_owners(&gone);
        assert(before.cleans_up(now, report, self@));
        proof {
            before.scheduler.lemma_removals_workers(
                model::reported(report),
                "worker heartbeat expired"@,
            );
            assert forall|a: u128| #[trigger] self@.actors.contains_key(
                a,
            ) implies match self@.actors[a].owner_worker {
                Some(w) => self@.scheduler.workers.contains_key(w),
                None => true,
            } by {
                assert(before.actors.contains_key(a));
            }
        }
        n
    }

    /// Stores bytes, and lets the tasks run that waited for them.
    pub fn put_object(&mut self, request: PutObjectRequest) -> (r: Result<PutObjectResponse, Status>)
        requires
            old(self)@.wf(),
        ensures
            match model::read_id(request.object_id@) {
                Ok(id) => {
                    &&& r matches Ok(response)
                    &&& response.object_id@ == model::id_text(id)
                    &&& old(self)@.puts(id, request.data@, final(self)@)
                },
                Err(status) => (r matches Err(e) && e@ == status) && final(self)@ == old(self)@,
            },
            final(self)@.wf(),
    {
        let object_id = match parse_object_id(request.object_id.as_str()) {
            Ok(id) => id,
            Err(status) => return Err(status),
        };
        self.object_store.put_bytes(object_id, request.data);
        self.scheduler.object_available(object_id);
        Ok(PutObjectResponse { object_id: object_id.to_string() })
    }

    /// The bytes of an object.
    pub fn get_object(&self, request: GetObjectRequest) -> (r: Result<GetObjectResponse, Status>)
        ensures
            match r {
                Ok(response) => self@.object(request.object_id@) == Ok::<
                    (Seq<char>, Seq<u8>),
                    StatusView,
                >((response.object_id@, response.data@)),
                Err(status) => self@.object(request.object_id@) == Err::<
                    (Seq<char>, Seq<u8>),
                    StatusView,
                >(status@),
            },
    {
        let object_id = match parse_object_id(request.object_id.as_str()) {
            Ok(id) => id,
            Err(status) => return Err(status),
        };
        match self.object_store.get_bytes(object_id) {
            Ok(data) => Ok(GetObjectResponse { object_id: object_id.to_string(), data }),
            Err(error) => Err(status_from_error(error)),
        }
    }

    /// Schedules a task under a fresh identifier.
    pub fn submit_task(&mut self, request: SubmitTaskRequest) -> (r: Result<
        SubmitTaskResponse,
        Status,
    >)
        requires
            old(self)@.wf(),
        ensures
            exists|task: u128|
                {
                    &&& (final(self)@, submitted(r)) == #[trigger] old(self)@.after_submit_task(
                        request,
                        task,
                    )
                    &&& uuid_text::may_draw(task)
                    &&& task & 0xf000_c000_0000_0000_0000 == 0x4000_8000_0000_0000_0000
                },
            final(self)@.wf(),
    {
        self.submit_task_as(request, TaskId::new())
    }

    /// Schedules a task under an identifier.
    pub fn submit_task_as(&mut self, request: SubmitTaskRequest, task_id: TaskId) -> (r: Result<
        SubmitTaskResponse,
        Status,
    >)
        requires
            old(self)@.wf(),
        ensures
            (final(self)@, submitted(r)) == old(self)@.after_submit_task(request, task_id@),
            final(self)@.wf(),
    {
        let output_id = match parse_object_id(request.output_id.as_str()) {
            Ok(id) => id,
            Err(status) => return Err(status),
        };
        let dependencies = match parse_object_ids(request.dependencies) {
            Ok(ids) => ids,
            Err(status) => return Err(status),
        };
        let mut spec = TaskSpec::with_id(
            task_id,
            request.function_id.as_str(),
            dependencies,
            output_id,
        );
        spec.max_retries = request.max_retries;
        match self.scheduler.submit(spec) {
            Ok(_) => Ok(
                SubmitTaskResponse {
                    task_id: task_id.to_string(),
                    output_id: output_id.to_string(),
                },
            ),
            Err(error) => Err(status_from_error(error)),
        }
    }

    /// Creates an actor, in place of one with the same identifier.
    pub fn create_actor(&mut self, request: CreateActorRequest) -> (r: Result<
        CreateActorResponse,
        Status,
    >)
        requires
            old(self)@.wf(),
        ensures
            (
                final(self)@,
                match r {
                    Ok(response) => Ok(response.actor_id@),
                    Err(status) => Err(status@),
                },
            ) == old(self)@.after_create_actor(request),
            final(self)@.wf(),
    {
        let ghost before = self@;
        let actor_id = match parse_actor_id(request.actor_id.as_str()) {
            Ok(id) => id,
            Err(status) => return Err(status),
        };
        let constructor_dependencies = match parse_object_ids(request.constructor_dependencies) {
            Ok(ids) => ids,
            Err(status) => return Err(status),
        };
        let spec = ActorSpec {
            actor_id,
            actor_type: request.actor_type,
            constructor_dependencies,
            max_restarts: request.max_restarts,
        };
        let record = ActorRecord { spec, owner_worker: None };
        let ghost entered = record@;
        self.actors.insert(actor_id.0, record);
        assert(self@.actors =~= before.actors.insert(actor_id@, entered));
        Ok(CreateActorResponse { actor_id: actor_id.to_string() })
    }

    /// Schedules a call of an actor's method under a fresh identifier.
    pub fn submit_actor_task(&mut self, request: SubmitActorTaskRequest) -> (r: Result<
        SubmitActorTaskResponse,
        Status,
    >)
        requires
            old(self)@.wf(),
        ensures
            exists|task: u128|
                {
                    &&& (final(self)@, called(r)) == #[trigger] old(self)@.after_submit_actor_task(
                        request,
                        task,
                    )
                    &&& uuid_text::may_draw(task)
                    &&& task & 0xf000_c000_0000_0000_0000 == 0x4000_8000_0000_0000_0000
                },
            final(self)@.wf(),
    {
        self.submit_actor_task_as(request, TaskId::new())
    }

    /// Schedules a call of an actor's method under an identifier.
    pub fn submit_actor_task_as(
        &mut self,
        request: SubmitActorTaskRequest,
        task_id: TaskId,
    ) -> (r: Result<SubmitActorTaskResponse, Status>)
        requires
            old(self)@.wf(),
        ensures
            (final(self)@, called(r)) == old(self)@.after_submit_actor_task(request, task_id@),
            final(self)@.wf(),
    {
        let ghost before = self@;
        let actor_id = match parse_actor_id(request.actor_id.as_str()) {
            Ok(id) => id,
            Err(status) => return Err(status),
        };
        let actor = match self.actors.get(&actor_id.0) {
            Some(actor) => ActorRecord {
                spec: actor.spec.clone(),
                owner_worker: actor.owner_worker,
            },
            None => return Err(
                Status {
                    code: Code::NotFound,
                    message: "actor ".to_owned().concat(actor_id.to_string().as_str()).concat(
                        " was not found",
                    ),
                },
            ),
        };
        assert(actor@ == before.actors[actor_id@]);
        let output_id = match parse_object_id(request.output_id.as_str()) {
            Ok(id) => id,
            Err(status) => return Err(status),
        };
        let method_dependencies = match parse_object_ids(request.dependencies) {
            Ok(ids) => ids,
            Err(status) => return Err(status),
        };
        let ghost wanted = task::object_numbers(method_dependencies@);
        let mut scheduling_dependencies = copy_ids(&method_dependencies);
        if actor.owner_worker.is_none() {
            let mut constructor = copy_ids(&actor.spec.constructor_dependencies);
            scheduling_dependencies.append(&mut constructor);
            assert(task::object_numbers(scheduling_dependencies@) =~= wanted + task::object_numbers(
                actor.spec.constructor_dependencies@,
            ));
        }
        let function_id = "actor:".to_owned().concat(actor_id.to_string().as_str()).concat(
            ":",
        ).concat(actor.spec.actor_type.as_str()).concat(":").concat(request.method_id.as_str());
        let mut spec = TaskSpec::with_id(
            task_id,
            function_id.as_str(),
            scheduling_dependencies,
            output_id,
        );
        spec.target_worker = actor.owner_worker;
        spec.max_retries = request.max_retries;
        let meta = ActorTaskLeaseMeta {
            actor_id,
            actor_type: actor.spec.actor_type,
            method_id: request.method_id,
            dependencies: method_dependencies,
            constructor_dependencies: actor.spec.constructor_dependencies,
        };
        let ghost noted = meta@;
        self.actor_tasks.insert(task_id.0, meta);
        assert(self@.actor_tasks =~= before.actor_tasks.insert(task_id@, noted));
        match self.scheduler.submit(spec) {
            Ok(_) => Ok(
                SubmitActorTaskResponse {
                    task_id: task_id.to_string(),
                    output_id: output_id.to_string(),
                },
            ),
            Err(error) => Err(status_from_error(error)),
        }
    }

    /// Registers a worker.
    pub fn register_worker(&mut self, request: RegisterWorkerRequest) -> (r: Result<
        RegisterWorkerResponse,
        Status,
    >)
        requires
            old(self)@.wf(),
        ensures
            exists|now: Instant|
                {
                    &&& clock::may_read(now)
                    &&& (
                        final(self)@,
                        match r {
                            Ok(response) => Ok(response.worker_id@),
                            Err(status) => Err(status@),
                        },
                    ) == #[trigger] old(self)@.after_register_worker(request, now)
                },
            final(self)@.wf(),
    {
        self.register_worker_at(request, Instant::now())
    }

    /// Registers a worker that announced itself at `now`.
    pub fn register_worker_at(&mut self, request: RegisterWorkerRequest, now: Instant) -> (r: Result<
        RegisterWorkerResponse,
        Status,
    >)
        requires
            old(self)@.wf(),
        ensures
            (
                final(self)@,
                match r {
                    Ok(response) => Ok(response.worker_id@),
                    Err(status) => Err(status@),
                },
            ) == old(self)@.after_register_worker(request, now),
            final(self)@.wf(),
    {
        let worker_id = match parse_worker_id(request.worker_id.as_str()) {
            Ok(id) => id,
            Err(status) => return Err(status),
        };
        self.scheduler.register_worker_at(worker_id, request.slots as usize, now);
        Ok(RegisterWorkerResponse { worker_id: worker_id.to_string() })
    }

    /// Takes a worker out.
    pub fn unregister_worker(&mut self, request: UnregisterWorkerRequest) -> (r: Result<
        UnregisterWorkerResponse,
        Status,
    >)
        requires
            old(self)@.wf(),
        ensures
            (final(self)@, granted(r)) == old(self)@.after_unregister_worker(request.worker_id@),
            final(self)@.wf(),
    {
        let worker_id = match parse_worker_id(request.worker_id.as_str()) {
            Ok(id) => id,
            Err(status) => return Err(status),
        };
        self.remove_worker(worker_id, "worker unregistered".to_owned());
        Ok(UnregisterWorkerResponse {  })
    }

    /// Gives tasks to a worker.
    pub fn poll_task(&mut self, request: PollTaskRequest) -> (r: Result<PollTaskResponse, Status>)
        requires
            old(self)@.wf(),
        ensures
            exists|now: Instant|
                {
                    &&& clock::may_read(now)
                    &&& #[trigger] old(self)@.polls(request, now, final(self)@, leased(r))
                },
            final(self)@.wf(),
    {
        self.poll_task_at(request, Instant::now())
    }

    /// Gives tasks to a worker that asked for them at `now`.
    pub fn poll_task_at(&mut self, request: PollTaskRequest, now: Instant) -> (r: Result<
        PollTaskResponse,
        Status,
    >)
        requires
            old(self)@.wf(),
        ensures
            old(self)@.polls(request, now, final(self)@, leased(r)),
            final(self)@.wf(),
    {
        let worker_id = match parse_worker_id(request.worker_id.as_str()) {
            Ok(id) => id,
            Err(status) => return Err(status),
        };
        self.cleanup_expired_workers_at(now);
        self.hand_out(worker_id, request.capacity as usize)
    }

    /// Gives tasks to a worker, and has the actors that these call live with it.
    fn hand_out(&mut self, worker_id: WorkerId, capacity: usize) -> (r: Result<
        PollTaskResponse,
        Status,
    >)
        requires
            old(self)@.wf(),
        ensures
            old(self)@.hands_out(worker_id@, capacity as nat, final(self)@, leased(r)),
            final(self)@.wf(),
    {
        let ghost before = self@;
        let leased_specs = match self.scheduler.lease_tasks(worker_id, capacity) {
            Ok(specs) => specs,
            Err(error) => return Err(status_from_error(error)),
        };
        let ghost given = scheduler::spec_views(leased_specs@);
        let ghost mid = self@;
        let mut tasks: Vec<TaskLease> = Vec::new();
        let n = leased_specs.len();
        assert(mid.after_claims(given.take(0), worker_id@) =~= mid);
        for i in 0..n
            invariant
                n == leased_specs@.len(),
                given == scheduler::spec_views(leased_specs@),
                tasks@.len() == i,
                self@ == mid.after_claims(given.take(i as int), worker_id@),
                forall|j: int|
                    0 <= j < i ==> (#[trigger] tasks@[j])@ == model::lease_of(
                        given[j],
                        mid.call_of(given[j].task_id),
                    ),
        {
            let spec = leased_specs[i].clone();
            let actor_meta = match self.actor_tasks.get(&spec.task_id.0) {
                Some(meta) => Some(meta.clone()),
                None => None,
            };
            if let Some(meta) = &actor_meta {
                self.claim(meta.actor_id.0, worker_id);
            }
            tasks.push(task_lease_from_spec(spec, actor_meta));
            proof {
                lemma_claim_next(mid, given, i as int, worker_id@);
            }
        }
        assert(given.take(n as int) =~= given);
        assert(messages::lease_views(tasks@) =~= before.leases_of(given));
        assert(mid == before.with_scheduler(mid.scheduler));
        assert(before.scheduler.leases(worker_id@, capacity as nat, given, self@.scheduler));
        proof {
            before.scheduler.leasing_gives(worker_id@, capacity as nat, given, self@.scheduler);
            assert forall|a: u128| #[trigger] self@.actors.contains_key(
                a,
            ) implies match self@.actors[a].owner_worker {
                Some(w) => self@.scheduler.workers.contains_key(w),
                None => true,
            } by {
                assert(before.actors.contains_key(a));
            }
        }
        Ok(PollTaskResponse { tasks })
    }

    /// Takes the result of a task from the worker that has it.
    pub fn complete_task(&mut self, request: CompleteTaskRequest) -> (r: Result<
        CompleteTaskResponse,
        Status,
    >)
        requires
            old(self)@.wf(),
        ensures
            old(self)@.completes(request, final(self)@, granted(r)),
            final(self)@.wf(),
    {
        let worker_id = match parse_worker_id(request.worker_id.as_str()) {
            Ok(id) => id,
            Err(status) => return Err(status),
        };
        let task_id = match parse_task_id(request.task_id.as_str()) {
            Ok(id) => id,
            Err(status) => return Err(status),
        };
        let output_id = match parse_object_id(request.output_id.as_str()) {
            Ok(id) => id,
            Err(status) => return Err(status),
        };
        if let Err(error) = self.scheduler.validate_task_owner(worker_id, task_id) {
            return Err(status_from_error(error));
        }
        self.object_store.put_bytes(output_id, request.data);
        match self.scheduler.complete(worker_id, task_id, output_id) {
            Ok(_) => Ok(CompleteTaskResponse {  }),
            Err(error) => Err(status_from_error(error)),
        }
    }

    /// Notes that the worker that has a task could not do it.
    pub fn fail_task(&mut self, request: FailTaskRequest) -> (r: Result<FailTaskResponse, Status>)
        requires
            old(self)@.wf(),
        ensures
            (final(self)@, granted(r)) == old(self)@.after_fail_task(request),
            final(self)@.wf(),
    {
        let worker_id = match parse_worker_id(request.worker_id.as_str()) {
            Ok(id) => id,
            Err(status) => return Err(status),
        };
        let task_id = match parse_task_id(request.task_id.as_str()) {
            Ok(id) => id,
            Err(status) => return Err(status),
        };
        match self.scheduler.fail(worker_id, task_id, request.error) {
            Ok(_) => Ok(FailTaskResponse {  }),
            Err(error) => Err(status_from_error(error)),
        }
    }

    /// Notes that a worker is alive.
    pub fn heartbeat(&mut self, request: HeartbeatRequest) -> (r: Result<HeartbeatResponse, Status>)
        requires
            old(self)@.wf(),
        ensures
            exists|now: Instant|
                {
                    &&& clock::may_read(now)
                    &&& (final(self)@, granted(r)) == #[trigger] old(self)@.after_heartbeat(
                        request.worker_id@,
                        now,
                    )
                },
            final(self)@.wf(),
    {
        self.heartbeat_at(request, Instant::now())
    }

    /// Notes that a worker was alive at `now`.
    pub fn heartbeat_at(&mut self, request: HeartbeatRequest, now: Instant) -> (r: Result<
        HeartbeatResponse,
        Status,
    >)
        requires
            old(self)@.wf(),
        ensures
            (final(self)@, granted(r)) == old(self)@.after_heartbeat(request.worker_id@, now),
            final(self)@.wf(),
    {
        let worker_id = match parse_worker_id(request.worker_id.as_str()) {
            Ok(id) => id,
            Err(status) => return Err(status),
        };
        self.scheduler.force_worker_last_heartbeat(worker_id, now);
        Ok(HeartbeatResponse {  })
    }

    /// Has an actor live with a worker, unless it lives with one already.
    fn claim(&mut self, a: u128, worker_id: WorkerId)
        ensures
            final(self)@ == old(self)@.after_claim(a, worker_id@),
    {
        let ghost before = self@;
        if self.actors.contains_key(&a) {
            if self.owner_of(a).is_none() {
                self.set_owner(a, Some(worker_id));
            }
        }
        assert(self@.actors =~= before.after_claim(a, worker_id@).actors);
    }
}

/// Claiming for one more task.
proof fn lemma_claim_next(head: HeadView, given: Seq<TaskSpecView>, i: int, w: u128)
    requires
        0 <= i < given.len(),
    ensures
        head.after_claims(given.take(i + 1), w) == match head.call_of(given[i].task_id) {
            Some(call) => head.after_claims(given.take(i), w).after_claim(call.actor_id, w),
            None => head.after_claims(given.take(i), w),
        },
{
    let more = given.take(i + 1);
    let less = given.take(i);
    assert forall|a: u128| head.calls(more, a) <==> head.calls(less, a) || (head.call_of(
        given[i].task_id,
    ) matches Some(call) && call.actor_id == a) by {
        if head.calls(less, a) {
            let j = choose|j: int|
                0 <= j < less.len() && (#[trigger] head.call_of(less[j].task_id) matches Some(call)
                    && call.actor_id == a);
            assert(more[j] == less[j]);
        }
        if head.calls(more, a) {
            let j = choose|j: int|
                0 <= j < more.len() && (#[trigger] head.call_of(more[j].task_id) matches Some(call)
                    && call.actor_id == a);
            if j < i {
                assert(more[j] == less[j]);
            }
        }
        assert(more[i] == given[i]);
    }
    let post = match head.call_of(given[i].task_id) {
        Some(call) => head.after_claims(less, w).after_claim(call.actor_id, w),
        None => head.after_claims(less, w),
    };
    assert(head.after_claims(more, w).actors =~= post.actors);
}

} // verus!
