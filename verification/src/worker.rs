//! The worker: it asks for tasks, fetches what they need, runs them and reports back.
use crate::actors::{ActorInstanceStore, ActorRegistry, InstanceView};
use crate::clock;
use crate::error::{ErrorView, MiniRayError};
use crate::ids::WorkerId;
use crate::messages::{
    CompleteTaskRequest, FailTaskRequest, GetObjectRequest, HeartbeatRequest, LeaseView,
    PollTaskRequest, RegisterWorkerRequest, TaskLease,
};
use crate::runtime::{Outcome, TaskRegistry};
use crate::text;
use crate::uuid_text;
use std::time::Duration;
use vstd::prelude::*;
use vstd::string::StringExecFns;

verus! {

/// How a worker is set up.
#[derive(Debug)]
pub struct WorkerConfig {
    /// Where the head node is.
    pub head_endpoint: String,
    /// How many tasks the worker may hold.
    pub slots: u32,
    /// How many tasks it asks for at a time.
    pub poll_capacity: u32,
    /// How long it waits before it asks again.
    pub poll_interval: Duration,
    /// How long it waits before it gives the next sign of life.
    pub heartbeat_interval: Duration,
}

impl WorkerConfig {
    /// The usual setup of a worker with at least one slot: it asks for as many tasks as it has
    /// slots, ten times a second, and gives a sign of life every second.
    pub fn new(head_endpoint: &str, slots: u32) -> (config: Self)
        ensures
            config.head_endpoint@ == head_endpoint@,
            config.slots == if slots < 1 {
                1
            } else {
                slots
            },
            config.poll_capacity == config.slots,
            clock::duration_nanos(config.poll_interval) == 100_000_000,
            clock::duration_nanos(config.heartbeat_interval) == 1_000_000_000,
    {
        let slots: u32 = if slots < 1 {
            1
        } else {
            slots
        };
        WorkerConfig {
            head_endpoint: head_endpoint.to_owned(),
            slots,
            poll_capacity: slots,
            poll_interval: Duration::from_millis(100),
            heartbeat_interval: Duration::from_secs(1),
        }
    }
}

impl Clone for WorkerConfig {
    fn clone(&self) -> (copy: Self)
        ensures
            copy.head_endpoint@ == self.head_endpoint@,
            copy.slots == self.slots,
            copy.poll_capacity == self.poll_capacity,
            copy.poll_interval == self.poll_interval,
            copy.heartbeat_interval == self.heartbeat_interval,
    {
        WorkerConfig {
            head_endpoint: self.head_endpoint.clone(),
            slots: self.slots,
            poll_capacity: self.poll_capacity,
            poll_interval: self.poll_interval,
            heartbeat_interval: self.heartbeat_interval,
        }
    }
}

/// The result of a task.
#[derive(Debug, PartialEq, Eq)]
pub struct TaskExecution {
    pub task_id: String,
    pub output_id: String,
    pub data: Vec<u8>,
}

impl Clone for TaskExecution {
    fn clone(&self) -> (copy: Self)
        ensures
            copy.task_id@ == self.task_id@,
            copy.output_id@ == self.output_id@,
            copy.data@ == self.data@,
    {
        let data = self.data.clone();
        assert(data@ =~= self.data@);
        TaskExecution { task_id: self.task_id.clone(), output_id: self.output_id.clone(), data }
    }
}

/// Whether `r` is what the outcome of running a leased task comes to: the result, for the output
/// that the lease names, or the error.
pub open spec fn executed(
    lease: LeaseView,
    outcome: Outcome,
    r: Result<TaskExecution, MiniRayError>,
) -> bool {
    match outcome {
        Ok(data) => {
            &&& r matches Ok(execution)
            &&& execution.task_id@ == lease.task_id
            &&& execution.output_id@ == lease.output_id
            &&& execution.data == data
        },
        Err(e) => r == Err::<TaskExecution, MiniRayError>(e),
    }
}

/// What the outcome of running a leased task comes to.
pub fn execution_of(lease: &TaskLease, outcome: Outcome) -> (r: Result<TaskExecution, MiniRayError>)
    ensures
        executed(lease@, outcome, r),
{
    match outcome {
        Ok(data) => Ok(
            TaskExecution {
                task_id: lease.task_id.clone(),
                output_id: lease.output_id.clone(),
                data,
            },
        ),
        Err(e) => Err(e),
    }
}

/// The error for a task that comes with the wrong number of payloads. `what` says which kind of
/// task it is, `kind` for which kind of objects the payloads are.
pub open spec fn wrong_payload_count(
    what: Seq<char>,
    task_id: Seq<char>,
    expected: nat,
    kind: Seq<char>,
    got: nat,
) -> ErrorView {
    ErrorView::TaskFailed(
        what + task_id + " expected "@ + text::decimal_text(expected) + kind + text::decimal_text(
            got,
        ) + " payloads"@,
    )
}

fn payload_error(what: &str, task_id: &str, expected: usize, kind: &str, got: usize) -> (error:
    MiniRayError)
    ensures
        error@ == wrong_payload_count(what@, task_id@, expected as nat, kind@, got as nat),
{
    MiniRayError::TaskFailed(
        what.to_owned().concat(task_id).concat(" expected ").concat(
            text::decimal(expected).as_str(),
        ).concat(kind).concat(text::decimal(got).as_str()).concat(" payloads"),
    )
}

/// What running a leased task on the payloads of its dependencies may come to.
pub open spec fn may_execute_lease(
    registry: &TaskRegistry,
    lease: LeaseView,
    dependency_data: Vec<Vec<u8>>,
    r: Result<TaskExecution, MiniRayError>,
) -> bool {
    if dependency_data@.len() != lease.dependencies.len() {
        r matches Err(e) && e@ == wrong_payload_count(
            "task "@,
            lease.task_id,
            lease.dependencies.len(),
            " dependencies, got "@,
            dependency_data@.len(),
        )
    } else {
        exists|outcome: Outcome|
            {
                &&& #[trigger] registry.may_execute(lease.function_id, dependency_data, outcome)
                &&& executed(lease, outcome, r)
            }
    }
}

/// Runs a leased task on the payloads of its dependencies.
pub fn execute_lease(
    registry: &TaskRegistry,
    lease: &TaskLease,
    dependency_data: Vec<Vec<u8>>,
) -> (r: Result<TaskExecution, MiniRayError>)
    requires
        registry.wf(),
    ensures
        may_execute_lease(registry, lease@, dependency_data, r),
{
    if dependency_data.len() != lease.dependencies.len() {
        return Err(
            payload_error(
                "task ",
                lease.task_id.as_str(),
                lease.dependencies.len(),
                " dependencies, got ",
                dependency_data.len(),
            ),
        );
    }
    let outcome = registry.execute(lease.function_id.as_str(), dependency_data);
    assert(registry.may_execute(lease@.function_id, dependency_data, outcome));
    execution_of(lease, outcome)
}

/// The error for a plain task that is run as a call of an actor.
pub open spec fn not_an_actor_lease(task_id: Seq<char>) -> ErrorView {
    ErrorView::TaskFailed("task "@ + task_id + " is not an actor lease"@)
}

/// What running a leased call of an actor on its payloads may come to, and what it may do to the
/// actors of the worker.
pub open spec fn may_execute_actor_lease<S>(
    registry: &ActorRegistry<S>,
    before: Map<Seq<char>, InstanceView<S>>,
    lease: LeaseView,
    constructor_data: Vec<Vec<u8>>,
    dependency_data: Vec<Vec<u8>>,
    after: Map<Seq<char>, InstanceView<S>>,
    r: Result<TaskExecution, MiniRayError>,
) -> bool {
    if lease.actor_id.len() == 0 {
        after == before && (r matches Err(e) && e@ == not_an_actor_lease(lease.task_id))
    } else if constructor_data@.len() != lease.constructor_dependencies.len() {
        after == before && (r matches Err(e) && e@ == wrong_payload_count(
            "actor task "@,
            lease.task_id,
            lease.constructor_dependencies.len(),
            " constructor dependencies, got "@,
            constructor_data@.len(),
        ))
    } else if dependency_data@.len() != lease.dependencies.len() {
        after == before && (r matches Err(e) && e@ == wrong_payload_count(
            "actor task "@,
            lease.task_id,
            lease.dependencies.len(),
            " method dependencies, got "@,
            dependency_data@.len(),
        ))
    } else {
        exists|outcome: Outcome|
            {
                &&& #[trigger] registry.may_execute(
                    before,
                    lease.actor_id,
                    lease.actor_type,
                    lease.method_id,
                    constructor_data,
                    dependency_data,
                    after,
                    outcome,
                )
                &&& executed(lease, outcome, r)
            }
    }
}

/// Runs a leased call of an actor on its payloads.
pub fn execute_actor_lease<S>(
    registry: &ActorRegistry<S>,
    instances: &mut ActorInstanceStore<S>,
    lease: &TaskLease,
    constructor_data: Vec<Vec<u8>>,
    dependency_data: Vec<Vec<u8>>,
) -> (r: Result<TaskExecution, MiniRayError>)
    requires
        registry.wf(),
        old(instances).wf(),
    ensures
        final(instances).wf(),
        may_execute_actor_lease(
            registry,
            old(instances)@,
            lease@,
            constructor_data,
            dependency_data,
            final(instances)@,
            r,
        ),
{
    let ghost before = instances@;
    if !calls_actor(lease) {
        return Err(
            MiniRayError::TaskFailed(
                "task ".to_owned().concat(lease.task_id.as_str()).concat(" is not an actor lease"),
            ),
        );
    }
    if constructor_data.len() != lease.constructor_dependencies.len() {
        return Err(
            payload_error(
                "actor task ",
                lease.task_id.as_str(),
                lease.constructor_dependencies.len(),
                " constructor dependencies, got ",
                constructor_data.len(),
            ),
        );
    }
    if dependency_data.len() != lease.dependencies.len() {
        return Err(
            payload_error(
                "actor task ",
                lease.task_id.as_str(),
                lease.dependencies.len(),
                " method dependencies, got ",
                dependency_data.len(),
            ),
        );
    }
    let outcome = instances.execute(
        registry,
        lease.actor_id.as_str(),
        lease.actor_type.as_str(),
        lease.method_id.as_str(),
        constructor_data,
        dependency_data,
    );
    assert(registry.may_execute(
        before,
        lease@.actor_id,
        lease@.actor_type,
        lease@.method_id,
        constructor_data,
        dependency_data,
        instances@,
        outcome,
    ));
    execution_of(lease, outcome)
}

/// Whether a lease is a call of an actor.
pub fn calls_actor(lease: &TaskLease) -> (r: bool)
    ensures
        r == (lease@.actor_id.len() > 0),
{
    let empty = String::new();
    assert(lease.actor_id@.len() == 0 ==> lease.actor_id@ =~= empty@);
    !(lease.actor_id == empty)
}

/// What a worker tells the head node of a task in the end.
pub enum Report {
    /// The task is done.
    Complete(CompleteTaskRequest),
    /// The task could not be done.
    Fail(FailTaskRequest),
}

/// Whether `report` is what worker `w` says of a leased task that came to `r`.
pub open spec fn reports(
    w: WorkerId,
    lease: LeaseView,
    r: Result<TaskExecution, MiniRayError>,
    report: Report,
) -> bool {
    match r {
        Ok(execution) => {
            &&& report matches Report::Complete(request)
            &&& request.worker_id@ == w.text()
            &&& request.task_id@ == execution.task_id@
            &&& request.output_id@ == execution.output_id@
            &&& request.data@ == execution.data@
        },
        Err(e) => {
            &&& report matches Report::Fail(request)
            &&& request.worker_id@ == w.text()
            &&& request.task_id@ == lease.task_id
            &&& request.error@ == e@.text()
        },
    }
}

/// What a worker says of a leased task.
pub fn report_on(worker_id: WorkerId, lease: &TaskLease, r: Result<TaskExecution, MiniRayError>) -> (
report: Report)
    ensures
        reports(worker_id, lease@, r, report),
{
    match r {
        Ok(execution) => Report::Complete(
            CompleteTaskRequest {
                worker_id: worker_id.to_string(),
                task_id: execution.task_id,
                output_id: execution.output_id,
                data: execution.data,
            },
        ),
        Err(error) => Report::Fail(
            FailTaskRequest {
                worker_id: worker_id.to_string(),
                task_id: lease.task_id.clone(),
                error: error.to_string(),
            },
        ),
    }
}

/// The objects that a worker has to fetch before it can run a leased task, in order: those that the
/// task takes, and then, where the task is a call of an actor, those that its constructor takes.
pub open spec fn wanted(lease: LeaseView) -> Seq<Seq<char>> {
    if lease.actor_id.len() > 0 {
        lease.dependencies + lease.constructor_dependencies
    } else {
        lease.dependencies
    }
}

/// A leased task for which a worker is fetching objects.
pub struct LeaseRun {
    lease: TaskLease,
    args: Vec<Vec<u8>>,
    constructor_args: Vec<Vec<u8>>,
}

impl LeaseRun {
    /// The leased task.
    pub closed spec fn lease(&self) -> LeaseView {
        self.lease@
    }

    /// The payloads for the task that have been fetched.
    pub closed spec fn args(&self) -> Vec<Vec<u8>> {
        self.args
    }

    /// The payloads for the constructor that have been fetched.
    pub closed spec fn constructor_args(&self) -> Vec<Vec<u8>> {
        self.constructor_args
    }

    /// The payloads that have been fetched, in order.
    pub open spec fn fetched(&self) -> Seq<Vec<u8>> {
        self.args()@ + self.constructor_args()@
    }

    /// No more has been fetched than is wanted, and nothing for the constructor before everything
    /// for the task.
    pub open spec fn wf(&self) -> bool {
        &&& self.fetched().len() <= wanted(self.lease()).len()
        &&& self.args()@.len() <= self.lease().dependencies.len()
        &&& self.constructor_args()@.len() > 0 ==> self.args()@.len()
            == self.lease().dependencies.len()
    }

    fn begin(lease: TaskLease) -> (run: Self)
        ensures
            run.wf(),
            run.lease() == lease@,
            run.fetched() == Seq::<Vec<u8>>::empty(),
    {
        let run = LeaseRun { lease, args: Vec::new(), constructor_args: Vec::new() };
        assert(run.fetched() =~= Seq::<Vec<u8>>::empty());
        run
    }

    fn receive(&mut self, data: Vec<u8>)
        requires
            old(self).wf(),
            old(self).fetched().len() < wanted(old(self).lease()).len(),
        ensures
            final(self).wf(),
            final(self).lease() == old(self).lease(),
            final(self).fetched() == old(self).fetched().push(data),
    {
        let ghost before = *self;
        if self.args.len() < self.lease.dependencies.len() {
            self.args.push(data);
        } else {
            self.constructor_args.push(data);
        }
        assert(self.fetched() =~= before.fetched().push(data));
    }

    /// The next object to fetch, if there is one.
    fn missing(&self) -> (r: Option<String>)
        requires
            self.wf(),
        ensures
            match r {
                Some(object_id) => {
                    &&& self.fetched().len() < wanted(self.lease()).len()
                    &&& object_id@ == wanted(self.lease())[self.fetched().len() as int]
                },
                None => self.fetched().len() == wanted(self.lease()).len(),
            },
    {
        let have = self.args.len();
        if have < self.lease.dependencies.len() {
            return Some(self.lease.dependencies[have].clone());
        }
        let have = self.constructor_args.len();
        if calls_actor(&self.lease) && have < self.lease.constructor_dependencies.len() {
            return Some(self.lease.constructor_dependencies[have].clone());
        }
        None
    }
}

impl LeaseRun {
    /// Once all that a task wants has been fetched, the task gets what was fetched for its
    /// dependencies, and the constructor what was fetched for it, each in order: the numbers of
    /// payloads are always right.
    pub proof fn payloads_are_complete(self)
        requires
            self.wf(),
            self.fetched().len() == wanted(self.lease()).len(),
        ensures
            self.args()@ == self.fetched().take(self.lease().dependencies.len() as int),
            self.constructor_args()@ == self.fetched().skip(
                self.lease().dependencies.len() as int,
            ),
            self.args()@.len() == self.lease().dependencies.len(),
            self.lease().actor_id.len() > 0 ==> self.constructor_args()@.len()
                == self.lease().constructor_dependencies.len(),
    {
        assert(self.args()@.len() == self.lease().dependencies.len());
        assert(self.args()@ =~= self.fetched().take(self.lease().dependencies.len() as int));
        assert(self.constructor_args()@ =~= self.fetched().skip(
            self.lease().dependencies.len() as int,
        ));
    }
}

/// What a worker does next about a leased task.
pub enum LeaseStep {
    /// It asks for an object, and goes on when it has the answer.
    Fetch(GetObjectRequest, LeaseRun),
    /// It is done with the task.
    Report(Report),
}

/// A worker: what it can run, and the actors that live with it.
#[verifier::reject_recursive_types(S)]
pub struct Worker<S> {
    worker_id: WorkerId,
    config: WorkerConfig,
    registry: TaskRegistry,
    actor_registry: ActorRegistry<S>,
    actor_instances: ActorInstanceStore<S>,
}

impl<S> Worker<S> {
    /// The worker's identifier.
    pub closed spec fn id(&self) -> WorkerId {
        self.worker_id
    }

    /// The worker's setup.
    pub closed spec fn setup(&self) -> WorkerConfig {
        self.config
    }

    /// The tasks that the worker can run.
    pub closed spec fn tasks(&self) -> TaskRegistry {
        self.registry
    }

    /// The actor types that the worker knows.
    pub closed spec fn actor_types(&self) -> ActorRegistry<S> {
        self.actor_registry
    }

    /// The actors that live with the worker.
    pub closed spec fn actors(&self) -> Map<Seq<char>, InstanceView<S>> {
        self.actor_instances@
    }

    /// What holds of every worker.
    pub closed spec fn wf(&self) -> bool {
        self.registry.wf() && self.actor_registry.wf() && self.actor_instances.wf()
    }

    /// This worker is another one but for its actors.
    pub open spec fn same_but_actors(&self, other: &Self) -> bool {
        &&& self.id() == other.id()
        &&& self.setup() == other.setup()
        &&& self.tasks() == other.tasks()
        &&& self.actor_types() == other.actor_types()
    }

    /// A worker under a fresh identifier, without actors.
    pub fn new(
        config: WorkerConfig,
        registry: TaskRegistry,
        actor_registry: ActorRegistry<S>,
    ) -> (worker: Self)
        requires
            registry.wf(),
            actor_registry.wf(),
        ensures
            worker.wf(),
            worker.setup() == config,
            worker.tasks() == registry,
            worker.actor_types() == actor_registry,
            worker.actors() == Map::<Seq<char>, InstanceView<S>>::empty(),
            uuid_text::may_draw(worker.id()@),
            worker.id()@ & 0xf000_c000_0000_0000_0000 == 0x4000_8000_0000_0000_0000,
    {
        Worker {
            worker_id: WorkerId::new(),
            config,
            registry,
            actor_registry,
            actor_instances: ActorInstanceStore::new(),
        }
    }

    /// The worker's identifier.
    pub fn worker_id(&self) -> (id: WorkerId)
        ensures
            id == self.id(),
    {
        self.worker_id
    }

    /// The worker's setup.
    pub fn config(&self) -> (config: &WorkerConfig)
        ensures
            *config == self.setup(),
    {
        &self.config
    }

    /// How the worker announces itself.
    pub fn register_request(&self) -> (request: RegisterWorkerRequest)
        ensures
            request.worker_id@ == self.id().text(),
            request.slots == self.setup().slots,
    {
        RegisterWorkerRequest {
            worker_id: self.worker_id.to_string(),
            slots: self.config.slots,
        }
    }

    /// How the worker gives a sign of life.
    pub fn heartbeat_request(&self) -> (request: HeartbeatRequest)
        ensures
            request.worker_id@ == self.id().text(),
            request.running == 0,
            request.queued == 0,
    {
        HeartbeatRequest { worker_id: self.worker_id.to_string(), running: 0, queued: 0 }
    }

    /// How the worker asks for tasks.
    pub fn poll_request(&self) -> (request: PollTaskRequest)
        ensures
            request.worker_id@ == self.id().text(),
            request.capacity == self.setup().poll_capacity,
    {
        PollTaskRequest {
            worker_id: self.worker_id.to_string(),
            capacity: self.config.poll_capacity,
        }
    }

    /// What the worker may make of a leased task once everything is fetched.
    pub open spec fn may_finish(
        &self,
        run: LeaseRun,
        after: Map<Seq<char>, InstanceView<S>>,
        report: Report,
    ) -> bool {
        exists|r: Result<TaskExecution, MiniRayError>|
            {
                &&& #[trigger] reports(self.id(), run.lease(), r, report)
                &&& if run.lease().actor_id.len() > 0 {
                    may_execute_actor_lease(
                        &self.actor_types(),
                        self.actors(),
                        run.lease(),
                        run.constructor_args(),
                        run.args(),
                        after,
                        r,
                    )
                } else {
                    after == self.actors() && may_execute_lease(
                        &self.tasks(),
                        run.lease(),
                        run.args(),
                        r,
                    )
                }
            }
    }

    /// What the worker may do next about a leased task: it fetches the next object that is missing,
    /// or, where none is, it runs the task and reports.
    pub open spec fn may_advance(
        &self,
        run: LeaseRun,
        after: Map<Seq<char>, InstanceView<S>>,
        step: LeaseStep,
    ) -> bool {
        let want = wanted(run.lease());
        if run.fetched().len() < want.len() {
            &&& step matches LeaseStep::Fetch(request, next)
            &&& request.object_id@ == want[run.fetched().len() as int]
            &&& next == run
            &&& after == self.actors()
        } else {
            step matches LeaseStep::Report(report) && self.may_finish(run, after, report)
        }
    }

    fn advance(&mut self, run: LeaseRun) -> (step: LeaseStep)
        requires
            old(self).wf(),
            run.wf(),
        ensures
            final(self).wf(),
            final(self).same_but_actors(old(self)),
            old(self).may_advance(run, final(self).actors(), step),
    {
        if let Some(object_id) = run.missing() {
            return LeaseStep::Fetch(GetObjectRequest { object_id }, run);
        }
        let LeaseRun { lease, args, constructor_args } = run;
        let r = if calls_actor(&lease) {
            execute_actor_lease(
                &self.actor_registry,
                &mut self.actor_instances,
                &lease,
                constructor_args,
                args,
            )
        } else {
            execute_lease(&self.registry, &lease, args)
        };
        let report = report_on(self.worker_id, &lease, r);
        assert(reports(old(self).id(), run.lease(), r, report));
        LeaseStep::Report(report)
    }

    /// Takes up a leased task.
    pub fn start_lease(&mut self, lease: TaskLease) -> (step: LeaseStep)
        requires
            old(self).wf(),
        ensures
            final(self).wf(),
            final(self).same_but_actors(old(self)),
            exists|run: LeaseRun|
                {
                    &&& run.wf()
                    &&& run.lease() == lease@
                    &&& run.fetched() == Seq::<Vec<u8>>::empty()
                    &&& #[trigger] old(self).may_advance(run, final(self).actors(), step)
                },
    {
        let run = LeaseRun::begin(lease);
        self.advance(run)
    }

    /// Goes on with a leased task when the answer to a fetch has come: the object's bytes, or why
    /// they could not be had.
    pub fn continue_lease(&mut self, run: LeaseRun, answer: Result<Vec<u8>, String>) -> (step:
        LeaseStep)
        requires
            old(self).wf(),
            run.wf(),
            run.fetched().len() < wanted(run.lease()).len(),
        ensures
            final(self).wf(),
            final(self).same_but_actors(old(self)),
            match answer {
                Ok(data) => exists|next: LeaseRun|
                    {
                        &&& next.wf()
                        &&& next.lease() == run.lease()
                        &&& next.fetched() == run.fetched().push(data)
                        &&& #[trigger] old(self).may_advance(next, final(self).actors(), step)
                    },
                Err(message) => {
                    &&& final(self).actors() == old(self).actors()
                    &&& step matches LeaseStep::Report(report)
                    &&& report matches Report::Fail(request)
                    &&& request.worker_id@ == old(self).id().text()
                    &&& request.task_id@ == run.lease().task_id
                    &&& request.error@ == ErrorView::Transport(message@).text()
                },
            },
    {
        match answer {
            Ok(data) => {
                let mut next = run;
                next.receive(data);
                self.advance(next)
            },
            Err(message) => {
                let report = report_on(
                    self.worker_id,
                    &run.lease,
                    Err(MiniRayError::Transport(message)),
                );
                LeaseStep::Report(report)
            },
        }
    }
}

/// A worker fetches the objects that a task takes, in their order, and then, for a call of an actor,
/// those that the constructor takes, in theirs; for a plain task it fetches nothing else.
pub proof fn objects_are_wanted_in_order(lease: LeaseView, i: int)
    ensures
        lease.actor_id.len() == 0 ==> wanted(lease).len() == lease.dependencies.len(),
        lease.actor_id.len() > 0 ==> wanted(lease).len() == lease.dependencies.len()
            + lease.constructor_dependencies.len(),
        0 <= i < lease.dependencies.len() ==> wanted(lease)[i] == lease.dependencies[i],
        lease.actor_id.len() > 0 && 0 <= i < lease.constructor_dependencies.len() ==> wanted(
            lease,
        )[lease.dependencies.len() + i] == lease.constructor_dependencies[i],
{
}

/// A worker reports a result under its own name, for the task and the output of the lease, with the
/// bytes that the task came to; and a failure under its own name, for the task of the lease, with the
/// error in words.
pub proof fn outcomes_are_reported_for_the_lease(
    w: WorkerId,
    lease: LeaseView,
    outcome: Outcome,
    r: Result<TaskExecution, MiniRayError>,
    report: Report,
)
    requires
        executed(lease, outcome, r),
        reports(w, lease, r, report),
    ensures
        match outcome {
            Ok(data) => {
                &&& report matches Report::Complete(request)
                &&& request.worker_id@ == uuid_text::hyphenated_text(w.0)
                &&& request.task_id@ == lease.task_id
                &&& request.output_id@ == lease.output_id
                &&& request.data@ == data@
            },
            Err(e) => {
                &&& report matches Report::Fail(request)
                &&& request.worker_id@ == uuid_text::hyphenated_text(w.0)
                &&& request.task_id@ == lease.task_id
                &&& request.error@ == e@.text()
            },
        },
{
}

/// A leased task comes to what the handler of its function may return for the payloads of its
/// dependencies; it fails where there are more or fewer payloads than dependencies, or no such
/// handler, and the error says so.
pub proof fn leases_run_their_own_functions(
    registry: &TaskRegistry,
    lease: LeaseView,
    dependency_data: Vec<Vec<u8>>,
    r: Result<TaskExecution, MiniRayError>,
)
    requires
        may_execute_lease(registry, lease, dependency_data, r),
    ensures
        ({
            let complete = dependency_data@.len() == lease.dependencies.len();
            let known = registry.ids().contains(lease.function_id);
            &&& !complete ==> (r matches Err(e) && e@ == ErrorView::TaskFailed(
                "task "@ + lease.task_id + " expected "@ + text::decimal_text(
                    lease.dependencies.len(),
                ) + " dependencies, got "@ + text::decimal_text(dependency_data@.len())
                    + " payloads"@,
            ))
            &&& complete && !known ==> (r matches Err(e) && e@ == ErrorView::TaskFailed(
                "unknown handler "@ + lease.function_id,
            ))
            &&& complete && known ==> match r {
                Ok(execution) => {
                    &&& execution.task_id@ == lease.task_id
                    &&& execution.output_id@ == lease.output_id
                    &&& registry.allows(lease.function_id, dependency_data, Ok(execution.data))
                },
                Err(e) => registry.allows(lease.function_id, dependency_data, Err(e)),
            }
        }),
{
}

/// A leased call comes to what calling the method of the actor with the payloads of the call, and the
/// constructor's payloads for an actor that is to be made, may come to. It fails, and touches no
/// actor, where it is no call of an actor or where there are more or fewer payloads than it names
/// objects, and the error says so.
pub proof fn leased_calls_run_on_their_actor<S>(
    registry: &ActorRegistry<S>,
    before: Map<Seq<char>, InstanceView<S>>,
    lease: LeaseView,
    constructor_data: Vec<Vec<u8>>,
    dependency_data: Vec<Vec<u8>>,
    after: Map<Seq<char>, InstanceView<S>>,
    r: Result<TaskExecution, MiniRayError>,
)
    requires
        may_execute_actor_lease(
            registry,
            before,
            lease,
            constructor_data,
            dependency_data,
            after,
            r,
        ),
    ensures
        ({
            let wants = lease.constructor_dependencies.len();
            let takes = lease.dependencies.len();
            let call = lease.actor_id.len() > 0;
            let complete = constructor_data@.len() == wants && dependency_data@.len() == takes;
            &&& !call || !complete ==> after == before && r is Err
            &&& !call ==> (r matches Err(e) && e@ == ErrorView::TaskFailed(
                "task "@ + lease.task_id + " is not an actor lease"@,
            ))
            &&& call && constructor_data@.len() != wants ==> (r matches Err(e) && e@
                == ErrorView::TaskFailed(
                "actor task "@ + lease.task_id + " expected "@ + text::decimal_text(wants)
                    + " constructor dependencies, got "@ + text::decimal_text(
                    constructor_data@.len(),
                ) + " payloads"@,
            ))
            &&& call && constructor_data@.len() == wants && dependency_data@.len() != takes ==> (
            r matches Err(e) && e@ == ErrorView::TaskFailed(
                "actor task "@ + lease.task_id + " expected "@ + text::decimal_text(takes)
                    + " method dependencies, got "@ + text::decimal_text(dependency_data@.len())
                    + " payloads"@,
            ))
            &&& call && complete ==> {
                &&& r matches Ok(execution) ==> execution.task_id@ == lease.task_id
                    && execution.output_id@ == lease.output_id
                &&& registry.may_execute(
                    before,
                    lease.actor_id,
                    lease.actor_type,
                    lease.method_id,
                    constructor_data,
                    dependency_data,
                    after,
                    match r {
                        Ok(execution) => Ok(execution.data),
                        Err(e) => Err(e),
                    },
                )
            }
        }),
{
}

impl<S> Worker<S> {
    /// A leased task leaves the worker's name, its setup and what it can run as they were.
    pub proof fn only_actors_change(&self, other: &Self)
        requires
            self.same_but_actors(other),
        ensures
            self.id() == other.id(),
            self.setup() == other.setup(),
            self.tasks() == other.tasks(),
            self.actor_types() == other.actor_types(),
    {
    }

    /// As long as an object is missing, the worker asks for the next one and leaves its actors alone;
    /// and it reports once none is missing, not before.
    pub proof fn objects_are_fetched_before_the_report(
        &self,
        run: LeaseRun,
        after: Map<Seq<char>, InstanceView<S>>,
        step: LeaseStep,
    )
        requires
            self.may_advance(run, after, step),
        ensures
            ({
                let got = run.fetched().len() as int;
                let takes = run.lease().dependencies;
                let needs = run.lease().constructor_dependencies;
                let call = run.lease().actor_id.len() > 0;
                let missing = got < takes.len() || call && got < takes.len() + needs.len();
                &&& missing ==> {
                    &&& step matches LeaseStep::Fetch(request, next)
                    &&& next == run
                    &&& request.object_id@ == if got < takes.len() {
                        takes[got]
                    } else {
                        needs[got - takes.len()]
                    }
                    &&& after == self.actors()
                }
                &&& !missing ==> step is Report
            }),
    {
    }

    /// What a worker reports of a plain task for which it has everything is what running its function
    /// on what was fetched may come to; it leaves the worker's actors alone.
    pub proof fn plain_tasks_are_run_and_reported(
        &self,
        run: LeaseRun,
        after: Map<Seq<char>, InstanceView<S>>,
        step: LeaseStep,
    )
        requires
            self.may_advance(run, after, step),
            run.wf(),
            run.lease().actor_id.len() == 0,
            run.fetched().len() == run.lease().dependencies.len(),
        ensures
            ({
                let lease = run.lease();
                &&& after == self.actors()
                &&& run.args()@ == run.fetched()
                &&& exists|outcome: Outcome|
                    {
                        &&& #[trigger] self.tasks().may_execute(
                            lease.function_id,
                            run.args(),
                            outcome,
                        )
                        &&& match outcome {
                            Ok(data) => {
                                &&& step matches LeaseStep::Report(Report::Complete(request))
                                &&& request.worker_id@ == uuid_text::hyphenated_text(self.id().0)
                                &&& request.task_id@ == lease.task_id
                                &&& request.output_id@ == lease.output_id
                                &&& request.data@ == data@
                            },
                            Err(e) => {
                                &&& step matches LeaseStep::Report(Report::Fail(request))
                                &&& request.worker_id@ == uuid_text::hyphenated_text(self.id().0)
                                &&& request.task_id@ == lease.task_id
                                &&& request.error@ == e@.text()
                            },
                        }
                    }
            }),
    {
        run.payloads_are_complete();
        assert(run.args()@ =~= run.fetched());
        if let LeaseStep::Report(report) = step {
            let r = choose|r: Result<TaskExecution, MiniRayError>|
                {
                    &&& #[trigger] reports(self.id(), run.lease(), r, report)
                    &&& after == self.actors() && may_execute_lease(
                        &self.tasks(),
                        run.lease(),
                        run.args(),
                        r,
                    )
                };
            let outcome: Outcome = match r {
                Ok(execution) => Ok(execution.data),
                Err(e) => Err(e),
            };
            assert(self.tasks().may_execute(run.lease().function_id, run.args(), outcome));
        }
    }

    /// What a worker reports of a call of an actor for which it has everything is what calling the
    /// method may come to, on what was fetched for the call and for the constructor; and its actors
    /// are then as that call leaves them.
    pub proof fn calls_are_run_and_reported(
        &self,
        run: LeaseRun,
        after: Map<Seq<char>, InstanceView<S>>,
        step: LeaseStep,
    )
        requires
            self.may_advance(run, after, step),
            run.wf(),
            run.lease().actor_id.len() > 0,
            run.fetched().len() == run.lease().dependencies.len()
                + run.lease().constructor_dependencies.len(),
        ensures
            ({
                let lease = run.lease();
                &&& run.args()@ == run.fetched().take(lease.dependencies.len() as int)
                &&& run.constructor_args()@ == run.fetched().skip(lease.dependencies.len() as int)
                &&& exists|outcome: Outcome|
                    {
                        &&& #[trigger] self.actor_types().may_execute(
                            self.actors(),
                            lease.actor_id,
                            lease.actor_type,
                            lease.method_id,
                            run.constructor_args(),
                            run.args(),
                            after,
                            outcome,
                        )
                        &&& match outcome {
                            Ok(data) => {
                                &&& step matches LeaseStep::Report(Report::Complete(request))
                                &&& request.worker_id@ == uuid_text::hyphenated_text(self.id().0)
                                &&& request.task_id@ == lease.task_id
                                &&& request.output_id@ == lease.output_id
                                &&& request.data@ == data@
                            },
                            Err(e) => {
                                &&& step matches LeaseStep::Report(Report::Fail(request))
                                &&& request.worker_id@ == uuid_text::hyphenated_text(self.id().0)
                                &&& request.task_id@ == lease.task_id
                                &&& request.error@ == e@.text()
                            },
                        }
                    }
            }),
    {
        run.payloads_are_complete();
        if let LeaseStep::Report(report) = step {
            let r = choose|r: Result<TaskExecution, MiniRayError>|
                {
                    &&& #[trigger] reports(self.id(), run.lease(), r, report)
                    &&& may_execute_actor_lease(
                        &self.actor_types(),
                        self.actors(),
                        run.lease(),
                        run.constructor_args(),
                        run.args(),
                        after,
                        r,
                    )
                };
            let outcome: Outcome = match r {
                Ok(execution) => Ok(execution.data),
                Err(e) => Err(e),
            };
            assert(self.actor_types().may_execute(
                self.actors(),
                run.lease().actor_id,
                run.lease().actor_type,
                run.lease().method_id,
                run.constructor_args(),
                run.args(),
                after,
                outcome,
            ));
        }
    }
}

} // verus!
