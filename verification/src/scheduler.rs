use crate::clock::{
    accept_timestamp, delay_between, delay_until, instant_of, now, resolve, resolved,
    write_timestamp, written_as, Delay, Instant,
};
use crate::error::Error;
use crate::models::{
    parameters_or_empty, parameters_view, CancelTaskRequest, CancelTaskResponse,
    ListTasksResponse, PingRequest, PingResponse, ScheduleTaskRequest, ScheduleTaskResponse,
    ScheduleTimeView, TaskInfo, TaskInfoView, TaskStatus,
};
use crate::parameters::Parameters;
use crate::registry::{
    evolves_to, has_task, ids_distinct, lemma_evolved_status, lemma_request_evolves,
    lemma_task_index, request_status, status_of, task_index, TaskRegistry,
};
use crate::trigger::{TriggerHandle, TriggerHandles};
use vstd::prelude::*;

verus! {

/// What the trigger backend is asked to arm: a trigger that fires once, at
/// `fire_at`, for the task `task_id`. `delay` is the time left until then.
#[derive(Debug)]
pub struct ArmRequest {
    pub task_id: String,
    pub fire_at: Instant,
    pub delay: Delay,
}

/// The call that the handler is owed when a trigger has fired.
#[derive(Debug)]
pub struct FiredTask {
    pub task_id: String,
    pub task_name: String,
    pub parameters: Parameters,
}

/// How a cancellation goes on: it is done, with its answer, or a trigger is
/// still to be disarmed by the backend.
#[derive(Debug)]
pub enum CancelStep {
    Done(CancelTaskResponse),
    Disarm(TriggerHandle),
}

/// `records` after the task `task_id` went from the status `from` to the
/// status `to`: it does so where `from` is its status, and nothing changes
/// otherwise.
pub open spec fn move_status(
    records: Seq<TaskInfoView>,
    task_id: Seq<char>,
    from: TaskStatus,
    to: TaskStatus,
) -> Seq<TaskInfoView> {
    if status_of(records, task_id) == Some(from) {
        request_status(records, task_id, to)
    } else {
        records
    }
}

/// The record that a request to schedule leaves in the registry.
pub open spec fn scheduled_record(
    payload: ScheduleTaskRequest,
    task_id: Seq<char>,
    scheduled_time: Seq<char>,
) -> TaskInfoView {
    TaskInfoView {
        task_id,
        task_name: payload.task_name@,
        scheduled_time,
        status: TaskStatus::Scheduled,
        parameters: parameters_view(payload.parameters),
    }
}

/// The status of the task `task_id` is `status` among `records`, and no other
/// record has that identifier.
pub open spec fn listed_once(
    records: Seq<TaskInfoView>,
    task_id: Seq<char>,
    status: TaskStatus,
) -> bool {
    exists|i: int|
        {
            &&& 0 <= i < records.len()
            &&& #[trigger] records[i].task_id == task_id
            &&& records[i].status == status
            &&& forall|j: int|
                0 <= j < records.len() && #[trigger] records[j].task_id == task_id ==> j == i
        }
}

/// A task that was just scheduled under a new identifier is listed once, as
/// `Scheduled`.
pub proof fn lemma_scheduled_is_listed_once(before: Seq<TaskInfoView>, record: TaskInfoView)
    requires
        ids_distinct(before),
        !has_task(before, record.task_id),
        record.status == TaskStatus::Scheduled,
    ensures
        ids_distinct(before.push(record)),
        listed_once(before.push(record), record.task_id, TaskStatus::Scheduled),
        status_of(before.push(record), record.task_id) == Some(TaskStatus::Scheduled),
{
    let after = before.push(record);
    let last = before.len() as int;
    assert forall|i: int, j: int| 0 <= i < j < after.len() implies after[i].task_id
        != after[j].task_id by {
        if j == last {
            assert(before[i].task_id != record.task_id);
        }
    }
    assert(after[last].task_id == record.task_id);
    assert forall|j: int| 0 <= j < after.len() && #[trigger] after[j].task_id
        == record.task_id implies j == last by {
        if j < last {
            assert(before[j].task_id == record.task_id);
        }
    }
    lemma_task_index(after, last);
}

/// Once a task that awaited its trigger is cancelled, it is `Cancelled` in
/// every later state, and a trigger that fires for it then changes nothing
/// and runs nothing.
pub proof fn lemma_cancelled_is_never_run(
    before: Seq<TaskInfoView>,
    later: Seq<TaskInfoView>,
    task_id: Seq<char>,
)
    requires
        ids_distinct(before),
        ids_distinct(later),
        status_of(before, task_id) == Some(TaskStatus::Scheduled),
        evolves_to(
            move_status(before, task_id, TaskStatus::Scheduled, TaskStatus::Cancelled),
            later,
        ),
    ensures
        status_of(
            move_status(before, task_id, TaskStatus::Scheduled, TaskStatus::Cancelled),
            task_id,
        ) == Some(TaskStatus::Cancelled),
        status_of(later, task_id) == Some(TaskStatus::Cancelled),
        move_status(later, task_id, TaskStatus::Scheduled, TaskStatus::Running) == later,
{
    let cancelled = move_status(before, task_id, TaskStatus::Scheduled, TaskStatus::Cancelled);
    lemma_request_evolves(before, task_id, TaskStatus::Cancelled);
    let i = task_index(before, task_id);
    assert(cancelled[i].task_id == task_id);
    lemma_task_index(cancelled, i);
    lemma_evolved_status(cancelled, later, task_id);
}

/// What holds of the records and the live triggers of an engine at any time:
/// no identifier occurs twice, and only a task that awaits its trigger has a
/// live one.
pub open spec fn valid_state(
    tasks: Seq<TaskInfoView>,
    handles: Map<Seq<char>, TriggerHandle>,
) -> bool {
    &&& ids_distinct(tasks)
    &&& forall|task_id: Seq<char>| #[trigger]
        handles.contains_key(task_id) ==> status_of(tasks, task_id) == Some(TaskStatus::Scheduled)
}

/// A status asked for one task leaves the status of every other task as it
/// was.
pub proof fn lemma_request_keeps_others(
    records: Seq<TaskInfoView>,
    task_id: Seq<char>,
    requested: TaskStatus,
    other: Seq<char>,
)
    requires
        ids_distinct(records),
        other != task_id,
    ensures
        status_of(request_status(records, task_id, requested), other) == status_of(records, other),
{
    let after = request_status(records, task_id, requested);
    lemma_request_evolves(records, task_id, requested);
    if has_task(records, other) {
        let i = task_index(records, other);
        assert(after[i] == records[i]);
        lemma_task_index(after, i);
    }
}

/// A status asked for a task gives it the status that the step allows.
pub proof fn lemma_request_sets_status(
    records: Seq<TaskInfoView>,
    task_id: Seq<char>,
    requested: TaskStatus,
)
    requires
        ids_distinct(records),
        has_task(records, task_id),
    ensures
        status_of(request_status(records, task_id, requested), task_id) == Some(
            status_of(records, task_id).unwrap().after(requested),
        ),
{
    let after = request_status(records, task_id, requested);
    lemma_request_evolves(records, task_id, requested);
    let i = task_index(records, task_id);
    assert(after[i].task_id == task_id);
    lemma_task_index(after, i);
}

/// Draws a new identifier with uuid's `Uuid::new_v4` and writes it out with
/// its `Display`. The identifier is random, so nothing is claimed of it.
#[verifier::external_body]
fn random_task_id() -> (task_id: String) {
    uuid::Uuid::new_v4().to_string()
}

/// The scheduling engine: the registry of tasks and the live triggers. It
/// decides; arming and disarming triggers and running handlers is left to
/// the host, which reports back what happened.
#[derive(Debug)]
pub struct ScheduleTask {
    scheduled_tasks: TaskRegistry,
    job_ids: TriggerHandles,
}

impl ScheduleTask {
    /// The records of all tasks, in the order in which they were scheduled.
    pub closed spec fn tasks(&self) -> Seq<TaskInfoView> {
        self.scheduled_tasks@
    }

    /// The live triggers, by task identifier.
    pub closed spec fn handles(&self) -> Map<Seq<char>, TriggerHandle> {
        self.job_ids@
    }

    /// Validity: see `valid_state`.
    #[verifier::type_invariant]
    pub open spec fn well_formed(&self) -> bool {
        valid_state(self.tasks(), self.handles())
    }

    /// An engine without tasks.
    pub fn new() -> (engine: Self)
        ensures
            engine.tasks() == Seq::<TaskInfoView>::empty(),
            engine.handles() == Map::<Seq<char>, TriggerHandle>::empty(),
            valid_state(engine.tasks(), engine.handles()),
    {
        ScheduleTask { scheduled_tasks: TaskRegistry::new(), job_ids: TriggerHandles::new() }
    }

    /// Takes the registry and the live triggers out, leaving an engine
    /// without tasks.
    fn take(&mut self) -> (parts: (TaskRegistry, TriggerHandles))
        ensures
            parts.0@ == old(self).tasks(),
            parts.1@ == old(self).handles(),
            valid_state(parts.0@, parts.1@),
            final(self).tasks() == Seq::<TaskInfoView>::empty(),
            final(self).handles() == Map::<Seq<char>, TriggerHandle>::empty(),
    {
        proof {
            use_type_invariant(&*self);
        }
        let mut handles = TriggerHandles::new();
        std::mem::swap(&mut handles, &mut self.job_ids);
        let mut registry = TaskRegistry::new();
        std::mem::swap(&mut registry, &mut self.scheduled_tasks);
        (registry, handles)
    }

    /// Puts a registry and live triggers in the place of those of an engine
    /// without tasks.
    fn put(&mut self, registry: TaskRegistry, handles: TriggerHandles)
        requires
            old(self).handles() == Map::<Seq<char>, TriggerHandle>::empty(),
            valid_state(registry@, handles@),
        ensures
            final(self).tasks() == registry@,
            final(self).handles() == handles@,
            valid_state(final(self).tasks(), final(self).handles()),
    {
        self.scheduled_tasks = registry;
        self.job_ids = handles;
    }

    /// Answers with the value of the request.
    pub fn ping(&self, payload: PingRequest) -> (response: Result<PingResponse, Error>)
        ensures
            response is Ok,
            response.unwrap().value == payload.value,
    {
        Ok(PingResponse { value: payload.value })
    }

    /// Registers the task `task_name` under the identifier `task_id`, to fire
    /// at `fire_at`, where `written` is that instant written as a timestamp and
    /// `now` the current instant, and says what trigger is to be armed.
    ///
    /// Fails with `DuplicateTaskId` where the identifier is in use, and else
    /// with `InvalidTimestamp` where `written` is missing or does not read
    /// back as `fire_at`. Nothing is registered then.
    pub fn register_task(
        &mut self,
        task_id: String,
        task_name: String,
        parameters: Option<Parameters>,
        now: Instant,
        fire_at: Instant,
        written: Option<String>,
    ) -> (armed: Result<ArmRequest, Error>)
        ensures
            final(self).handles() == old(self).handles(),
            evolves_to(old(self).tasks(), final(self).tasks()),
            valid_state(final(self).tasks(), final(self).handles()),
            armed is Ok <==> !has_task(old(self).tasks(), task_id@) && written_as(written, fire_at),
            match armed {
                Ok(arm) => {
                    &&& arm.task_id@ == task_id@
                    &&& arm.fire_at == fire_at
                    &&& arm.delay == delay_between(now, fire_at)
                    &&& final(self).tasks() == old(self).tasks().push(
                        TaskInfoView {
                            task_id: task_id@,
                            task_name: task_name@,
                            scheduled_time: written.unwrap()@,
                            status: TaskStatus::Scheduled,
                            parameters: parameters_view(parameters),
                        },
                    )
                    &&& listed_once(final(self).tasks(), task_id@, TaskStatus::Scheduled)
                },
                Err(e) => {
                    &&& final(self).tasks() == old(self).tasks()
                    &&& e == (if has_task(old(self).tasks(), task_id@) {
                        Error::DuplicateTaskId
                    } else {
                        Error::InvalidTimestamp
                    })
                },
            },
    {
        let (mut registry, handles) = self.take();
        if registry.contains(task_id.as_str()) {
            self.put(registry, handles);
            return Err(Error::DuplicateTaskId);
        }
        let scheduled_time = match accept_timestamp(fire_at, written) {
            Ok(text) => text,
            Err(e) => {
                self.put(registry, handles);
                return Err(e);
            },
        };
        let arm = ArmRequest { task_id: task_id.clone(), fire_at, delay: delay_until(now, fire_at) };
        let record = TaskInfo {
            task_id,
            task_name,
            scheduled_time,
            status: TaskStatus::Scheduled,
            parameters,
        };
        proof {
            lemma_scheduled_is_listed_once(registry@, record@);
            assert forall|other: Seq<char>| #[trigger]
                handles@.contains_key(other) implies status_of(registry@.push(record@), other)
                == Some(TaskStatus::Scheduled) by {
                let i = task_index(registry@, other);
                assert(registry@.push(record@)[i] == registry@[i]);
                lemma_task_index(registry@.push(record@), i);
            }
        }
        registry.insert(record);
        self.put(registry, handles);
        Ok(arm)
    }

    /// Registers a task for the request `payload`, read at the instant `now`,
    /// under the identifier `task_id`, and says what trigger is to be armed.
    ///
    /// Fails with `InvalidTimestamp`, and registers nothing, where the schedule
    /// time names no instant or the instant cannot be written as a timestamp;
    /// with `DuplicateTaskId` where the schedule time names an instant and the
    /// identifier is in use.
    pub fn schedule_task_at(
        &mut self,
        payload: ScheduleTaskRequest,
        now: Instant,
        task_id: String,
    ) -> (armed: Result<ArmRequest, Error>)
        ensures
            final(self).handles() == old(self).handles(),
            evolves_to(old(self).tasks(), final(self).tasks()),
            valid_state(final(self).tasks(), final(self).handles()),
            match armed {
                Ok(arm) => {
                    &&& arm.task_id@ == task_id@
                    &&& resolved(payload.schedule_time@, now) == Some(arm.fire_at)
                    &&& arm.delay == delay_between(now, arm.fire_at)
                    &&& !has_task(old(self).tasks(), task_id@)
                    &&& final(self).tasks() == old(self).tasks().push(
                        scheduled_record(
                            payload,
                            task_id@,
                            final(self).tasks().last().scheduled_time,
                        ),
                    )
                    &&& instant_of(final(self).tasks().last().scheduled_time) == Some(arm.fire_at)
                    &&& listed_once(final(self).tasks(), task_id@, TaskStatus::Scheduled)
                },
                Err(e) => {
                    &&& final(self).tasks() == old(self).tasks()
                    &&& e == Error::InvalidTimestamp || e == Error::DuplicateTaskId
                },
            },
            resolved(payload.schedule_time@, now) is None ==> armed == Err::<ArmRequest, Error>(
                Error::InvalidTimestamp,
            ),
            armed == Err::<ArmRequest, Error>(Error::DuplicateTaskId) <==> resolved(
                payload.schedule_time@,
                now,
            ) is Some && has_task(old(self).tasks(), task_id@),
    {
        proof {
            use_type_invariant(&*self);
        }
        let fire_at = match resolve(&payload.schedule_time, now) {
            Ok(at) => at,
            Err(e) => {
                return Err(e);
            },
        };
        let written = write_timestamp(fire_at);
        self.register_task(task_id, payload.task_name, payload.parameters, now, fire_at, written)
    }

    /// Registers a task for the request `payload`, read now, under a new
    /// random identifier, and says what trigger is to be armed.
    ///
    /// Fails with `InvalidTimestamp`, and registers nothing, where the schedule
    /// time names no instant or the instant cannot be written as a timestamp;
    /// with `DuplicateTaskId` where the identifier drawn is in use.
    pub fn schedule_task(&mut self, payload: ScheduleTaskRequest) -> (armed: Result<
        ArmRequest,
        Error,
    >)
        ensures
            final(self).handles() == old(self).handles(),
            evolves_to(old(self).tasks(), final(self).tasks()),
            valid_state(final(self).tasks(), final(self).handles()),
            match armed {
                Ok(arm) => {
                    &&& exists|now: Instant|
                        {
                            &&& #[trigger] resolved(payload.schedule_time@, now) == Some(
                                arm.fire_at,
                            )
                            &&& arm.delay == delay_between(now, arm.fire_at)
                        }
                    &&& !has_task(old(self).tasks(), arm.task_id@)
                    &&& final(self).tasks() == old(self).tasks().push(
                        scheduled_record(
                            payload,
                            arm.task_id@,
                            final(self).tasks().last().scheduled_time,
                        ),
                    )
                    &&& instant_of(final(self).tasks().last().scheduled_time) == Some(arm.fire_at)
                    &&& listed_once(final(self).tasks(), arm.task_id@, TaskStatus::Scheduled)
                },
                Err(e) => {
                    &&& final(self).tasks() == old(self).tasks()
                    &&& e == Error::InvalidTimestamp || e == Error::DuplicateTaskId
                },
            },
            match payload.schedule_time@ {
                ScheduleTimeView::DateTime(text) => match instant_of(text) {
                    Some(at) => armed is Ok ==> armed.unwrap().fire_at == at,
                    None => armed == Err::<ArmRequest, Error>(Error::InvalidTimestamp),
                },
                ScheduleTimeView::Duration(_) => true,
            },
    {
        let at = now();
        let task_id = random_task_id();
        let armed = self.schedule_task_at(payload, at, task_id);
        proof {
            if armed is Ok {
                assert(resolved(payload.schedule_time@, at) == Some(armed.unwrap().fire_at));
            }
        }
        armed
    }

    /// Takes note of what the trigger backend said when it was asked to arm
    /// the trigger of the task `task_id`, and answers the request to schedule.
    ///
    /// An armed trigger is kept as the task's live trigger while the task
    /// awaits it. Where no trigger could be armed, a task that awaited it has
    /// `Failed`, and the answer says so without being an error.
    pub fn trigger_armed(&mut self, task_id: &str, outcome: Result<TriggerHandle, Error>) -> (response:
        ScheduleTaskResponse)
        ensures
            response.task_id@ == task_id@,
            response.success == (outcome is Ok),
            response.message is Some,
            evolves_to(old(self).tasks(), final(self).tasks()),
            valid_state(final(self).tasks(), final(self).handles()),
            match outcome {
                Ok(handle) => {
                    &&& final(self).tasks() == old(self).tasks()
                    &&& final(self).handles() == (if status_of(old(self).tasks(), task_id@) == Some(
                        TaskStatus::Scheduled,
                    ) {
                        old(self).handles().insert(task_id@, handle)
                    } else {
                        old(self).handles()
                    })
                    &&& response.message.unwrap()@ == "Task scheduled successfully"@
                },
                Err(e) => {
                    &&& final(self).tasks() == move_status(
                        old(self).tasks(),
                        task_id@,
                        TaskStatus::Scheduled,
                        TaskStatus::Failed,
                    )
                    &&& final(self).handles() == old(self).handles().remove(task_id@)
                    &&& response.message.unwrap()@ == "Failed to schedule task: "@
                        + e.spec_message()
                },
            },
    {
        let (mut registry, mut handles) = self.take();
        let ghost before = registry@;
        let ghost live = handles@;
        let response = match outcome {
            Ok(handle) => {
                let status = registry.status(task_id);
                if let Some(TaskStatus::Scheduled) = status {
                    handles.insert(task_id.to_string(), handle);
                }
                ScheduleTaskResponse {
                    task_id: task_id.to_string(),
                    success: true,
                    message: Some("Task scheduled successfully".to_string()),
                }
            },
            Err(e) => {
                handles.remove(task_id);
                let status = registry.status(task_id);
                if let Some(TaskStatus::Scheduled) = status {
                    proof {
                        lemma_request_evolves(before, task_id@, TaskStatus::Failed);
                        lemma_request_sets_status(before, task_id@, TaskStatus::Failed);
                        assert forall|other: Seq<char>| #[trigger]
                            handles@.contains_key(other) implies status_of(
                            request_status(before, task_id@, TaskStatus::Failed),
                            other,
                        ) == Some(TaskStatus::Scheduled) by {
                            lemma_request_keeps_others(
                                before,
                                task_id@,
                                TaskStatus::Failed,
                                other,
                            );
                        }
                    }
                    registry.update_status(task_id, TaskStatus::Failed);
                }
                let mut text = "Failed to schedule task: ".to_string();
                text.append(e.message().as_str());
                ScheduleTaskResponse { task_id: task_id.to_string(), success: false, message: Some(text) }
            },
        };
        self.put(registry, handles);
        response
    }

    /// Takes note that the trigger of the task `task_id` fired. A task that
    /// awaited its trigger is `Running` from now on, and the call that its
    /// handler is owed is returned. For any other task, and for an unknown
    /// one, nothing runs. The trigger is no longer live either way.
    pub fn trigger_fired(&mut self, task_id: &str) -> (fired: Option<FiredTask>)
        ensures
            final(self).tasks() == move_status(
                old(self).tasks(),
                task_id@,
                TaskStatus::Scheduled,
                TaskStatus::Running,
            ),
            final(self).handles() == old(self).handles().remove(task_id@),
            evolves_to(old(self).tasks(), final(self).tasks()),
            valid_state(final(self).tasks(), final(self).handles()),
            fired is Some <==> status_of(old(self).tasks(), task_id@) == Some(
                TaskStatus::Scheduled,
            ),
            fired is Some ==> {
                let record = old(self).tasks()[task_index(old(self).tasks(), task_id@)];
                &&& fired.unwrap().task_id@ == task_id@
                &&& fired.unwrap().task_name@ == record.task_name
                &&& fired.unwrap().parameters@ == parameters_or_empty(record.parameters)
            },
    {
        let (mut registry, mut handles) = self.take();
        let ghost before = registry@;
        handles.remove(task_id);
        let call = match registry.get(task_id) {
            Some(record) => {
                match record.status {
                    TaskStatus::Scheduled => {
                        let parameters = match &record.parameters {
                            Some(p) => p.clone(),
                            None => Parameters::new(),
                        };
                        Some(
                            FiredTask {
                                task_id: record.task_id.clone(),
                                task_name: record.task_name.clone(),
                                parameters,
                            },
                        )
                    },
                    _ => None,
                }
            },
            None => None,
        };
        if call.is_some() {
            proof {
                lemma_request_evolves(before, task_id@, TaskStatus::Running);
                assert forall|other: Seq<char>| #[trigger]
                    handles@.contains_key(other) implies status_of(
                    request_status(before, task_id@, TaskStatus::Running),
                    other,
                ) == Some(TaskStatus::Scheduled) by {
                    lemma_request_keeps_others(before, task_id@, TaskStatus::Running, other);
                }
            }
            registry.update_status(task_id, TaskStatus::Running);
        }
        self.put(registry, handles);
        call
    }

    /// Takes note of how the handler of the task `task_id` ended. A task that
    /// was `Running` is `Completed` where the handler succeeded and `Failed`
    /// where it reported an error; for any other task nothing changes. The
    /// error goes no further.
    pub fn task_finished(&mut self, task_id: &str, outcome: Result<(), Error>)
        ensures
            final(self).tasks() == move_status(
                old(self).tasks(),
                task_id@,
                TaskStatus::Running,
                if outcome is Ok {
                    TaskStatus::Completed
                } else {
                    TaskStatus::Failed
                },
            ),
            final(self).handles() == old(self).handles(),
            evolves_to(old(self).tasks(), final(self).tasks()),
            valid_state(final(self).tasks(), final(self).handles()),
    {
        let (mut registry, handles) = self.take();
        let ghost before = registry@;
        let end = match outcome {
            Ok(_) => TaskStatus::Completed,
            Err(_) => TaskStatus::Failed,
        };
        let status = registry.status(task_id);
        if let Some(TaskStatus::Running) = status {
            proof {
                lemma_request_evolves(before, task_id@, end);
                assert forall|other: Seq<char>| #[trigger]
                    handles@.contains_key(other) implies status_of(
                    request_status(before, task_id@, end),
                    other,
                ) == Some(TaskStatus::Scheduled) by {
                    lemma_request_keeps_others(before, task_id@, end, other);
                }
            }
            registry.update_status(task_id, end);
        }
        self.put(registry, handles);
    }

    /// Cancels the task of the request. A task that awaited its trigger is
    /// `Cancelled` from now on; any other task, and an unknown one, is left as
    /// it is. Where the task had a live trigger, the trigger is handed out to
    /// be disarmed; where it had none, the cancellation is done and has
    /// succeeded.
    pub fn cancel_task(&mut self, payload: CancelTaskRequest) -> (step: CancelStep)
        ensures
            final(self).tasks() == move_status(
                old(self).tasks(),
                payload.task_id@,
                TaskStatus::Scheduled,
                TaskStatus::Cancelled,
            ),
            final(self).handles() == old(self).handles().remove(payload.task_id@),
            evolves_to(old(self).tasks(), final(self).tasks()),
            valid_state(final(self).tasks(), final(self).handles()),
            match step {
                CancelStep::Disarm(handle) => old(self).handles().contains_key(payload.task_id@)
                    && handle == old(self).handles()[payload.task_id@],
                CancelStep::Done(response) => {
                    &&& !old(self).handles().contains_key(payload.task_id@)
                    &&& response.success
                    &&& response.message is Some
                    &&& response.message.unwrap()@ == "Task cancelled successfully"@
                },
            },
            !has_task(old(self).tasks(), payload.task_id@) ==> step is Done,
    {
        let (mut registry, mut handles) = self.take();
        let ghost before = registry@;
        let task_id = payload.task_id.as_str();
        let handle = handles.remove(task_id);
        let status = registry.status(task_id);
        if let Some(TaskStatus::Scheduled) = status {
            proof {
                lemma_request_evolves(before, task_id@, TaskStatus::Cancelled);
                assert forall|other: Seq<char>| #[trigger]
                    handles@.contains_key(other) implies status_of(
                    request_status(before, task_id@, TaskStatus::Cancelled),
                    other,
                ) == Some(TaskStatus::Scheduled) by {
                    lemma_request_keeps_others(before, task_id@, TaskStatus::Cancelled, other);
                }
            }
            registry.update_status(task_id, TaskStatus::Cancelled);
        }
        self.put(registry, handles);
        match handle {
            Some(h) => CancelStep::Disarm(h),
            None => CancelStep::Done(ScheduleTask::cancel_response(Ok(()))),
        }
    }

    /// The answer to a request to cancel, given what the trigger backend said
    /// when it was asked to disarm the trigger.
    pub fn cancel_response(outcome: Result<(), Error>) -> (response: CancelTaskResponse)
        ensures
            response.success == (outcome is Ok),
            response.message is Some,
            response.message.unwrap()@ == (match outcome {
                Ok(_) => "Task cancelled successfully"@,
                Err(e) => "Failed to cancel task: "@ + e.spec_message(),
            }),
    {
        match outcome {
            Ok(_) => CancelTaskResponse {
                success: true,
                message: Some("Task cancelled successfully".to_string()),
            },
            Err(e) => {
                let mut text = "Failed to cancel task: ".to_string();
                text.append(e.message().as_str());
                CancelTaskResponse { success: false, message: Some(text) }
            },
        }
    }

    /// A copy of the record of every task, in the order in which the tasks
    /// were scheduled.
    pub fn list_tasks(&self) -> (response: Result<ListTasksResponse, Error>)
        ensures
            response is Ok,
            response.unwrap().tasks@.map_values(|t: TaskInfo| t@) == self.tasks(),
    {
        Ok(ListTasksResponse { tasks: self.scheduled_tasks.get_all() })
    }
}

} // verus!
