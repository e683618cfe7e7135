use crate::parameters::Parameters;
use vstd::prelude::*;

verus! {

/// The plain content of an optional string.
pub open spec fn text_view(text: Option<String>) -> Option<Seq<char>> {
    match text {
        Some(t) => Some(t@),
        None => None,
    }
}

/// A copy of an optional string.
fn copy_text(text: &Option<String>) -> (copy: Option<String>)
    ensures
        text_view(copy) == text_view(*text),
{
    match text {
        Some(t) => Some(t.clone()),
        None => None,
    }
}

/// A request that is answered with its own value.
#[derive(Debug)]
pub struct PingRequest {
    pub value: Option<String>,
}

/// The answer to a `PingRequest`.
#[derive(Debug)]
pub struct PingResponse {
    pub value: Option<String>,
}

impl Clone for PingResponse {
    fn clone(&self) -> (copy: Self)
        ensures
            text_view(copy.value) == text_view(self.value),
    {
        PingResponse { value: copy_text(&self.value) }
    }
}

impl Default for PingResponse {
    fn default() -> (response: Self)
        ensures
            response.value is None,
    {
        PingResponse { value: None }
    }
}

/// When a task is to run: at an absolute instant, written as an ISO 8601
/// timestamp, or a number of seconds from now.
#[derive(Debug)]
pub enum ScheduleTime {
    DateTime(String),
    Duration(u64),
}

impl Clone for ScheduleTime {
    fn clone(&self) -> (copy: Self)
        ensures
            copy@ == self@,
    {
        match self {
            ScheduleTime::DateTime(text) => ScheduleTime::DateTime(text.clone()),
            ScheduleTime::Duration(seconds) => ScheduleTime::Duration(*seconds),
        }
    }
}

/// The plain content of a `ScheduleTime`.
pub enum ScheduleTimeView {
    DateTime(Seq<char>),
    Duration(u64),
}

impl View for ScheduleTime {
    type V = ScheduleTimeView;

    open spec fn view(&self) -> ScheduleTimeView {
        match self {
            ScheduleTime::DateTime(text) => ScheduleTimeView::DateTime(text@),
            ScheduleTime::Duration(seconds) => ScheduleTimeView::Duration(*seconds),
        }
    }
}

/// A request to run the task `task_name` once, at `schedule_time`.
#[derive(Debug)]
pub struct ScheduleTaskRequest {
    pub task_name: String,
    pub schedule_time: ScheduleTime,
    pub parameters: Option<Parameters>,
}

impl Clone for ScheduleTaskRequest {
    fn clone(&self) -> (copy: Self)
        ensures
            copy.task_name@ == self.task_name@,
            copy.schedule_time@ == self.schedule_time@,
            parameters_view(copy.parameters) == parameters_view(self.parameters),
    {
        ScheduleTaskRequest {
            task_name: self.task_name.clone(),
            schedule_time: self.schedule_time.clone(),
            parameters: match &self.parameters {
                Some(p) => Some(p.clone()),
                None => None,
            },
        }
    }
}

/// The answer to a `ScheduleTaskRequest`.
#[derive(Debug)]
pub struct ScheduleTaskResponse {
    pub task_id: String,
    pub success: bool,
    pub message: Option<String>,
}

impl Clone for ScheduleTaskResponse {
    fn clone(&self) -> (copy: Self)
        ensures
            copy.task_id@ == self.task_id@,
            copy.success == self.success,
            text_view(copy.message) == text_view(self.message),
    {
        ScheduleTaskResponse {
            task_id: self.task_id.clone(),
            success: self.success,
            message: copy_text(&self.message),
        }
    }
}

/// A request to cancel the task `task_id`.
#[derive(Debug)]
pub struct CancelTaskRequest {
    pub task_id: String,
}

impl Clone for CancelTaskRequest {
    fn clone(&self) -> (copy: Self)
        ensures
            copy.task_id@ == self.task_id@,
    {
        CancelTaskRequest { task_id: self.task_id.clone() }
    }
}

/// The answer to a `CancelTaskRequest`.
#[derive(Debug)]
pub struct CancelTaskResponse {
    pub success: bool,
    pub message: Option<String>,
}

impl Clone for CancelTaskResponse {
    fn clone(&self) -> (copy: Self)
        ensures
            copy.success == self.success,
            text_view(copy.message) == text_view(self.message),
    {
        CancelTaskResponse { success: self.success, message: copy_text(&self.message) }
    }
}

/// The answer to a request for all tasks.
#[derive(Debug)]
pub struct ListTasksResponse {
    pub tasks: Vec<TaskInfo>,
}

/// Where a task stands in its life.
#[derive(Clone, Copy, Debug, PartialEq, Eq, Structural)]
pub enum TaskStatus {
    Scheduled,
    Running,
    Completed,
    Failed,
    Cancelled,
}

impl TaskStatus {
    /// A terminal status is never left again.
    pub open spec fn is_terminal(self) -> bool {
        self == TaskStatus::Completed || self == TaskStatus::Failed || self
            == TaskStatus::Cancelled
    }

    /// The steps a task may take: from `Scheduled` to `Running`, `Cancelled`
    /// or, where no trigger could be armed, `Failed`; from `Running` to
    /// `Completed` or `Failed`.
    pub open spec fn may_become(self, next: TaskStatus) -> bool {
        match self {
            TaskStatus::Scheduled => next == TaskStatus::Running || next == TaskStatus::Cancelled
                || next == TaskStatus::Failed,
            TaskStatus::Running => next == TaskStatus::Completed || next == TaskStatus::Failed,
            _ => false,
        }
    }

    /// The statuses a task may come to in any number of steps, none included.
    pub open spec fn may_reach(self, later: TaskStatus) -> bool {
        match self {
            TaskStatus::Scheduled => true,
            TaskStatus::Running => later == TaskStatus::Running || later == TaskStatus::Completed
                || later == TaskStatus::Failed,
            _ => later == self,
        }
    }

    /// The status after `requested` was asked for: `requested` where the step
    /// is allowed, the status as it was where it is not.
    pub open spec fn after(self, requested: TaskStatus) -> TaskStatus {
        if self.may_become(requested) {
            requested
        } else {
            self
        }
    }

    /// The status after each of `requests` was asked for in turn.
    pub open spec fn after_all(self, requests: Seq<TaskStatus>) -> TaskStatus
        decreases requests.len(),
    {
        if requests.len() == 0 {
            self
        } else {
            self.after_all(requests.drop_last()).after(requests.last())
        }
    }

    /// Whether this status is terminal.
    pub fn terminal(&self) -> (b: bool)
        ensures
            b == self.is_terminal(),
    {
        match self {
            TaskStatus::Completed | TaskStatus::Failed | TaskStatus::Cancelled => true,
            _ => false,
        }
    }

    /// Whether a task with this status may take the step to `next`.
    pub fn can_become(&self, next: TaskStatus) -> (b: bool)
        ensures
            b == self.may_become(next),
    {
        match self {
            TaskStatus::Scheduled => match next {
                TaskStatus::Running | TaskStatus::Cancelled | TaskStatus::Failed => true,
                _ => false,
            },
            TaskStatus::Running => match next {
                TaskStatus::Completed | TaskStatus::Failed => true,
                _ => false,
            },
            _ => false,
        }
    }

    /// No step leads out of a terminal status.
    pub proof fn lemma_terminal_is_final(self, requested: TaskStatus)
        requires
            self.is_terminal(),
        ensures
            self.after(requested) == self,
    {
    }

    /// No step leads back to `Scheduled`.
    pub proof fn lemma_never_rescheduled(self, requested: TaskStatus)
        requires
            self != TaskStatus::Scheduled,
        ensures
            self.after(requested) != TaskStatus::Scheduled,
    {
    }

    /// Whatever is asked for afterwards, the status is one that may be reached:
    /// a terminal status stays, and a task that has left `Scheduled` does not
    /// return to it.
    pub proof fn lemma_after_all(self, requests: Seq<TaskStatus>)
        ensures
            self.may_reach(self.after_all(requests)),
            self.is_terminal() ==> self.after_all(requests) == self,
            self != TaskStatus::Scheduled ==> self.after_all(requests) != TaskStatus::Scheduled,
        decreases requests.len(),
    {
        if requests.len() > 0 {
            self.lemma_after_all(requests.drop_last());
        }
    }

    /// What may be reached from a status that may be reached may be reached.
    pub proof fn lemma_reach_transitive(self, middle: TaskStatus, later: TaskStatus)
        requires
            self.may_reach(middle),
            middle.may_reach(later),
        ensures
            self.may_reach(later),
    {
    }
}

/// One scheduled task: its identity, when it is to run, and where it stands.
#[derive(Debug)]
pub struct TaskInfo {
    pub task_id: String,
    pub task_name: String,
    pub scheduled_time: String,
    pub status: TaskStatus,
    pub parameters: Option<Parameters>,
}

/// The plain content of a `TaskInfo`.
pub struct TaskInfoView {
    pub task_id: Seq<char>,
    pub task_name: Seq<char>,
    pub scheduled_time: Seq<char>,
    pub status: TaskStatus,
    pub parameters: Option<Map<Seq<char>, Seq<char>>>,
}

impl TaskInfoView {
    /// This record with the status `status`.
    pub open spec fn with_status(self, status: TaskStatus) -> TaskInfoView {
        TaskInfoView { status, ..self }
    }
}

/// The plain content of optional parameters.
pub open spec fn parameters_view(parameters: Option<Parameters>) -> Option<
    Map<Seq<char>, Seq<char>>,
> {
    match parameters {
        Some(p) => Some(p@),
        None => None,
    }
}

/// The parameters a handler is given: those of the task, or none.
pub open spec fn parameters_or_empty(parameters: Option<Map<Seq<char>, Seq<char>>>) -> Map<
    Seq<char>,
    Seq<char>,
> {
    match parameters {
        Some(p) => p,
        None => Map::empty(),
    }
}

impl View for TaskInfo {
    type V = TaskInfoView;

    open spec fn view(&self) -> TaskInfoView {
        TaskInfoView {
            task_id: self.task_id@,
            task_name: self.task_name@,
            scheduled_time: self.scheduled_time@,
            status: self.status,
            parameters: parameters_view(self.parameters),
        }
    }
}

impl Clone for TaskInfo {
    fn clone(&self) -> (copy: Self)
        ensures
            copy@ == self@,
    {
        TaskInfo {
            task_id: self.task_id.clone(),
            task_name: self.task_name.clone(),
            scheduled_time: self.scheduled_time.clone(),
            status: self.status,
            parameters: match &self.parameters {
                Some(p) => Some(p.clone()),
                None => None,
            },
        }
    }
}

impl Clone for ListTasksResponse {
    fn clone(&self) -> (copy: Self)
        ensures
            copy.tasks@.map_values(|t: TaskInfo| t@) == self.tasks@.map_values(|t: TaskInfo| t@),
    {
        let ghost listed = self.tasks@.map_values(|t: TaskInfo| t@);
        let mut tasks: Vec<TaskInfo> = Vec::new();
        let mut i: usize = 0;
        while i < self.tasks.len()
            invariant
                i <= self.tasks.len(),
                listed == self.tasks@.map_values(|t: TaskInfo| t@),
                tasks@.map_values(|t: TaskInfo| t@) == listed.take(i as int),
            decreases self.tasks.len() - i,
        {
            let ghost copied = tasks@.map_values(|t: TaskInfo| t@);
            let record = self.tasks[i].clone();
            tasks.push(record);
            proof {
                assert(tasks@.map_values(|t: TaskInfo| t@) =~= copied.push(record@));
                assert(listed.take(i + 1) =~= listed.take(i as int).push(listed[i as int]));
            }
            i += 1;
        }
        assert(listed.take(self.tasks.len() as int) =~= listed);
        ListTasksResponse { tasks }
    }
}

/// What a host without an in-process timer reports when a task's trigger
/// fired: the task and the parameters to hand to its handler.
#[derive(Debug)]
pub struct EventInfo {
    pub task_id: String,
    pub task_name: String,
    pub parameters: Parameters,
}

} // verus!
