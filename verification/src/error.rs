use vstd::prelude::*;

verus! {

/// What can go wrong while a task is scheduled, cancelled or run.
#[derive(Clone, Copy, Debug, PartialEq, Eq, Structural)]
pub enum Error {
    /// The requested schedule time does not name an instant.
    InvalidTimestamp,
    /// The identifier offered for a new task already names a task.
    DuplicateTaskId,
    /// The trigger backend could not arm a trigger.
    SchedulingBackendFailure,
    /// The trigger backend could not disarm a trigger.
    CancellationFailure,
    /// The handler does not know the task name it was called with.
    UnknownTask,
}

impl Error {
    /// The text that stands for this error in a response.
    pub open spec fn spec_message(self) -> Seq<char> {
        match self {
            Error::InvalidTimestamp => "Invalid datetime format"@,
            Error::DuplicateTaskId => "Task identifier already in use"@,
            Error::SchedulingBackendFailure => "The trigger backend could not arm the trigger"@,
            Error::CancellationFailure => "The trigger backend could not disarm the trigger"@,
            Error::UnknownTask => "Unknown task"@,
        }
    }

    pub fn message(&self) -> (text: String)
        ensures
            text@ == self.spec_message(),
    {
        match self {
            Error::InvalidTimestamp => "Invalid datetime format".to_string(),
            Error::DuplicateTaskId => "Task identifier already in use".to_string(),
            Error::SchedulingBackendFailure => "The trigger backend could not arm the trigger".to_string(),
            Error::CancellationFailure => "The trigger backend could not disarm the trigger".to_string(),
            Error::UnknownTask => "Unknown task".to_string(),
        }
    }
}

} // verus!
