//! One-shot task scheduling: a registry of named tasks, the status each task
//! moves through, and the decisions taken when a trigger is armed, fires or is
//! cancelled.

pub mod actor;
pub mod assoc;
pub mod bridge;
pub mod clock;
pub mod error;
pub mod event;
pub mod models;
pub mod parameters;
pub mod reentry;
pub mod registry;
pub mod scheduler;
pub mod text;
pub mod trigger;

pub use actor::{Actor, ActorMessage};
pub use bridge::{job_name, relaunch_arguments};
pub use clock::{Delay, Instant};
pub use error::Error;
pub use event::{decode_event, event_from_fields};
pub use models::{
    CancelTaskRequest, CancelTaskResponse, EventInfo, ListTasksResponse, PingRequest,
    PingResponse, ScheduleTaskRequest, ScheduleTaskResponse, ScheduleTime, TaskInfo, TaskStatus,
};
pub use parameters::Parameters;
pub use reentry::check_scheduled_task_args;
pub use registry::TaskRegistry;
pub use scheduler::{ArmRequest, CancelStep, FiredTask, ScheduleTask};
pub use trigger::{TriggerHandle, TriggerHandles};
