pub mod clock;
pub mod queue;
pub mod subsystem;
pub mod tasks;

pub use queue::{
    is_duplicate_trigger, PushOutcome, QueueError, Task, TaskArgs, TaskId, TaskLimit, TaskRow, TaskStatus, TaskTrigger,
    WorkQueue,
};
pub use tasks::TaskDomainArgs;
