//! The workers of the queue.
//!
//! A worker pulls tasks, has each handled, and settles it: a task that
//! succeeded leaves the queue; a task that failed is queued again with a
//! later attempt, and once it has failed for good its failure is recorded
//! in the log.

use vstd::prelude::*;

use super::queue::{
    failed, has_task, is_failure, permanently_failed, place_of, QueueError, Task, TaskId,
    TaskRowView, WorkQueue,
};
use super::tasks::{TaskDomainArgs, TaskDomainArgsView};
use crate::domain::cart::history::{consistent, lemma_append_outside_carts};
use crate::domain::cart::{publish_cart_processor, published_carts_topic, PublishRequest};
use crate::domain::event_store::{
    appended, events_of, lemma_events_of_appended, EventStore, PersistedView,
};
use crate::domain::events::{views, DomainEvent, EventView};

verus! {

/// The number of tasks that a worker pulls and handles at a time.
pub const CONCURRENCY: usize = 10;

/// The pause between two pulls, in milliseconds.
pub const PAUSE_BETWEEN_PULLS: u64 = 125;

/// The pause after a pull that failed, in milliseconds.
pub const PAUSE_AFTER_FAILED_PULL: u64 = 500;

/// What handling a task takes.
#[derive(Debug)]
pub enum TaskHandling {
    /// A message is to be published; how that goes decides the task.
    Publish(PublishRequest),
    /// The task has succeeded.
    Succeeded,
    /// The task has failed, for the reason given.
    Failed(String),
}

/// Handles a task as far as that takes no one else: a cart is handed on to
/// be published; the two kinds of task that exist for trying the queue out
/// succeed and fail at once.
pub fn handle_task(task: Task) -> (handling: TaskHandling)
    ensures
        match task.domain_args {
            TaskDomainArgs::PublishCart(args) => handling matches TaskHandling::Publish(request)
                && request.topic@ == published_carts_topic() && request.message@ == args.message@
                && request.success_event@ == (
            EventView::CartPublished { cart_id: args.message.cart_id }),
            TaskDomainArgs::TestingSuccess => handling is Succeeded,
            TaskDomainArgs::TestingFailure => handling matches TaskHandling::Failed(reason)
                && reason@ == "Failed as expected."@,
        },
{
    match task.domain_args {
        TaskDomainArgs::PublishCart(args) => TaskHandling::Publish(publish_cart_processor(args)),
        TaskDomainArgs::TestingSuccess => TaskHandling::Succeeded,
        TaskDomainArgs::TestingFailure => TaskHandling::Failed("Failed as expected.".to_owned()),
    }
}

/// The event to append once the queue was told how a task went: none after
/// a success, since no kind of task leaves its success event to the queue;
/// after a failure for good, the failure event of the kind of task, if it
/// has one.
pub open spec fn event_due(
    args: TaskDomainArgsView,
    succeeded: bool,
    permanent_failure: bool,
) -> Option<EventView> {
    if !succeeded && permanent_failure {
        args.failure_event()
    } else {
        None
    }
}

/// Why a task could not be settled.
#[derive(Clone, Copy, Debug, PartialEq, Eq, Structural)]
pub enum SettleError {
    /// The queue refused.
    Queue(QueueError),
    /// The log has no id left for the event that records the failure.
    LogFull,
}

/// The workers of the queue.
#[derive(Debug, Clone, Copy)]
pub struct WorkQueueSubsystem;

impl WorkQueueSubsystem {
    /// The workers.
    pub fn new() -> Self {
        WorkQueueSubsystem
    }

    /// The event to append once the queue was told how a task went.
    pub fn event_after(&self, task: &Task, succeeded: bool, permanent_failure: bool) -> (event:
        Option<DomainEvent>)
        ensures
            match event {
                Some(e) => event_due(task@.domain_args, succeeded, permanent_failure) == Some(e@),
                None => event_due(task@.domain_args, succeeded, permanent_failure) is None,
            },
    {
        if succeeded {
            // No kind of task leaves its success event to the queue.
            task.domain_args.success_event()
        } else if permanent_failure {
            task.domain_args.failure_event()
        } else {
            None
        }
    }

    /// Settles at the given time a task that was handled.
    ///
    /// A task that succeeded is deleted, and the log stays as it is. A task
    /// that failed has the failure recorded in its row; where it has then
    /// failed for good and its kind has a failure event, that event is
    /// appended to the log. The queue refuses where the task is not in it,
    /// or where the failure cannot be recorded; then nothing changes.
    pub fn settle_at(
        &self,
        queue: &mut WorkQueue,
        store: &mut EventStore,
        task: &Task,
        succeeded: bool,
        now: i64,
    ) -> (r: Result<(), SettleError>)
        requires
            old(queue).wf(),
            old(store).wf(),
        ensures
            final(queue).wf(),
            final(store).wf(),
            consistent(events_of(old(store)@)) ==> consistent(events_of(final(store)@)),
            succeeded ==> {
                &&& r is Ok
                &&& final(queue)@ == match place_of(old(queue)@, task.task_id) {
                    Some(i) => old(queue)@.remove(i),
                    None => old(queue)@,
                }
                &&& !has_task(final(queue)@, task.task_id)
                &&& final(store)@ == old(store)@
            },
            !succeeded ==> match place_of(old(queue)@, task.task_id) {
                None => {
                    &&& r == Err::<(), SettleError>(SettleError::Queue(QueueError::TaskNotFound))
                    &&& final(queue)@ == old(queue)@
                    &&& final(store)@ == old(store)@
                },
                Some(i) => match failed(old(queue)@[i], now) {
                    None => {
                        &&& r == Err::<(), SettleError>(
                            SettleError::Queue(QueueError::OutOfRange),
                        )
                        &&& final(queue)@ == old(queue)@
                        &&& final(store)@ == old(store)@
                    },
                    Some(row) => {
                        &&& final(queue)@ == old(queue)@.update(i, row)
                        &&& match event_due(task@.domain_args, false, permanently_failed(row)) {
                            None => r is Ok && final(store)@ == old(store)@,
                            Some(event) => if old(store).has_room(1) {
                                r is Ok && final(store)@ == appended(old(store)@, seq![event])
                            } else {
                                r == Err::<(), SettleError>(SettleError::LogFull) && final(store)@
                                    == old(store)@
                            },
                        }
                    },
                },
            },
    {
        if succeeded {
            queue.delete_task(task.task_id);
            let _ = self.event_after(task, true, false);
            return Ok(());
        }
        match queue.fail_task_at(task.task_id, now) {
            Err(error) => Err(SettleError::Queue(error)),
            Ok(permanent_failure) => {
                match self.event_after(task, false, permanent_failure) {
                    None => Ok(()),
                    Some(failure_event) => {
                        if store.last_event_id() == i64::MAX {
                            return Err(SettleError::LogFull);
                        }
                        let mut events: Vec<DomainEvent> = Vec::new();
                        events.push(failure_event);
                        proof {
                            assert(views(events@) =~= seq![failure_event@]);
                            lemma_events_of_appended(store@, views(events@));
                            if consistent(events_of(store@)) {
                                lemma_append_outside_carts(events_of(store@), views(events@));
                            }
                        }
                        let _ = store.append_without_validation(events);
                        Ok(())
                    },
                }
            },
        }
    }
}

} // verus!
