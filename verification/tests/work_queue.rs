use cart_server::domain::cart::{
    CartId, ExternalPublishCart, ProductId, PublishCartProcessorArgs,
};
use cart_server::domain::{Money, OrderedProduct};
use cart_server::subsystems::work_queue::queue::backoff_after;
use cart_server::subsystems::work_queue::{
    PushOutcome, QueueError, TaskArgs, TaskDomainArgs, TaskId, TaskLimit, TaskStatus, TaskTrigger,
    WorkQueue,
};

const HOUR: u64 = 3_600_000_000;

fn publish_cart_args(triggering_event_id: i64) -> TaskDomainArgs {
    TaskDomainArgs::PublishCart(PublishCartProcessorArgs {
        triggering_event_id,
        message: ExternalPublishCart {
            cart_id: CartId::new(),
            ordered_product: vec![OrderedProduct {
                product_id: ProductId::new(),
                price: Money::new(1234, 2),
            }],
            total_price: Money::new(1234, 2),
        },
    })
}

#[test]
fn tasks_triggered_from_an_event_should_be_idempotent() {
    let triggering_event_id: i64 = 8_675_309;

    let task_args = TaskArgs {
        trigger: TaskTrigger::Event(triggering_event_id),
        limits: TaskLimit::TimeoutAfter(HOUR),
        domain_args: publish_cart_args(triggering_event_id),
    };

    let mut work_queue = WorkQueue::new();

    work_queue.push(task_args.clone()).expect("Task should be queued.");
    work_queue.push(task_args).expect("Duplicate of task should be ignored.");

    let tasks = work_queue.pull(1000);
    assert_eq!(tasks.len(), 1, "There should be only one task in the queue.");
}

#[test]
fn scheduled_tasks_should_not_be_seen_as_duplicates() {
    let triggering_event_id: i64 = 8_675_309;

    let task_args = TaskArgs {
        trigger: TaskTrigger::ScheduleNow,
        limits: TaskLimit::TimeoutAfter(HOUR),
        domain_args: publish_cart_args(triggering_event_id),
    };

    let mut work_queue = WorkQueue::new();

    work_queue.push(task_args.clone()).expect("Task should be queued.");
    work_queue.push(task_args).expect("Task should be queued.");

    let tasks = work_queue.pull(1000);
    assert_eq!(tasks.len(), 2, "There should be two tasks in the queue.");
}

#[test]
fn failing_task_should_calculate_next_attempt_correctly() {
    let mut work_queue = WorkQueue::new();

    let task_args = TaskArgs {
        trigger: TaskTrigger::ScheduleNow,
        limits: TaskLimit::MaxAttempts(2),
        domain_args: TaskDomainArgs::TestingFailure,
    };

    work_queue.push(task_args).expect("Task should be queued.");

    let tasks = work_queue.pull(100);
    assert_eq!(tasks.len(), 1, "There should be a single task.");
    let task = tasks.first().expect("Task should be there.");
    let task_id = task.task_id;
    let task_row = work_queue.fetch(task_id).expect("TaskRow should be round.");
    let attempt_0_at = task_row.next_attempt_at;
    assert_eq!(task_row.next_attempt_at - task_row.scheduled_for, 0);

    let is_last_failure = work_queue.fail_task(task_id).expect("Task should be marked as failed.");
    assert!(!is_last_failure, "MaxAttempts = 2 so first failure should not be its last.");
    let task_row = work_queue.fetch(task_id).expect("TaskRow should be found.");
    assert_eq!(task_row.failed_attempts, 1);
    let attempt_1_at = task_row.next_attempt_at;
    let difference = (attempt_1_at - attempt_0_at) / 1000;
    assert_eq!(difference, 125);

    let is_last_failure = work_queue.fail_task(task_id).expect("Task should be marked as failed.");
    assert!(is_last_failure, "MaxAttempts = 2 so second failure should be its last.");
    let task_row = work_queue.fetch(task_id).expect("TaskRow should be found.");
    assert_eq!(task_row.failed_attempts, 2);
    let attempt_2_at = task_row.next_attempt_at;
    let difference = (attempt_2_at - attempt_1_at) / 1000;
    assert_eq!(difference, 250);
}

#[test]
fn a_pushed_task_is_queued_with_the_limits_of_its_arguments() {
    let mut queue = WorkQueue::new();
    let id = TaskId(1);
    let args = TaskArgs {
        trigger: TaskTrigger::Event(77),
        limits: TaskLimit::MaxAttempts(5),
        domain_args: TaskDomainArgs::TestingSuccess,
    };
    assert_eq!(queue.push_at(args, id, 1_000, 2_000), Ok(PushOutcome::Queued));
    let row = queue.fetch(id).unwrap();
    assert_eq!(row.task_type, "TestingSuccess");
    assert_eq!(row.triggering_event, Some(77));
    assert_eq!(row.created_at, 1_000);
    assert_eq!(row.updated_at, 1_000);
    assert_eq!(row.scheduled_for, 2_000);
    assert_eq!(row.next_attempt_at, 2_000);
    assert_eq!(row.timeout_at, 2_000 + 86_400_000_000);
    assert_eq!(row.failed_attempts, 0);
    assert_eq!(row.max_attempts, 5);
    assert_eq!(row.status, TaskStatus::Queued);

    let id = TaskId(2);
    let args = TaskArgs {
        trigger: TaskTrigger::ScheduleFor(9_000),
        limits: TaskLimit::TimeoutAfter(500),
        domain_args: TaskDomainArgs::TestingFailure,
    };
    assert_eq!(queue.push_at(args, id, 1_000, 2_000), Ok(PushOutcome::Queued));
    let row = queue.fetch(id).unwrap();
    assert_eq!(row.task_type, "TestingFailure");
    assert_eq!(row.triggering_event, None);
    assert_eq!(row.scheduled_for, 9_000);
    assert_eq!(row.timeout_at, 9_500);
    assert_eq!(row.max_attempts, 1_000_000);
}

#[test]
fn a_duplicate_trigger_is_ignored_but_another_type_or_event_is_not() {
    let mut queue = WorkQueue::new();
    let success = || TaskArgs {
        trigger: TaskTrigger::Event(5),
        limits: TaskLimit::MaxAttempts(1),
        domain_args: TaskDomainArgs::TestingSuccess,
    };
    assert_eq!(queue.push_at(success(), TaskId(1), 0, 0), Ok(PushOutcome::Queued));
    assert_eq!(queue.push_at(success(), TaskId(2), 9, 9), Ok(PushOutcome::DuplicateIgnored));
    assert_eq!(queue.len(), 1);
    let other_type = TaskArgs {
        trigger: TaskTrigger::Event(5),
        limits: TaskLimit::MaxAttempts(1),
        domain_args: TaskDomainArgs::TestingFailure,
    };
    assert_eq!(queue.push_at(other_type, TaskId(3), 0, 0), Ok(PushOutcome::Queued));
    let other_event = TaskArgs {
        trigger: TaskTrigger::Event(6),
        limits: TaskLimit::MaxAttempts(1),
        domain_args: TaskDomainArgs::TestingSuccess,
    };
    assert_eq!(queue.push_at(other_event, TaskId(4), 0, 0), Ok(PushOutcome::Queued));
    assert_eq!(queue.len(), 3);
}

#[test]
fn a_taken_id_and_a_timeout_out_of_range_are_refused() {
    let mut queue = WorkQueue::new();
    let args = || TaskArgs {
        trigger: TaskTrigger::ScheduleNow,
        limits: TaskLimit::MaxAttempts(1),
        domain_args: TaskDomainArgs::TestingSuccess,
    };
    assert_eq!(queue.push_at(args(), TaskId(1), 0, 0), Ok(PushOutcome::Queued));
    assert_eq!(queue.push_at(args(), TaskId(1), 0, 0), Err(QueueError::DuplicateTaskId));
    let far = TaskArgs {
        trigger: TaskTrigger::ScheduleFor(i64::MAX - 10),
        limits: TaskLimit::TimeoutAfter(11),
        domain_args: TaskDomainArgs::TestingSuccess,
    };
    assert_eq!(queue.push_at(far, TaskId(2), 0, 0), Err(QueueError::OutOfRange));
    let just = TaskArgs {
        trigger: TaskTrigger::ScheduleFor(i64::MAX - 10),
        limits: TaskLimit::TimeoutAfter(10),
        domain_args: TaskDomainArgs::TestingSuccess,
    };
    assert_eq!(queue.push_at(just, TaskId(2), 0, 0), Ok(PushOutcome::Queued));
    assert_eq!(queue.len(), 2);
}

#[test]
fn tasks_are_pulled_earliest_schedule_first_and_only_when_due() {
    let mut queue = WorkQueue::new();
    let scheduled = |at: i64| TaskArgs {
        trigger: TaskTrigger::ScheduleFor(at),
        limits: TaskLimit::TimeoutAfter(1_000),
        domain_args: TaskDomainArgs::TestingSuccess,
    };
    queue.push_at(scheduled(300), TaskId(3), 0, 0).unwrap();
    queue.push_at(scheduled(100), TaskId(1), 0, 0).unwrap();
    queue.push_at(scheduled(200), TaskId(2), 0, 0).unwrap();
    queue.push_at(scheduled(100), TaskId(11), 0, 0).unwrap();
    queue.push_at(scheduled(5_000), TaskId(5), 0, 0).unwrap();

    assert!(queue.pull_at(10, 7, 99).is_empty());
    assert!(queue.pull_at(0, 7, 400).is_empty());
    assert!(queue.pull_at(-3, 7, 400).is_empty());

    let first: Vec<TaskId> = queue.pull_at(2, 7, 400).iter().map(|t| t.task_id).collect();
    assert_eq!(first, vec![TaskId(1), TaskId(11)]);
    assert_eq!(queue.fetch(TaskId(1)).unwrap().status, TaskStatus::Running);
    assert_eq!(queue.fetch(TaskId(1)).unwrap().updated_at, 7);
    assert_eq!(queue.fetch(TaskId(2)).unwrap().status, TaskStatus::Queued);

    let second: Vec<TaskId> = queue.pull_at(10, 8, 400).iter().map(|t| t.task_id).collect();
    assert_eq!(second, vec![TaskId(2), TaskId(3)]);
    assert!(queue.pull_at(10, 9, 400).is_empty());

    // The task scheduled for 5000 times out at 6000.
    assert!(queue.pull_at(10, 9, 6_001).is_empty());
    let last: Vec<TaskId> = queue.pull_at(10, 9, 6_000).iter().map(|t| t.task_id).collect();
    assert_eq!(last, vec![TaskId(5)]);
}

#[test]
fn a_failed_task_waits_for_its_next_attempt_and_stops_at_its_limits() {
    let mut queue = WorkQueue::new();
    let args = TaskArgs {
        trigger: TaskTrigger::ScheduleFor(0),
        limits: TaskLimit::TimeoutAfter(300_000),
        domain_args: TaskDomainArgs::TestingFailure,
    };
    queue.push_at(args, TaskId(1), 0, 0).unwrap();
    assert_eq!(queue.pull_at(1, 1, 0).len(), 1);
    assert_eq!(queue.fail_task_at(TaskId(1), 2), Ok(false));
    let row = queue.fetch(TaskId(1)).unwrap();
    assert_eq!(row.status, TaskStatus::Queued);
    assert_eq!(row.next_attempt_at, 125_000);
    assert_eq!(row.updated_at, 2);
    assert!(queue.pull_at(1, 3, 124_999).is_empty());
    assert_eq!(queue.pull_at(1, 3, 125_000).len(), 1);
    // 125 ms + 250 ms reaches past the timeout of 300 ms.
    assert_eq!(queue.fail_task_at(TaskId(1), 4), Ok(true));
    assert_eq!(queue.fetch(TaskId(1)).unwrap().next_attempt_at, 375_000);
    assert!(queue.pull_at(1, 5, 375_000).is_empty());
    assert_eq!(queue.fail_task_at(TaskId(9), 4), Err(QueueError::TaskNotFound));
}

#[test]
fn the_backoff_doubles_with_every_failure() {
    assert_eq!(backoff_after(0), Some(125_000));
    assert_eq!(backoff_after(1), Some(250_000));
    assert_eq!(backoff_after(2), Some(500_000));
    assert_eq!(backoff_after(3), Some(1_000_000));
    assert_eq!(backoff_after(10), Some(128_000_000));
    assert_eq!(backoff_after(47), Some(125_000u64 << 47));
    assert_eq!(backoff_after(48), None);
    assert_eq!(backoff_after(i32::MAX), None);
}

#[test]
fn a_deleted_task_is_gone_and_clear_empties_the_queue() {
    let mut queue = WorkQueue::new();
    let args = || TaskArgs {
        trigger: TaskTrigger::ScheduleNow,
        limits: TaskLimit::MaxAttempts(1),
        domain_args: TaskDomainArgs::TestingSuccess,
    };
    queue.push_at(args(), TaskId(1), 0, 0).unwrap();
    queue.push_at(args(), TaskId(2), 0, 0).unwrap();
    queue.delete_task(TaskId(1));
    queue.delete_task(TaskId(7));
    assert_eq!(queue.fetch(TaskId(1)), Err(QueueError::TaskNotFound));
    assert!(queue.fetch(TaskId(2)).is_ok());
    queue.clear();
    assert_eq!(queue.len(), 0);
}

#[test]
fn the_kinds_of_task_name_themselves_and_their_events() {
    let args = publish_cart_args(3);
    let cart_id = match &args {
        TaskDomainArgs::PublishCart(a) => a.message.cart_id,
        _ => unreachable!(),
    };
    assert_eq!(args.to_string(), "PublishCart");
    assert_eq!(TaskDomainArgs::TestingSuccess.to_string(), "TestingSuccess");
    assert_eq!(TaskDomainArgs::TestingFailure.to_string(), "TestingFailure");
    assert_eq!(
        args.failure_event(),
        Some(cart_server::domain::DomainEvent::CartPublicationFailed { cart_id })
    );
    assert_eq!(TaskDomainArgs::TestingFailure.failure_event(), None);
    assert_eq!(args.success_event(), None);
}
