//! The task queue: durable work with scheduled execution, retries with
//! exponential backoff, a timeout, and at most one task for each event that
//! triggers one.
//!
//! All times are in microseconds. `created_at` and `updated_at` count from
//! the Unix epoch; `scheduled_for`, `next_attempt_at` and `timeout_at` are
//! civil times (see the `clock` module).

use vstd::prelude::*;

use super::clock::{civil_now, timestamp_now};
use super::tasks::{TaskDomainArgs, TaskDomainArgsView};
use crate::domain::cart::ids::{fresh_v7_bits, parse_uuid, print_uuid};
use crate::domain::cart::{uuid_parsed, uuid_text, uuid_version_number, InvalidUuidText};

verus! {

/// The delay after the first failure of a task: 125 ms.
pub const BACKOFF_BASE: i64 = 125_000;

/// The timeout of a task that is limited by its attempts: 24 hours.
pub const DEFAULT_TIMEOUT: u64 = 86_400_000_000;

/// The attempts of a task that is limited by a timeout.
pub const DEFAULT_MAX_ATTEMPTS: i32 = 1_000_000;

/// Identifier of a task.
#[derive(Clone, Copy, Debug, PartialEq, Eq, Structural, PartialOrd, Ord, Hash)]
pub struct TaskId(pub u128);

impl TaskId {
    /// Whether the identifier is a version 7 UUID.
    pub open spec fn is_v7(self) -> bool {
        uuid_version_number(self.0) == 7
    }

    /// A new time-ordered identifier.
    pub fn new() -> (id: Self)
        ensures
            id.is_v7(),
    {
        TaskId(fresh_v7_bits())
    }

    /// The identifier that a text spells. Any UUID is taken, of whatever
    /// version.
    pub fn from_str(text: &str) -> (r: Result<Self, InvalidUuidText>)
        ensures
            r == match uuid_parsed(text@) {
                Some(bits) => Ok::<Self, InvalidUuidText>(TaskId(bits)),
                None => Err::<Self, InvalidUuidText>(InvalidUuidText),
            },
    {
        match parse_uuid(text) {
            Some(bits) => Ok(TaskId(bits)),
            None => Err(InvalidUuidText),
        }
    }

    /// The 128-bit UUID value.
    pub fn as_u128(&self) -> (bits: u128)
        ensures
            bits == self.0,
    {
        self.0
    }

    /// The identifier as hyphenated text.
    pub fn to_string(&self) -> (text: String)
        ensures
            text@ == uuid_text(self.0),
    {
        print_uuid(self.0)
    }
}

/// Where a task stands.
#[derive(Clone, Copy, Debug, PartialEq, Eq, Structural)]
pub enum TaskStatus {
    Queued,
    Running,
    Failed,
}

/// What ends the retries of a task: a number of attempts, or a time span in
/// microseconds after its schedule.
#[derive(Clone, Copy, Debug, PartialEq, Eq, Structural)]
pub enum TaskLimit {
    MaxAttempts(i32),
    TimeoutAfter(u64),
}

/// What a task is due to: an event of the log, by its id; nothing but the
/// push itself; or a civil time.
#[derive(Clone, Copy, Debug, PartialEq, Eq, Structural)]
pub enum TaskTrigger {
    Event(i64),
    ScheduleNow,
    ScheduleFor(i64),
}

/// What is pushed onto the queue.
#[derive(Debug, PartialEq, Eq)]
pub struct TaskArgs {
    pub trigger: TaskTrigger,
    pub limits: TaskLimit,
    pub domain_args: TaskDomainArgs,
}

/// The model of what is pushed onto the queue.
pub ghost struct TaskArgsView {
    pub trigger: TaskTrigger,
    pub limits: TaskLimit,
    pub domain_args: TaskDomainArgsView,
}

impl View for TaskArgs {
    type V = TaskArgsView;

    open spec fn view(&self) -> TaskArgsView {
        TaskArgsView { trigger: self.trigger, limits: self.limits, domain_args: self.domain_args@ }
    }
}

impl Clone for TaskArgs {
    fn clone(&self) -> (copy: Self)
        ensures
            copy@ == self@,
    {
        TaskArgs {
            trigger: self.trigger,
            limits: self.limits,
            domain_args: self.domain_args.clone(),
        }
    }
}

/// A task in the queue.
#[derive(Debug, PartialEq, Eq)]
pub struct TaskRow {
    pub task_id: TaskId,
    pub task_type: String,
    pub triggering_event: Option<i64>,
    pub created_at: i64,
    pub updated_at: i64,
    pub scheduled_for: i64,
    pub next_attempt_at: i64,
    pub timeout_at: i64,
    pub failed_attempts: i32,
    pub max_attempts: i32,
    pub status: TaskStatus,
    pub domain_args: TaskDomainArgs,
}

/// The model of a task in the queue.
pub ghost struct TaskRowView {
    pub task_id: TaskId,
    pub task_type: Seq<char>,
    pub triggering_event: Option<i64>,
    pub created_at: i64,
    pub updated_at: i64,
    pub scheduled_for: i64,
    pub next_attempt_at: i64,
    pub timeout_at: i64,
    pub failed_attempts: i32,
    pub max_attempts: i32,
    pub status: TaskStatus,
    pub domain_args: TaskDomainArgsView,
}

impl View for TaskRow {
    type V = TaskRowView;

    open spec fn view(&self) -> TaskRowView {
        TaskRowView {
            task_id: self.task_id,
            task_type: self.task_type@,
            triggering_event: self.triggering_event,
            created_at: self.created_at,
            updated_at: self.updated_at,
            scheduled_for: self.scheduled_for,
            next_attempt_at: self.next_attempt_at,
            timeout_at: self.timeout_at,
            failed_attempts: self.failed_attempts,
            max_attempts: self.max_attempts,
            status: self.status,
            domain_args: self.domain_args@,
        }
    }
}

impl Clone for TaskRow {
    fn clone(&self) -> (copy: Self)
        ensures
            copy@ == self@,
    {
        TaskRow {
            task_id: self.task_id,
            task_type: self.task_type.clone(),
            triggering_event: self.triggering_event,
            created_at: self.created_at,
            updated_at: self.updated_at,
            scheduled_for: self.scheduled_for,
            next_attempt_at: self.next_attempt_at,
            timeout_at: self.timeout_at,
            failed_attempts: self.failed_attempts,
            max_attempts: self.max_attempts,
            status: self.status,
            domain_args: self.domain_args.clone(),
        }
    }
}

impl TaskArgs {
    /// The row of the task when it is pushed at the given times under the
    /// given id, or `None` where the time at which the task times out
    /// cannot be represented.
    pub fn into_row(self, task_id: TaskId, now: i64, civil_now: i64) -> (r: Option<TaskRow>)
        ensures
            match r {
                Some(row) => self@.fits(civil_now) && row@ == self@.row(task_id, now, civil_now),
                None => !self@.fits(civil_now),
            },
    {
        let triggering_event: Option<i64> = match self.trigger {
            TaskTrigger::Event(event_id) => Some(event_id),
            _ => None,
        };
        let scheduled_for: i64 = match self.trigger {
            TaskTrigger::Event(_) => civil_now,
            TaskTrigger::ScheduleNow => civil_now,
            TaskTrigger::ScheduleFor(at) => at,
        };
        let span: u64 = match self.limits {
            TaskLimit::MaxAttempts(_) => DEFAULT_TIMEOUT,
            TaskLimit::TimeoutAfter(span) => span,
        };
        let timeout: i128 = (scheduled_for as i128) + (span as i128);
        if timeout > i64::MAX as i128 {
            return None;
        }
        let max_attempts: i32 = match self.limits {
            TaskLimit::MaxAttempts(max_attempts) => max_attempts,
            TaskLimit::TimeoutAfter(_) => DEFAULT_MAX_ATTEMPTS,
        };
        Some(
            TaskRow {
                task_id,
                task_type: self.domain_args.to_string(),
                triggering_event,
                created_at: now,
                updated_at: now,
                scheduled_for,
                next_attempt_at: scheduled_for,
                timeout_at: timeout as i64,
                failed_attempts: 0,
                max_attempts,
                status: TaskStatus::Queued,
                domain_args: self.domain_args,
            },
        )
    }
}

/// The name of the constraint that keeps a second task of a type from being
/// queued for the same event. An insert that breaks it is a duplicate, and
/// is ignored.
pub fn is_duplicate_trigger(constraint: &str) -> (b: bool)
    ensures
        b == (constraint@ == "queue_task_type_triggering_event_key"@),
{
    let name = constraint.to_owned();
    let wanted = "queue_task_type_triggering_event_key".to_owned();
    name == wanted
}

/// A task handed to a worker.
#[derive(Debug, PartialEq, Eq)]
pub struct Task {
    pub task_id: TaskId,
    pub domain_args: TaskDomainArgs,
}

/// The model of a task handed to a worker.
pub ghost struct TaskView {
    pub task_id: TaskId,
    pub domain_args: TaskDomainArgsView,
}

impl View for Task {
    type V = TaskView;

    open spec fn view(&self) -> TaskView {
        TaskView { task_id: self.task_id, domain_args: self.domain_args@ }
    }
}

impl Clone for Task {
    fn clone(&self) -> (copy: Self)
        ensures
            copy@ == self@,
    {
        Task { task_id: self.task_id, domain_args: self.domain_args.clone() }
    }
}

impl Task {
    /// The task of a row.
    pub fn from(row: TaskRow) -> (task: Task)
        ensures
            task@ == task_of(row@),
    {
        Task { task_id: row.task_id, domain_args: row.domain_args }
    }
}

/// The task of a row: its id and its payload.
pub open spec fn task_of(row: TaskRowView) -> TaskView {
    TaskView { task_id: row.task_id, domain_args: row.domain_args }
}

impl TaskArgsView {
    /// The event that triggers the task, if one does.
    pub open spec fn triggering_event(self) -> Option<i64> {
        match self.trigger {
            TaskTrigger::Event(event_id) => Some(event_id),
            _ => None,
        }
    }

    /// The civil time the task is scheduled for, when pushed at `civil_now`.
    pub open spec fn scheduled_for(self, civil_now: i64) -> i64 {
        match self.trigger {
            TaskTrigger::ScheduleFor(at) => at,
            _ => civil_now,
        }
    }

    /// The span after its schedule in which the task may run.
    pub open spec fn timeout_span(self) -> u64 {
        match self.limits {
            TaskLimit::MaxAttempts(_) => DEFAULT_TIMEOUT,
            TaskLimit::TimeoutAfter(span) => span,
        }
    }

    /// The number of attempts the task has.
    pub open spec fn max_attempts(self) -> i32 {
        match self.limits {
            TaskLimit::MaxAttempts(n) => n,
            TaskLimit::TimeoutAfter(_) => DEFAULT_MAX_ATTEMPTS,
        }
    }

    /// Whether the time at which the task times out can be represented.
    pub open spec fn fits(self, civil_now: i64) -> bool {
        self.scheduled_for(civil_now) + self.timeout_span() <= i64::MAX
    }

    /// The row of the task when it is pushed: queued, never failed, its
    /// first attempt due at its schedule.
    pub open spec fn row(self, task_id: TaskId, now: i64, civil_now: i64) -> TaskRowView {
        TaskRowView {
            task_id,
            task_type: self.domain_args.task_type(),
            triggering_event: self.triggering_event(),
            created_at: now,
            updated_at: now,
            scheduled_for: self.scheduled_for(civil_now),
            next_attempt_at: self.scheduled_for(civil_now),
            timeout_at: (self.scheduled_for(civil_now) + self.timeout_span()) as i64,
            failed_attempts: 0,
            max_attempts: self.max_attempts(),
            status: TaskStatus::Queued,
            domain_args: self.domain_args,
        }
    }
}

/// Whether a task of the type is in the queue for the event.
pub open spec fn has_trigger(rows: Seq<TaskRowView>, task_type: Seq<char>, event_id: i64) -> bool {
    exists|i: int|
        0 <= i < rows.len() && (#[trigger] rows[i]).triggering_event == Some(event_id)
            && rows[i].task_type == task_type
}

/// Whether a task with the id is in the queue.
pub open spec fn has_task(rows: Seq<TaskRowView>, task_id: TaskId) -> bool {
    exists|i: int| 0 <= i < rows.len() && (#[trigger] rows[i]).task_id == task_id
}

/// Whether a push adds no row because the task is there already: a task of
/// the same type is in the queue for the same event. Tasks that no event
/// triggers are never duplicates.
pub open spec fn is_duplicate(rows: Seq<TaskRowView>, args: TaskArgsView) -> bool {
    args.triggering_event() matches Some(event_id) && has_trigger(
        rows,
        args.domain_args.task_type(),
        event_id,
    )
}

/// The queue after a push that was accepted.
pub open spec fn pushed(
    rows: Seq<TaskRowView>,
    args: TaskArgsView,
    task_id: TaskId,
    now: i64,
    civil_now: i64,
) -> Seq<TaskRowView> {
    if is_duplicate(rows, args) {
        rows
    } else {
        rows.push(args.row(task_id, now, civil_now))
    }
}

/// Whether a task can be pulled at a civil time: it is queued, its schedule
/// and its next attempt have come, it has not timed out, and it has
/// attempts left.
pub open spec fn due(row: TaskRowView, civil_now: i64) -> bool {
    &&& row.status == TaskStatus::Queued
    &&& row.scheduled_for <= civil_now
    &&& row.next_attempt_at <= civil_now <= row.timeout_at
    &&& row.failed_attempts < row.max_attempts
}

/// The place of the task to pull next: of the due tasks the one scheduled
/// earliest, and among those scheduled for the same time the one pushed
/// first.
pub open spec fn next_due(rows: Seq<TaskRowView>, civil_now: i64) -> Option<int>
    decreases rows.len(),
{
    if rows.len() == 0 {
        None
    } else {
        match next_due(rows.drop_last(), civil_now) {
            Some(i) => if due(rows.last(), civil_now) && rows.last().scheduled_for
                < rows[i].scheduled_for {
                Some(rows.len() - 1)
            } else {
                Some(i)
            },
            None => if due(rows.last(), civil_now) {
                Some(rows.len() - 1)
            } else {
                None
            },
        }
    }
}

/// A row when a worker takes it.
pub open spec fn started(row: TaskRowView, now: i64) -> TaskRowView {
    TaskRowView { status: TaskStatus::Running, updated_at: now, ..row }
}

/// The queue after up to `n` tasks were pulled, and the rows pulled, in the
/// order in which they were taken.
pub open spec fn pulled(rows: Seq<TaskRowView>, now: i64, civil_now: i64, n: nat) -> (
    Seq<TaskRowView>,
    Seq<TaskRowView>,
)
    decreases n,
{
    if n == 0 {
        (rows, Seq::empty())
    } else {
        match next_due(rows, civil_now) {
            None => (rows, Seq::empty()),
            Some(i) => {
                let row = started(rows[i], now);
                let rest = pulled(rows.update(i, row), now, civil_now, (n - 1) as nat);
                (rest.0, seq![row] + rest.1)
            },
        }
    }
}

/// The number of tasks that a pull of `number_of_tasks` may take.
pub open spec fn pull_limit(number_of_tasks: i64) -> nat {
    if number_of_tasks > 0 {
        number_of_tasks as nat
    } else {
        0
    }
}

/// Whether `after` and `tasks` are the queue and the tasks handed out when
/// up to `number_of_tasks` tasks are pulled from `before` at the given
/// times.
pub open spec fn is_pull(
    before: Seq<TaskRowView>,
    after: Seq<TaskRowView>,
    tasks: Seq<TaskView>,
    number_of_tasks: i64,
    now: i64,
    civil_now: i64,
) -> bool {
    let outcome = pulled(before, now, civil_now, pull_limit(number_of_tasks));
    &&& after == outcome.0
    &&& tasks == tasks_of(outcome.1)
}

/// The delay added after a failure, given the failures before it: 125 ms,
/// doubled for each earlier failure.
pub open spec fn backoff(failures_before: int) -> int
    decreases failures_before,
{
    if failures_before <= 0 {
        BACKOFF_BASE as int
    } else {
        2 * backoff(failures_before - 1)
    }
}

/// Whether one more failure of a task can be recorded: the count of its
/// failures and the time of its next attempt stay within what can be
/// represented. The time at which the failure is recorded plays no part.
pub open spec fn can_record_failure(row: TaskRowView) -> bool {
    row.failed_attempts < i32::MAX && row.next_attempt_at + backoff(row.failed_attempts as int)
        <= i64::MAX
}

/// A row after an attempt failed: one more failure, the next attempt later
/// by the backoff, queued again. `None` where the count or the time cannot
/// be represented.
pub open spec fn failed(row: TaskRowView, now: i64) -> Option<TaskRowView> {
    if can_record_failure(row) {
        Some(
            TaskRowView {
                status: TaskStatus::Queued,
                updated_at: now,
                failed_attempts: (row.failed_attempts + 1) as i32,
                next_attempt_at: (row.next_attempt_at + backoff(
                    row.failed_attempts as int,
                )) as i64,
                ..row
            },
        )
    } else {
        None
    }
}

/// Whether a task has failed for good: its attempts are used up, or its
/// next attempt would not come before its timeout.
pub open spec fn permanently_failed(row: TaskRowView) -> bool {
    row.failed_attempts >= row.max_attempts || row.next_attempt_at >= row.timeout_at
}

/// The place of the task with the id, if it is in the queue.
pub open spec fn place_of(rows: Seq<TaskRowView>, task_id: TaskId) -> Option<int>
    decreases rows.len(),
{
    if rows.len() == 0 {
        None
    } else {
        match place_of(rows.drop_last(), task_id) {
            Some(i) => Some(i),
            None => if rows.last().task_id == task_id {
                Some(rows.len() - 1)
            } else {
                None
            },
        }
    }
}

/// Whether `after` is the queue when an attempt at the task fails in
/// `before` at the given time, and `permanent_failure` tells whether the
/// task has then failed for good.
pub open spec fn is_failure(
    before: Seq<TaskRowView>,
    after: Seq<TaskRowView>,
    task_id: TaskId,
    now: i64,
    permanent_failure: bool,
) -> bool {
    &&& place_of(before, task_id) matches Some(i)
    &&& failed(before[i], now) matches Some(row)
    &&& after == before.update(i, row)
    &&& permanent_failure == permanently_failed(row)
}

/// The invariant of a queue: ids are unique, at most one task of a type is
/// there for an event, no count of failures is negative, and every row
/// names the type of its payload.
pub open spec fn well_formed(rows: Seq<TaskRowView>) -> bool {
    &&& forall|i: int, j: int|
        0 <= i < j < rows.len() ==> (#[trigger] rows[i]).task_id != (#[trigger] rows[j]).task_id
    &&& forall|i: int, j: int|
        0 <= i < j < rows.len() && (#[trigger] rows[i]).triggering_event is Some && rows[i].task_type
            == (#[trigger] rows[j]).task_type ==> rows[i].triggering_event
            != rows[j].triggering_event
    &&& forall|i: int| 0 <= i < rows.len() ==> (#[trigger] rows[i]).failed_attempts >= 0
    &&& forall|i: int|
        0 <= i < rows.len() ==> (#[trigger] rows[i]).task_type == rows[i].domain_args.task_type()
}

/// Why the queue refused.
#[derive(Clone, Copy, Debug, PartialEq, Eq, Structural)]
pub enum QueueError {
    /// No task with the id is in the queue.
    TaskNotFound,
    /// A task with the id is in the queue already.
    DuplicateTaskId,
    /// A time or a count cannot be represented.
    OutOfRange,
}

/// What a push did.
#[derive(Clone, Copy, Debug, PartialEq, Eq, Structural)]
pub enum PushOutcome {
    /// The task is in the queue.
    Queued,
    /// A task of the type was in the queue for the event; nothing changed.
    DuplicateIgnored,
}

/// The tasks of a list of rows, in order.
pub open spec fn tasks_of(rows: Seq<TaskRowView>) -> Seq<TaskView> {
    rows.map_values(|row: TaskRowView| task_of(row))
}

/// The rows of a list, as models.
pub open spec fn row_views(rows: Seq<TaskRow>) -> Seq<TaskRowView> {
    rows.map_values(|row: TaskRow| row@)
}

/// The tasks of a list, as models.
pub open spec fn task_views(tasks: Seq<Task>) -> Seq<TaskView> {
    tasks.map_values(|task: Task| task@)
}

/// The task queue, held in memory.
#[derive(Debug)]
pub struct WorkQueue {
    rows: Vec<TaskRow>,
}

impl View for WorkQueue {
    type V = Seq<TaskRowView>;

    closed spec fn view(&self) -> Seq<TaskRowView> {
        row_views(self.rows@)
    }
}

/// The delay added after a failure, where it is less than `2^64`.
pub fn backoff_after(failures_before: i32) -> (r: Option<u64>)
    requires
        failures_before >= 0,
    ensures
        match r {
            Some(delay) => delay == backoff(failures_before as int),
            None => backoff(failures_before as int) > u64::MAX,
        },
{
    let mut delay: u64 = 125_000;
    let mut k: i32 = 0;
    while k < failures_before
        invariant
            0 <= k <= failures_before,
            delay == backoff(k as int),
            delay > 0,
        decreases failures_before - k,
    {
        if delay > u64::MAX / 2 {
            proof {
                lemma_backoff_grows(k as int + 1, failures_before as int);
            }
            return None;
        }
        delay = delay * 2;
        k += 1;
    }
    Some(delay)
}

/// The backoff never shrinks as failures add up.
pub proof fn lemma_backoff_grows(fewer: int, more: int)
    requires
        0 <= fewer <= more,
    ensures
        0 < backoff(fewer) <= backoff(more),
    decreases more,
{
    if fewer < more {
        lemma_backoff_grows(fewer, more - 1);
    } else if fewer > 0 {
        lemma_backoff_grows(fewer - 1, more - 1);
    }
}

impl WorkQueue {
    /// The invariant of the queue holds.
    pub open spec fn wf(&self) -> bool {
        well_formed(self@)
    }

    /// The empty queue.
    pub fn new() -> (queue: WorkQueue)
        ensures
            queue@ == Seq::<TaskRowView>::empty(),
            queue.wf(),
    {
        let queue = WorkQueue { rows: Vec::new() };
        assert(queue@ =~= Seq::<TaskRowView>::empty());
        queue
    }

    /// The number of tasks in the queue.
    pub fn len(&self) -> (n: usize)
        ensures
            n == self@.len(),
    {
        self.rows.len()
    }

    /// Removes every task.
    pub fn clear(&mut self)
        ensures
            final(self)@ == Seq::<TaskRowView>::empty(),
            final(self).wf(),
    {
        self.rows.clear();
        assert(self@ =~= Seq::<TaskRowView>::empty());
    }

    fn position(&self, task_id: TaskId) -> (r: Option<usize>)
        ensures
            match r {
                Some(i) => place_of(self@, task_id) == Some(i as int) && i < self@.len()
                    && self@[i as int].task_id == task_id,
                None => place_of(self@, task_id) is None && !has_task(self@, task_id),
            },
    {
        let mut i: usize = 0;
        while i < self.rows.len()
            invariant
                i <= self.rows@.len(),
                place_of(self@.take(i as int), task_id) is None,
                forall|k: int| 0 <= k < i ==> (#[trigger] self@[k]).task_id != task_id,
            decreases self.rows@.len() - i,
        {
            proof {
                assert(self@.take(i + 1).drop_last() == self@.take(i as int));
                assert(self@.take(i + 1).last() == self.rows@[i as int]@);
            }
            if self.rows[i].task_id == task_id {
                proof {
                    lemma_place_of_extends(self@, task_id, i + 1);
                }
                return Some(i);
            }
            i += 1;
        }
        assert(self@.take(i as int) == self@);
        None
    }

    fn holds_trigger(&self, task_type: &String, event_id: i64) -> (b: bool)
        ensures
            b == has_trigger(self@, task_type@, event_id),
    {
        let mut i: usize = 0;
        while i < self.rows.len()
            invariant
                i <= self.rows@.len(),
                forall|k: int|
                    0 <= k < i ==> !((#[trigger] self@[k]).triggering_event == Some(event_id)
                        && self@[k].task_type == task_type@),
            decreases self.rows@.len() - i,
        {
            let row = &self.rows[i];
            assert(self@[i as int] == row@);
            if let Some(id) = row.triggering_event {
                if id == event_id && row.task_type == *task_type {
                    return true;
                }
            }
            i += 1;
        }
        false
    }

    /// Pushes a task at the given times under the given id. A task that an
    /// event triggers is ignored where a task of its type is there for the
    /// event already. The push is refused, and the queue unchanged, where
    /// the id is taken or the timeout cannot be represented.
    pub fn push_at(&mut self, args: TaskArgs, task_id: TaskId, now: i64, civil_now: i64) -> (r:
        Result<PushOutcome, QueueError>)
        requires
            old(self).wf(),
        ensures
            final(self).wf(),
            match r {
                Ok(PushOutcome::DuplicateIgnored) => is_duplicate(old(self)@, args@) && final(self)@
                    == old(self)@,
                Ok(PushOutcome::Queued) => {
                    &&& !is_duplicate(old(self)@, args@)
                    &&& args@.fits(civil_now)
                    &&& !has_task(old(self)@, task_id)
                    &&& final(self)@ == old(self)@.push(args@.row(task_id, now, civil_now))
                },
                Err(QueueError::OutOfRange) => {
                    &&& !is_duplicate(old(self)@, args@)
                    &&& !args@.fits(civil_now)
                    &&& final(self)@ == old(self)@
                },
                Err(QueueError::DuplicateTaskId) => {
                    &&& !is_duplicate(old(self)@, args@)
                    &&& args@.fits(civil_now)
                    &&& has_task(old(self)@, task_id)
                    &&& final(self)@ == old(self)@
                },
                Err(QueueError::TaskNotFound) => false,
            },
    {
        let task_type = args.domain_args.to_string();
        if let TaskTrigger::Event(event_id) = args.trigger {
            if self.holds_trigger(&task_type, event_id) {
                return Ok(PushOutcome::DuplicateIgnored);
            }
        }
        let row = match args.into_row(task_id, now, civil_now) {
            Some(row) => row,
            None => {
                return Err(QueueError::OutOfRange);
            },
        };
        if self.position(task_id).is_some() {
            return Err(QueueError::DuplicateTaskId);
        }
        proof {
            let before = self@;
            let after = before.push(row@);
            assert(row@ == args@.row(task_id, now, civil_now));
            assert(row_views(self.rows@.push(row)) =~= after);
            assert(well_formed(after)) by {
                assert forall|i: int, j: int| 0 <= i < j < after.len() implies (
                #[trigger] after[i]).task_id != (#[trigger] after[j]).task_id by {
                    if j < before.len() {
                        assert(after[i] == before[i] && after[j] == before[j]);
                    } else {
                        assert(after[i] == before[i]);
                    }
                }
                assert forall|i: int, j: int|
                    0 <= i < j < after.len() && (#[trigger] after[i]).triggering_event is Some
                        && after[i].task_type == (
                    #[trigger] after[j]).task_type implies after[i].triggering_event
                    != after[j].triggering_event by {
                    if j < before.len() {
                        assert(after[i] == before[i] && after[j] == before[j]);
                    } else {
                        assert(after[i] == before[i]);
                    }
                }
                assert forall|i: int| 0 <= i < after.len() implies (
                #[trigger] after[i]).failed_attempts >= 0 && after[i].task_type
                    == after[i].domain_args.task_type() by {
                    if i < before.len() {
                        assert(after[i] == before[i]);
                    }
                }
            }
        }
        self.rows.push(row);
        Ok(PushOutcome::Queued)
    }

    /// Pushes a task now, under a new id. A duplicate of a task that an
    /// event triggered is ignored.
    pub fn push(&mut self, args: TaskArgs) -> (r: Result<(), QueueError>)
        requires
            old(self).wf(),
        ensures
            final(self).wf(),
            is_duplicate(old(self)@, args@) ==> r is Ok && final(self)@ == old(self)@,
            r is Err ==> final(self)@ == old(self)@,
            r is Ok && !is_duplicate(old(self)@, args@) ==> exists|
                task_id: TaskId,
                now: i64,
                civil_now: i64,
            |
                final(self)@ == old(self)@.push(#[trigger] args@.row(task_id, now, civil_now)),
    {
        let now = timestamp_now();
        let civil = civil_now();
        let task_id = TaskId::new();
        match self.push_at(args, task_id, now, civil) {
            Ok(_) => Ok(()),
            Err(error) => Err(error),
        }
    }

    fn next_due_place(&self, civil_now: i64) -> (r: Option<usize>)
        ensures
            match r {
                Some(i) => next_due(self@, civil_now) == Some(i as int) && i < self@.len(),
                None => next_due(self@, civil_now) is None,
            },
    {
        let mut best: Option<usize> = None;
        let mut i: usize = 0;
        while i < self.rows.len()
            invariant
                i <= self.rows@.len(),
                match best {
                    Some(b) => next_due(self@.take(i as int), civil_now) == Some(b as int) && b
                        < i,
                    None => next_due(self@.take(i as int), civil_now) is None,
                },
            decreases self.rows@.len() - i,
        {
            let row = &self.rows[i];
            proof {
                assert(self@.take(i + 1).drop_last() == self@.take(i as int));
                assert(self@.take(i + 1).last() == row@);
            }
            let is_due = row.status == TaskStatus::Queued && row.scheduled_for <= civil_now
                && row.next_attempt_at <= civil_now && civil_now <= row.timeout_at
                && row.failed_attempts < row.max_attempts;
            match best {
                Some(b) => {
                    assert(self@.take(i + 1)[b as int] == self.rows@[b as int]@);
                    if is_due && row.scheduled_for < self.rows[b].scheduled_for {
                        best = Some(i);
                    }
                },
                None => {
                    if is_due {
                        best = Some(i);
                    }
                },
            }
            i += 1;
        }
        assert(self@.take(i as int) == self@);
        best
    }

    /// Pulls up to `number_of_tasks` tasks that are due at the given civil
    /// time and marks each as running.
    pub fn pull_at(&mut self, number_of_tasks: i64, now: i64, civil_now: i64) -> (tasks: Vec<Task>)
        requires
            old(self).wf(),
        ensures
            final(self).wf(),
            is_pull(
                old(self)@,
                final(self)@,
                task_views(tasks@),
                number_of_tasks,
                now,
                civil_now,
            ),
    {
        let ghost start = self@;
        let ghost n: nat = pull_limit(number_of_tasks);
        let ghost mut taken: Seq<TaskRowView> = Seq::empty();
        let mut tasks: Vec<Task> = Vec::new();
        let mut k: i64 = 0;
        assert(task_views(tasks@) =~= tasks_of(taken));
        assert(taken + pulled(self@, now, civil_now, n).1 =~= pulled(start, now, civil_now, n).1);
        while k < number_of_tasks
            invariant
                0 <= k,
                k <= n,
                n == pull_limit(number_of_tasks),
                start == old(self)@,
                self.wf(),
                task_views(tasks@) == tasks_of(taken),
                pulled(start, now, civil_now, n).0 == pulled(
                    self@,
                    now,
                    civil_now,
                    (n - k) as nat,
                ).0,
                pulled(start, now, civil_now, n).1 == taken + pulled(
                    self@,
                    now,
                    civil_now,
                    (n - k) as nat,
                ).1,
            decreases number_of_tasks - k,
        {
            let i = match self.next_due_place(civil_now) {
                Some(i) => i,
                None => {
                    proof {
                        assert(pulled(self@, now, civil_now, (n - k) as nat) == (
                            self@,
                            Seq::<TaskRowView>::empty(),
                        ));
                        assert(taken + Seq::<TaskRowView>::empty() =~= taken);
                    }
                    return tasks;
                },
            };
            let ghost before = self@;
            let mut row = self.rows[i].clone();
            assert(before[i as int] == self.rows@[i as int]@);
            row.status = TaskStatus::Running;
            row.updated_at = now;
            let task = Task { task_id: row.task_id, domain_args: row.domain_args.clone() };
            proof {
                let after = before.update(i as int, row@);
                assert(row@ == started(before[i as int], now));
                assert(row_views(self.rows@.update(i as int, row)) =~= after);
                lemma_update_keeps_well_formed(before, i as int, row@);
                let rest = pulled(after, now, civil_now, (n - k - 1) as nat);
                assert(pulled(before, now, civil_now, (n - k) as nat).1 == seq![row@] + rest.1);
                assert(taken.push(row@) + rest.1 =~= taken + (seq![row@] + rest.1));
                assert(task@ == task_of(row@));
                assert(task_views(tasks@.push(task)) =~= task_views(tasks@).push(task@));
                assert(tasks_of(taken.push(row@)) =~= tasks_of(taken).push(task_of(row@)));
                taken = taken.push(row@);
            }
            self.rows.set(i, row);
            tasks.push(task);
            k += 1;
        }
        assert(taken + Seq::<TaskRowView>::empty() =~= taken);
        tasks
    }

    /// Pulls up to `number_of_tasks` tasks that are due now.
    pub fn pull(&mut self, number_of_tasks: i64) -> (tasks: Vec<Task>)
        requires
            old(self).wf(),
        ensures
            final(self).wf(),
            exists|now: i64, civil_now: i64| #[trigger]
                is_pull(
                    old(self)@,
                    final(self)@,
                    task_views(tasks@),
                    number_of_tasks,
                    now,
                    civil_now,
                ),
    {
        let now = timestamp_now();
        let civil = civil_now();
        self.pull_at(number_of_tasks, now, civil)
    }

    /// Records at the given time that an attempt at a task failed, and
    /// tells whether the task has failed for good.
    pub fn fail_task_at(&mut self, task_id: TaskId, now: i64) -> (r: Result<bool, QueueError>)
        requires
            old(self).wf(),
        ensures
            final(self).wf(),
            match r {
                Ok(permanent_failure) => is_failure(
                    old(self)@,
                    final(self)@,
                    task_id,
                    now,
                    permanent_failure,
                ),
                Err(QueueError::TaskNotFound) => {
                    &&& place_of(old(self)@, task_id) is None
                    &&& final(self)@ == old(self)@
                },
                Err(QueueError::OutOfRange) => {
                    &&& place_of(old(self)@, task_id) matches Some(i)
                    &&& failed(old(self)@[i], now) is None
                    &&& final(self)@ == old(self)@
                },
                Err(QueueError::DuplicateTaskId) => false,
            },
    {
        let i = match self.position(task_id) {
            Some(i) => i,
            None => {
                return Err(QueueError::TaskNotFound);
            },
        };
        let ghost before = self@;
        let mut row = self.rows[i].clone();
        assert(before[i as int] == self.rows@[i as int]@);
        if row.failed_attempts == i32::MAX {
            return Err(QueueError::OutOfRange);
        }
        let delay = match backoff_after(row.failed_attempts) {
            Some(delay) => delay,
            None => {
                return Err(QueueError::OutOfRange);
            },
        };
        let next_attempt: i128 = (row.next_attempt_at as i128) + (delay as i128);
        if next_attempt > i64::MAX as i128 {
            return Err(QueueError::OutOfRange);
        }
        row.status = TaskStatus::Queued;
        row.updated_at = now;
        row.failed_attempts = row.failed_attempts + 1;
        row.next_attempt_at = next_attempt as i64;
        let permanent_failure = row.failed_attempts >= row.max_attempts || row.next_attempt_at
            >= row.timeout_at;
        proof {
            assert(Some(row@) == failed(before[i as int], now));
            assert(row_views(self.rows@.update(i as int, row)) =~= before.update(i as int, row@));
            lemma_update_keeps_well_formed(before, i as int, row@);
        }
        self.rows.set(i, row);
        Ok(permanent_failure)
    }

    /// Records that an attempt at a task failed, and tells whether the task
    /// has failed for good.
    pub fn fail_task(&mut self, task_id: TaskId) -> (r: Result<bool, QueueError>)
        requires
            old(self).wf(),
        ensures
            final(self).wf(),
            match r {
                Ok(permanent_failure) => {
                    &&& place_of(old(self)@, task_id) matches Some(i)
                    &&& can_record_failure(old(self)@[i])
                    &&& exists|now: i64| #[trigger]
                        is_failure(old(self)@, final(self)@, task_id, now, permanent_failure)
                },
                Err(QueueError::TaskNotFound) => {
                    &&& place_of(old(self)@, task_id) is None
                    &&& final(self)@ == old(self)@
                },
                Err(QueueError::OutOfRange) => {
                    &&& place_of(old(self)@, task_id) matches Some(i)
                    &&& !can_record_failure(old(self)@[i])
                    &&& final(self)@ == old(self)@
                },
                Err(QueueError::DuplicateTaskId) => false,
            },
    {
        let now = timestamp_now();
        self.fail_task_at(task_id, now)
    }

    /// Removes a task, which has succeeded. A task that is not in the queue
    /// is left out without complaint.
    pub fn delete_task(&mut self, task_id: TaskId)
        requires
            old(self).wf(),
        ensures
            final(self).wf(),
            match place_of(old(self)@, task_id) {
                Some(i) => final(self)@ == old(self)@.remove(i),
                None => final(self)@ == old(self)@,
            },
            !has_task(final(self)@, task_id),
    {
        if let Some(i) = self.position(task_id) {
            let ghost before = self@;
            proof {
                let after = before.remove(i as int);
                assert(row_views(self.rows@.remove(i as int)) =~= after);
                assert(well_formed(after)) by {
                    assert forall|a: int| 0 <= a < after.len() implies #[trigger] after[a]
                        == before[if a < i {
                        a
                    } else {
                        a + 1
                    }] by {}
                    assert forall|a: int, b: int| 0 <= a < b < after.len() implies (
                    #[trigger] after[a]).task_id != (#[trigger] after[b]).task_id by {
                        let a0 = if a < i { a } else { a + 1 };
                        let b0 = if b < i { b } else { b + 1 };
                        assert(before[a0].task_id != before[b0].task_id);
                    }
                    assert forall|a: int, b: int|
                        0 <= a < b < after.len() && (#[trigger] after[a]).triggering_event is Some
                            && after[a].task_type == (
                        #[trigger] after[b]).task_type implies after[a].triggering_event
                        != after[b].triggering_event by {
                        let a0 = if a < i { a } else { a + 1 };
                        let b0 = if b < i { b } else { b + 1 };
                        assert(before[a0].triggering_event is Some && before[a0].task_type
                            == before[b0].task_type);
                    }
                    assert forall|a: int| 0 <= a < after.len() implies (
                    #[trigger] after[a]).failed_attempts >= 0 && after[a].task_type
                        == after[a].domain_args.task_type() by {
                        let a0 = if a < i { a } else { a + 1 };
                        assert(before[a0].failed_attempts >= 0);
                    }
                }
                assert(!has_task(after, task_id)) by {
                    assert forall|a: int| 0 <= a < after.len() implies (
                    #[trigger] after[a]).task_id != task_id by {
                        let a0 = if a < i { a } else { a + 1 };
                        if a0 < i {
                            assert(before[a0].task_id != before[i as int].task_id);
                        } else {
                            assert(before[i as int].task_id != before[a0].task_id);
                        }
                    }
                }
            }
            self.rows.remove(i);
        }
    }

    /// The row of a task.
    pub fn fetch(&self, task_id: TaskId) -> (r: Result<TaskRow, QueueError>)
        ensures
            match r {
                Ok(row) => place_of(self@, task_id) matches Some(i) && row@ == self@[i],
                Err(error) => error == QueueError::TaskNotFound && place_of(self@, task_id)
                    is None,
            },
    {
        match self.position(task_id) {
            Some(i) => {
                assert(self@[i as int] == self.rows@[i as int]@);
                Ok(self.rows[i].clone())
            },
            None => Err(QueueError::TaskNotFound),
        }
    }
}

/// What is found in a prefix of the rows is found in the rows.
pub proof fn lemma_place_of_extends(rows: Seq<TaskRowView>, task_id: TaskId, n: int)
    requires
        0 <= n <= rows.len(),
        place_of(rows.take(n), task_id) is Some,
    ensures
        place_of(rows, task_id) == place_of(rows.take(n), task_id),
    decreases rows.len(),
{
    if n == rows.len() {
        assert(rows.take(n) == rows);
    } else {
        assert(rows.drop_last().take(n) == rows.take(n));
        lemma_place_of_extends(rows.drop_last(), task_id, n);
    }
}

/// Changing a row without touching its id, its type, its trigger or its
/// payload, and without making its failures negative, keeps the invariant.
pub proof fn lemma_update_keeps_well_formed(rows: Seq<TaskRowView>, i: int, row: TaskRowView)
    requires
        well_formed(rows),
        0 <= i < rows.len(),
        row.task_id == rows[i].task_id,
        row.task_type == rows[i].task_type,
        row.triggering_event == rows[i].triggering_event,
        row.domain_args == rows[i].domain_args,
        row.failed_attempts >= 0,
    ensures
        well_formed(rows.update(i, row)),
{
    let after = rows.update(i, row);
    assert forall|a: int, b: int| 0 <= a < b < after.len() implies (#[trigger] after[a]).task_id
        != (#[trigger] after[b]).task_id by {
        assert(rows[a].task_id != rows[b].task_id);
    }
    assert forall|a: int, b: int|
        0 <= a < b < after.len() && (#[trigger] after[a]).triggering_event is Some
            && after[a].task_type == (
        #[trigger] after[b]).task_type implies after[a].triggering_event
        != after[b].triggering_event by {
        assert(rows[a].triggering_event is Some && rows[a].task_type == rows[b].task_type);
    }
    assert forall|a: int| 0 <= a < after.len() implies (#[trigger] after[a]).failed_attempts >= 0
        && after[a].task_type == after[a].domain_args.task_type() by {
        assert(rows[a].failed_attempts >= 0);
    }
}

/// In a queue that meets its invariant, at most one task of a type is there
/// for an event.
pub proof fn lemma_one_task_per_event(rows: Seq<TaskRowView>, i: int, j: int)
    requires
        well_formed(rows),
        0 <= i < rows.len(),
        0 <= j < rows.len(),
        rows[i].triggering_event is Some,
        rows[i].triggering_event == rows[j].triggering_event,
        rows[i].task_type == rows[j].task_type,
    ensures
        i == j,
{
    if i < j {
        assert(rows[i].triggering_event != rows[j].triggering_event);
    } else if j < i {
        assert(rows[j].triggering_event != rows[i].triggering_event);
    }
}

/// Pushing the same task for the same event a second time changes nothing,
/// whatever the id and the times of the second push.
pub proof fn lemma_push_twice(
    rows: Seq<TaskRowView>,
    args: TaskArgsView,
    first_id: TaskId,
    first_now: i64,
    first_civil_now: i64,
    second_id: TaskId,
    second_now: i64,
    second_civil_now: i64,
)
    requires
        args.triggering_event() is Some,
    ensures
        pushed(
            pushed(rows, args, first_id, first_now, first_civil_now),
            args,
            second_id,
            second_now,
            second_civil_now,
        ) == pushed(rows, args, first_id, first_now, first_civil_now),
{
    let once = pushed(rows, args, first_id, first_now, first_civil_now);
    if !is_duplicate(rows, args) {
        let row = args.row(first_id, first_now, first_civil_now);
        assert(once[rows.len() as int] == row);
        assert(is_duplicate(once, args));
    }
}

} // verus!
