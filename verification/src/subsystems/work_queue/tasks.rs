//! The kinds of task that the queue holds.

use vstd::prelude::*;

use crate::domain::cart::{PublishCartProcessorArgs, PublishCartProcessorArgsView};
use crate::domain::events::{DomainEvent, EventView};

verus! {

/// The payload of a task, by kind.
#[derive(Debug, PartialEq, Eq)]
pub enum TaskDomainArgs {
    PublishCart(PublishCartProcessorArgs),
    TestingSuccess,
    TestingFailure,
}

/// The model of the payload of a task.
pub ghost enum TaskDomainArgsView {
    PublishCart(PublishCartProcessorArgsView),
    TestingSuccess,
    TestingFailure,
}

impl View for TaskDomainArgs {
    type V = TaskDomainArgsView;

    open spec fn view(&self) -> TaskDomainArgsView {
        match *self {
            TaskDomainArgs::PublishCart(args) => TaskDomainArgsView::PublishCart(args@),
            TaskDomainArgs::TestingSuccess => TaskDomainArgsView::TestingSuccess,
            TaskDomainArgs::TestingFailure => TaskDomainArgsView::TestingFailure,
        }
    }
}

impl Clone for TaskDomainArgs {
    fn clone(&self) -> (copy: Self)
        ensures
            copy@ == self@,
    {
        match self {
            TaskDomainArgs::PublishCart(args) => TaskDomainArgs::PublishCart(args.clone()),
            TaskDomainArgs::TestingSuccess => TaskDomainArgs::TestingSuccess,
            TaskDomainArgs::TestingFailure => TaskDomainArgs::TestingFailure,
        }
    }
}

impl TaskDomainArgsView {
    /// The name of the kind of task.
    pub open spec fn task_type(self) -> Seq<char> {
        match self {
            TaskDomainArgsView::PublishCart(_) => "PublishCart"@,
            TaskDomainArgsView::TestingSuccess => "TestingSuccess"@,
            TaskDomainArgsView::TestingFailure => "TestingFailure"@,
        }
    }

    /// The event that the queue appends when the task has failed for good,
    /// if the kind of task has one.
    pub open spec fn failure_event(self) -> Option<EventView> {
        match self {
            TaskDomainArgsView::PublishCart(args) => Some(
                EventView::CartPublicationFailed { cart_id: args.message.cart_id },
            ),
            _ => None,
        }
    }
}

impl TaskDomainArgs {
    /// The name of the kind of task.
    pub fn to_string(&self) -> (name: String)
        ensures
            name@ == self@.task_type(),
    {
        match self {
            TaskDomainArgs::PublishCart(_) => "PublishCart".to_owned(),
            TaskDomainArgs::TestingSuccess => "TestingSuccess".to_owned(),
            TaskDomainArgs::TestingFailure => "TestingFailure".to_owned(),
        }
    }

    /// The event that the queue appends when the task has failed for good.
    /// A cart that could not be published is recorded as such.
    pub fn failure_event(&self) -> (event: Option<DomainEvent>)
        ensures
            match event {
                Some(e) => self@.failure_event() == Some(e@),
                None => self@.failure_event() is None,
            },
    {
        match self {
            TaskDomainArgs::PublishCart(processor_args) => Some(
                DomainEvent::CartPublicationFailed { cart_id: processor_args.message.cart_id },
            ),
            TaskDomainArgs::TestingSuccess => None,
            TaskDomainArgs::TestingFailure => None,
        }
    }

    /// The event that the queue appends when the task has succeeded. No
    /// kind of task has one: the publisher of a cart appends its own,
    /// together with the message.
    pub fn success_event(&self) -> (event: Option<DomainEvent>)
        ensures
            event is None,
    {
        match self {
            TaskDomainArgs::PublishCart(_) => None,
            TaskDomainArgs::TestingSuccess => None,
            TaskDomainArgs::TestingFailure => None,
        }
    }
}

} // verus!
