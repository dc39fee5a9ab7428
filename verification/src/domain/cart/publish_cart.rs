//! Publishing a submitted cart to the outside.

use vstd::prelude::*;

use super::ids::CartId;
use crate::domain::event_store::PersistedEvent;
use crate::domain::events::{copy_ordered_products, DomainEvent, EventView, OrderedProduct};
use crate::domain::money::Money;
use crate::subsystems::work_queue::queue::{
    is_duplicate, QueueError, TaskArgs, TaskArgsView, TaskLimit, TaskRowView, TaskTrigger,
    WorkQueue,
};
use crate::subsystems::work_queue::tasks::{TaskDomainArgs, TaskDomainArgsView};

verus! {

/// The topic on which submitted carts are published.
pub open spec fn published_carts_topic() -> Seq<char> {
    "published-carts"@
}

/// The message that tells the outside of a submitted cart.
#[derive(Debug, PartialEq, Eq, Hash)]
pub struct ExternalPublishCart {
    pub cart_id: CartId,
    pub ordered_product: Vec<OrderedProduct>,
    pub total_price: Money,
}

/// The model of the message of a submitted cart.
pub ghost struct ExternalPublishCartView {
    pub cart_id: CartId,
    pub ordered_product: Seq<OrderedProduct>,
    pub total_price: Money,
}

impl View for ExternalPublishCart {
    type V = ExternalPublishCartView;

    open spec fn view(&self) -> ExternalPublishCartView {
        ExternalPublishCartView {
            cart_id: self.cart_id,
            ordered_product: self.ordered_product@,
            total_price: self.total_price,
        }
    }
}

impl Clone for ExternalPublishCart {
    fn clone(&self) -> (copy: Self)
        ensures
            copy@ == self@,
    {
        ExternalPublishCart {
            cart_id: self.cart_id,
            ordered_product: copy_ordered_products(&self.ordered_product),
            total_price: self.total_price,
        }
    }
}

/// What the task that publishes a cart is given: the message, and the place
/// in the log of the submission that caused it.
#[derive(Debug, PartialEq, Eq)]
pub struct PublishCartProcessorArgs {
    pub triggering_event_id: i64,
    pub message: ExternalPublishCart,
}

/// The model of the arguments of the task that publishes a cart.
pub ghost struct PublishCartProcessorArgsView {
    pub triggering_event_id: i64,
    pub message: ExternalPublishCartView,
}

impl View for PublishCartProcessorArgs {
    type V = PublishCartProcessorArgsView;

    open spec fn view(&self) -> PublishCartProcessorArgsView {
        PublishCartProcessorArgsView {
            triggering_event_id: self.triggering_event_id,
            message: self.message@,
        }
    }
}

impl Clone for PublishCartProcessorArgs {
    fn clone(&self) -> (copy: Self)
        ensures
            copy@ == self@,
    {
        PublishCartProcessorArgs {
            triggering_event_id: self.triggering_event_id,
            message: self.message.clone(),
        }
    }
}

/// What is to be published for a task: the topic, the message, and the
/// event to append once the message has been sent.
#[derive(Debug)]
pub struct PublishRequest {
    pub topic: String,
    pub message: ExternalPublishCart,
    pub success_event: DomainEvent,
}

/// What the task that publishes a cart asks of the publisher: the message on
/// the topic of published carts, followed by the event that records the
/// publication.
pub fn publish_cart_processor(args: PublishCartProcessorArgs) -> (request: PublishRequest)
    ensures
        request.topic@ == published_carts_topic(),
        request.message@ == args.message@,
        request.success_event@ == (EventView::CartPublished { cart_id: args.message.cart_id }),
{
    let success_event = DomainEvent::CartPublished { cart_id: args.message.cart_id };
    PublishRequest { topic: "published-carts".to_owned(), message: args.message, success_event }
}

/// The time a task that publishes a cart may take, in microseconds: one
/// hour.
pub const PUBLISH_TIMEOUT: u64 = 3_600_000_000;

/// Queues the publication of every cart that is submitted.
#[derive(Debug, Clone, Copy)]
pub struct CartSubmittedEventHandler;

impl CartSubmittedEventHandler {
    /// The handler.
    pub fn new() -> Self {
        CartSubmittedEventHandler
    }

    /// The name under which the cursor of the handler is kept.
    pub fn id(&self) -> (id: &'static str)
        ensures
            id@ == "cart_submitted"@,
    {
        "cart_submitted"
    }

    /// The task that the submission with id `event_id` asks for: the
    /// publication of the cart, triggered by the submission and limited to
    /// one hour.
    pub open spec fn task_args(event_id: i64, event: EventView) -> TaskArgsView
        recommends
            event is CartSubmitted,
    {
        TaskArgsView {
            trigger: TaskTrigger::Event(event_id),
            limits: TaskLimit::TimeoutAfter(PUBLISH_TIMEOUT),
            domain_args: TaskDomainArgsView::PublishCart(
                PublishCartProcessorArgsView {
                    triggering_event_id: event_id,
                    message: ExternalPublishCartView {
                        cart_id: event->CartSubmitted_cart_id,
                        ordered_product: event->CartSubmitted_ordered_product,
                        total_price: event->CartSubmitted_total_price,
                    },
                },
            ),
        }
    }

    /// The task that a submission asks for.
    pub fn task(&self, event: &PersistedEvent) -> (r: Option<TaskArgs>)
        ensures
            match r {
                Some(task_args) => event@.event is CartSubmitted && task_args@ == Self::task_args(
                    event.id,
                    event@.event,
                ),
                None => !(event@.event is CartSubmitted),
            },
    {
        let event_id = event.id;
        match &event.event {
            DomainEvent::CartSubmitted { cart_id, ordered_product, total_price } => Some(
                TaskArgs {
                    trigger: TaskTrigger::Event(event_id),
                    limits: TaskLimit::TimeoutAfter(PUBLISH_TIMEOUT),
                    domain_args: TaskDomainArgs::PublishCart(
                        PublishCartProcessorArgs {
                            triggering_event_id: event_id,
                            message: ExternalPublishCart {
                                cart_id: *cart_id,
                                ordered_product: copy_ordered_products(ordered_product),
                                total_price: *total_price,
                            },
                        },
                    ),
                },
            ),
            _ => None,
        }
    }

    /// Takes in a submission: the publication of the cart is pushed onto
    /// the queue, unless it is there already.
    pub fn handle(&self, queue: &mut WorkQueue, event: &PersistedEvent) -> (r: Result<
        (),
        QueueError,
    >)
        requires
            old(queue).wf(),
            event@.event.in_submitted_stream(),
        ensures
            final(queue).wf(),
            is_duplicate(old(queue)@, Self::task_args(event.id, event@.event)) ==> r is Ok
                && final(queue)@ == old(queue)@,
            r is Err ==> final(queue)@ == old(queue)@,
            r is Ok && !is_duplicate(old(queue)@, Self::task_args(event.id, event@.event))
                ==> exists|task_id: crate::subsystems::work_queue::queue::TaskId, now: i64, civil_now: i64|
                final(queue)@ == old(queue)@.push(
                    #[trigger] Self::task_args(event.id, event@.event).row(
                        task_id,
                        now,
                        civil_now,
                    ),
                ),
    {
        match self.task(event) {
            Some(task_args) => queue.push(task_args),
            None => Ok(()),
        }
    }
}

} // verus!
