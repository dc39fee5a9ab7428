//! Delivering the log to the projections.
//!
//! Each projection is a named listener with a cursor: the id of the last
//! event it has taken in. A run delivers to a listener, in log order, the
//! events of its streams above its cursor, and moves the cursor along.

use vstd::prelude::*;

use crate::domain::cart::cart_items_from_db::{self, CartItemsReadModelProjection, CartItemsTables};
use crate::domain::cart::carts_with_products::{
    self, CartsWithProductsReadModelProjection, CartsWithProductsRow,
};
use crate::domain::cart::cart_items::{cart_history, folded, CartItemView};
use crate::domain::cart::history::{cart_events, consistent, of_cart};
use crate::domain::cart::CartId;
use crate::domain::events::EventView;
use crate::domain::cart::inventories::{self, InventoriesReadModelProjection, InventoryRow};
use crate::domain::cart::{archive_items, as_commands, CartSubmittedEventHandler};
use crate::domain::decision::made_all;
use crate::domain::decision::DecisionMaker;
use crate::domain::event_store::{
    admitted, events_of, last_id, lemma_nothing_above_last_read, lemma_selected,
    lemma_selected_ordered, ordered, persisted_views, selected, EventStore, PersistedEvent,
    PersistedView, StreamFilter, StreamName, StreamQuery,
};
use crate::subsystems::work_queue::queue::{
    is_duplicate, pushed, QueueError, TaskId, TaskRowView, WorkQueue,
};

verus! {

/// The time between two polls of the log by a listener, in seconds. A
/// notification of the log may wake a listener earlier.
pub const POLL_SECONDS: u64 = 5;

/// The state after the events were delivered, in order.
pub open spec fn delivered<T>(
    state: T,
    events: Seq<PersistedView>,
    step: spec_fn(T, PersistedView) -> T,
) -> T
    decreases events.len(),
{
    if events.len() == 0 {
        state
    } else {
        step(delivered(state, events.drop_last(), step), events.last())
    }
}

/// The cursor after the events were delivered: the id of the last of them.
pub open spec fn cursor_after(cursor: i64, events: Seq<PersistedView>) -> i64 {
    if events.len() == 0 {
        cursor
    } else {
        events.last().id
    }
}

/// Delivering events and then more events is delivering all of them.
pub proof fn lemma_delivered_concat<T>(
    state: T,
    first: Seq<PersistedView>,
    then: Seq<PersistedView>,
    step: spec_fn(T, PersistedView) -> T,
)
    ensures
        delivered(delivered(state, first, step), then, step) == delivered(
            state,
            first + then,
            step,
        ),
    decreases then.len(),
{
    if then.len() == 0 {
        assert(first + then == first);
    } else {
        assert((first + then).drop_last() == first + then.drop_last());
        assert((first + then).last() == then.last());
        lemma_delivered_concat(state, first, then.drop_last(), step);
    }
}

/// What a listener reads from the start of a log is what it read when the
/// log was shorter, followed by what it reads above the cursor it had then.
pub proof fn lemma_selected_resumes(log: Seq<PersistedView>, filters: Seq<StreamFilter>, n: int)
    requires
        ordered(log),
        0 <= n <= log.len(),
    ensures
        selected(log, filters, 0) == selected(log.take(n), filters, 0) + selected(
            log,
            filters,
            cursor_after(0, selected(log.take(n), filters, 0)),
        ),
    decreases log.len(),
{
    let seen = selected(log.take(n), filters, 0);
    let cursor = cursor_after(0, seen);
    if n == log.len() {
        assert(log.take(n) == log);
        lemma_nothing_above_last_read(log, filters);
        assert(seen + Seq::<PersistedView>::empty() =~= seen);
    } else {
        let front = log.drop_last();
        assert(ordered(front)) by {
            assert(forall|i: int| 0 <= i < front.len() ==> front[i] == log[i]);
        }
        assert(front.take(n) == log.take(n));
        lemma_selected_resumes(front, filters, n);
        assert(ordered(log.take(n))) by {
            assert(forall|i: int| 0 <= i < n ==> log.take(n)[i] == log[i]);
        }
        lemma_selected_ordered(log.take(n), filters, 0);
        assert(log[log.len() - 1].id >= 1);
        assert(cursor < log.last().id) by {
            if seen.len() > 0 {
                assert(seen[seen.len() - 1].id <= last_id(log.take(n)));
                assert(n > 0);
                assert(log.take(n).last() == log[n - 1]);
                assert(log[n - 1].id < log[log.len() - 1].id);
            }
        }
        if admitted(filters, log.last().event) {
            assert(seen + selected(front, filters, cursor).push(log.last()) =~= (seen + selected(
                front,
                filters,
                cursor,
            )).push(log.last()));
        }
    }
}

/// Replaying a log from its start gives a projection the state that it
/// reached by taking the log in as it grew: first what the log held at an
/// earlier time, then what lay above the cursor.
pub proof fn lemma_replay_is_incremental<T>(
    state: T,
    log: Seq<PersistedView>,
    filters: Seq<StreamFilter>,
    n: int,
    step: spec_fn(T, PersistedView) -> T,
)
    requires
        ordered(log),
        0 <= n <= log.len(),
    ensures
        delivered(state, selected(log, filters, 0), step) == delivered(
            delivered(state, selected(log.take(n), filters, 0), step),
            selected(log, filters, cursor_after(0, selected(log.take(n), filters, 0))),
            step,
        ),
{
    lemma_selected_resumes(log, filters, n);
    lemma_delivered_concat(
        state,
        selected(log.take(n), filters, 0),
        selected(log, filters, cursor_after(0, selected(log.take(n), filters, 0))),
        step,
    );
}

/// The filters of the listener that keeps the items of the carts.
pub open spec fn cart_items_filters() -> Seq<StreamFilter> {
    seq![
        StreamFilter { stream: StreamName::Cart, cart_id: None, item_id: None, product_id: None },
    ]
}

/// The filters of the listener that keeps the index of products.
pub open spec fn carts_with_products_filters() -> Seq<StreamFilter> {
    seq![
        StreamFilter { stream: StreamName::Cart, cart_id: None, item_id: None, product_id: None },
        StreamFilter { stream: StreamName::Pricing, cart_id: None, item_id: None, product_id: None },
    ]
}

/// The filters of the listener that keeps the inventories.
pub open spec fn inventories_filters() -> Seq<StreamFilter> {
    seq![
        StreamFilter {
            stream: StreamName::Inventory,
            cart_id: None,
            item_id: None,
            product_id: None,
        },
    ]
}

/// The filters of the listener that queues the publication of carts.
pub open spec fn cart_submitted_filters() -> Seq<StreamFilter> {
    seq![
        StreamFilter {
            stream: StreamName::Submitted,
            cart_id: None,
            item_id: None,
            product_id: None,
        },
    ]
}

/// The number of commands that the events ask of the decision maker as
/// they are delivered to the index of products, in order.
pub open spec fn archival_count(rows: Seq<CartsWithProductsRow>, events: Seq<PersistedView>) -> nat
    decreases events.len(),
{
    if events.len() == 0 {
        0
    } else {
        archival_count(rows, events.drop_last()) + carts_with_products::commands_for(
            delivered(
                rows,
                events.drop_last(),
                |t: Seq<CartsWithProductsRow>, p: PersistedView|
                    carts_with_products::projected(t, p.id, p.event),
            ),
            events.last().id,
            events.last().event,
        ).len()
    }
}

/// The events of the log after the events were delivered to the index of
/// products, in order: each change of a price makes the commands that
/// archive the items which hold the product in the index as it stands then.
pub open spec fn archived_log(
    rows: Seq<CartsWithProductsRow>,
    log: Seq<EventView>,
    events: Seq<PersistedView>,
) -> Seq<EventView>
    decreases events.len(),
{
    if events.len() == 0 {
        log
    } else {
        made_all(
            archived_log(rows, log, events.drop_last()),
            as_commands(
                carts_with_products::commands_for(
                    delivered(
                        rows,
                        events.drop_last(),
                        |t: Seq<CartsWithProductsRow>, p: PersistedView|
                            carts_with_products::projected(t, p.id, p.event),
                    ),
                    events.last().id,
                    events.last().event,
                ),
            ),
        )
    }
}

/// The first events of a list ask for no more commands than the list.
pub proof fn lemma_archival_count_grows(
    rows: Seq<CartsWithProductsRow>,
    events: Seq<PersistedView>,
    k: int,
)
    requires
        0 <= k <= events.len(),
    ensures
        archival_count(rows, events.take(k)) <= archival_count(rows, events),
    decreases events.len(),
{
    if k == events.len() {
        assert(events.take(k) == events);
    } else {
        assert(events.drop_last().take(k) == events.take(k));
        lemma_archival_count_grows(rows, events.drop_last(), k);
    }
}

/// The id and the two times under which a task was pushed.
pub ghost struct Stamp {
    pub task_id: TaskId,
    pub now: i64,
    pub civil_now: i64,
}

/// The queue after the publication of each of the submissions was pushed,
/// in order, each push under its stamp. A publication that is in the queue
/// already is not pushed again.
pub open spec fn queued(
    rows: Seq<TaskRowView>,
    submissions: Seq<PersistedView>,
    stamps: Seq<Stamp>,
) -> Seq<TaskRowView>
    recommends
        stamps.len() == submissions.len(),
    decreases submissions.len(),
{
    if submissions.len() == 0 {
        rows
    } else {
        pushed(
            queued(rows, submissions.drop_last(), stamps.drop_last()),
            CartSubmittedEventHandler::task_args(submissions.last().id, submissions.last().event),
            stamps.last().task_id,
            stamps.last().now,
            stamps.last().civil_now,
        )
    }
}

/// What a run of the listener of submissions does. Of the submissions above
/// the cursor, the first `k` were taken in: the publication of each was
/// pushed under some stamp, and the cursor stands at the last of them. The
/// run succeeds when all were taken in; it fails at the first submission
/// whose publication the queue refused, which is never one that is in the
/// queue already.
pub open spec fn submissions_delivered(
    queue_before: Seq<TaskRowView>,
    queue_after: Seq<TaskRowView>,
    cursor_before: i64,
    cursor_now: i64,
    log: Seq<PersistedView>,
    succeeded: bool,
) -> bool {
    let submissions = selected(log, cart_submitted_filters(), cursor_before);
    exists|k: int, stamps: Seq<Stamp>|
        #![trigger queued(queue_before, submissions.take(k), stamps)]
        {
            &&& 0 <= k <= submissions.len()
            &&& stamps.len() == k
            &&& queue_after == queued(queue_before, submissions.take(k), stamps)
            &&& cursor_now == cursor_after(cursor_before, submissions.take(k))
            &&& succeeded <==> k == submissions.len()
            &&& !succeeded ==> !is_duplicate(
                queue_after,
                CartSubmittedEventHandler::task_args(submissions[k].id, submissions[k].event),
            )
        }
}

/// The cursors of the four listeners.
#[derive(Clone, Copy, Debug, PartialEq, Eq, Structural)]
pub struct Cursors {
    pub cart_items: i64,
    pub carts_with_products: i64,
    pub cart_submitted: i64,
    pub inventories: i64,
}

/// The four listeners with their cursors.
#[derive(Debug)]
pub struct EventListeners {
    pub cart_items: CartItemsReadModelProjection,
    pub carts_with_products: CartsWithProductsReadModelProjection,
    pub cart_submitted: CartSubmittedEventHandler,
    pub inventories: InventoriesReadModelProjection,
    pub cursors: Cursors,
}

impl EventListeners {
    /// The listeners before any event: empty read models, cursors at 0.
    pub fn new() -> (listeners: Self)
        ensures
            listeners.cursors == (Cursors {
                cart_items: 0,
                carts_with_products: 0,
                cart_submitted: 0,
                inventories: 0,
            }),
            listeners.cart_items@ == (CartItemsTables { carts: Seq::empty(), rows: Seq::empty() }),
            listeners.carts_with_products@ == Seq::<CartsWithProductsRow>::empty(),
            listeners.inventories@ == Seq::<InventoryRow>::empty(),
    {
        EventListeners {
            cart_items: CartItemsReadModelProjection::new(),
            carts_with_products: CartsWithProductsReadModelProjection::new(),
            cart_submitted: CartSubmittedEventHandler::new(),
            inventories: InventoriesReadModelProjection::new(),
            cursors: Cursors {
                cart_items: 0,
                carts_with_products: 0,
                cart_submitted: 0,
                inventories: 0,
            },
        }
    }

    /// Delivers to the items of the carts the events above their cursor.
    pub fn run_cart_items(&mut self, store: &EventStore)
        ensures
            final(self).cart_items@ == delivered(
                old(self).cart_items@,
                selected(store@, cart_items_filters(), old(self).cursors.cart_items),
                |t: CartItemsTables, p: PersistedView|
                    cart_items_from_db::projected(t, p.id, p.event),
            ),
            final(self).cursors == (Cursors {
                cart_items: cursor_after(
                    old(self).cursors.cart_items,
                    selected(store@, cart_items_filters(), old(self).cursors.cart_items),
                ),
                ..old(self).cursors
            }),
            final(self).carts_with_products == old(self).carts_with_products,
            final(self).inventories == old(self).inventories,
    {
        let query = StreamQuery::new(StreamFilter::of(StreamName::Cart));
        let batch = store.stream_after(&query, self.cursors.cart_items);
        let ghost step = |t: CartItemsTables, p: PersistedView|
            cart_items_from_db::projected(t, p.id, p.event);
        let ghost events = persisted_views(batch@);
        let ghost start = self.cart_items@;
        proof {
            lemma_selected(store@, cart_items_filters(), self.cursors.cart_items);
        }
        let mut i: usize = 0;
        while i < batch.len()
            invariant
                i <= batch@.len(),
                events == persisted_views(batch@),
                events == selected(store@, cart_items_filters(), old(self).cursors.cart_items),
                step == (|t: CartItemsTables, p: PersistedView|
                    cart_items_from_db::projected(t, p.id, p.event)),
                forall|k: int|
                    0 <= k < events.len() ==> admitted(
                        cart_items_filters(),
                        (#[trigger] events[k]).event,
                    ),
                self.cart_items@ == delivered(start, events.take(i as int), step),
                self.cursors == (Cursors {
                    cart_items: cursor_after(old(self).cursors.cart_items, events.take(i as int)),
                    ..old(self).cursors
                }),
                self.carts_with_products == old(self).carts_with_products,
                self.inventories == old(self).inventories,
            decreases batch@.len() - i,
        {
            let event = &batch[i];
            proof {
                assert(events[i as int] == event@);
                assert(admitted(cart_items_filters(), events[i as int].event));
                assert(events.take(i + 1).drop_last() == events.take(i as int));
                assert(events.take(i + 1).last() == event@);
            }
            self.cart_items.handle(event);
            self.cursors.cart_items = event.id;
            i += 1;
        }
        assert(events.take(i as int) == events);
    }

    /// Delivers to the inventories the events above their cursor.
    pub fn run_inventories(&mut self, store: &EventStore)
        ensures
            final(self).inventories@ == delivered(
                old(self).inventories@,
                selected(store@, inventories_filters(), old(self).cursors.inventories),
                |t: Seq<InventoryRow>, p: PersistedView| inventories::projected(t, p.id, p.event),
            ),
            final(self).cursors == (Cursors {
                inventories: cursor_after(
                    old(self).cursors.inventories,
                    selected(store@, inventories_filters(), old(self).cursors.inventories),
                ),
                ..old(self).cursors
            }),
            final(self).carts_with_products == old(self).carts_with_products,
            final(self).cart_items == old(self).cart_items,
    {
        let query = StreamQuery::new(StreamFilter::of(StreamName::Inventory));
        let batch = store.stream_after(&query, self.cursors.inventories);
        let ghost step = |t: Seq<InventoryRow>, p: PersistedView|
            inventories::projected(t, p.id, p.event);
        let ghost events = persisted_views(batch@);
        let ghost start = self.inventories@;
        proof {
            lemma_selected(store@, inventories_filters(), self.cursors.inventories);
        }
        let mut i: usize = 0;
        while i < batch.len()
            invariant
                i <= batch@.len(),
                events == persisted_views(batch@),
                events == selected(store@, inventories_filters(), old(self).cursors.inventories),
                step == (|t: Seq<InventoryRow>, p: PersistedView|
                    inventories::projected(t, p.id, p.event)),
                forall|k: int|
                    0 <= k < events.len() ==> admitted(
                        inventories_filters(),
                        (#[trigger] events[k]).event,
                    ),
                self.inventories@ == delivered(start, events.take(i as int), step),
                self.cursors == (Cursors {
                    inventories: cursor_after(
                        old(self).cursors.inventories,
                        events.take(i as int),
                    ),
                    ..old(self).cursors
                }),
                self.carts_with_products == old(self).carts_with_products,
                self.cart_items == old(self).cart_items,
            decreases batch@.len() - i,
        {
            let event = &batch[i];
            proof {
                assert(events[i as int] == event@);
                assert(admitted(inventories_filters(), events[i as int].event));
                assert(events.take(i + 1).drop_last() == events.take(i as int));
                assert(events.take(i + 1).last() == event@);
            }
            self.inventories.handle(event);
            self.cursors.inventories = event.id;
            i += 1;
        }
        assert(events.take(i as int) == events);
    }

    /// Delivers to the index of products the events above its cursor. A
    /// change of a price makes the commands that archive the items holding
    /// the product; a command that fails is passed over.
    pub fn run_carts_with_products(&mut self, decider: &DecisionMaker, store: &mut EventStore)
        requires
            old(store).wf(),
        ensures
            final(store).wf(),
            consistent(events_of(old(store)@)) ==> consistent(events_of(final(store)@)),
            final(self).carts_with_products@ == delivered(
                old(self).carts_with_products@,
                selected(
                    old(store)@,
                    carts_with_products_filters(),
                    old(self).cursors.carts_with_products,
                ),
                |t: Seq<CartsWithProductsRow>, p: PersistedView|
                    carts_with_products::projected(t, p.id, p.event),
            ),
            final(self).cursors == (Cursors {
                carts_with_products: cursor_after(
                    old(self).cursors.carts_with_products,
                    selected(
                        old(store)@,
                        carts_with_products_filters(),
                        old(self).cursors.carts_with_products,
                    ),
                ),
                ..old(self).cursors
            }),
            final(self).inventories == old(self).inventories,
            final(self).cart_items == old(self).cart_items,
            consistent(events_of(old(store)@)) && old(store).has_room(
                archival_count(
                    old(self).carts_with_products@,
                    selected(
                        old(store)@,
                        carts_with_products_filters(),
                        old(self).cursors.carts_with_products,
                    ),
                ) as int,
            ) ==> events_of(final(store)@) == archived_log(
                old(self).carts_with_products@,
                events_of(old(store)@),
                selected(
                    old(store)@,
                    carts_with_products_filters(),
                    old(self).cursors.carts_with_products,
                ),
            ),
    {
        let ghost first = last_id(store@);
        let ghost start_log = events_of(store@);
        let query = StreamQuery::new(StreamFilter::of(StreamName::Cart)).union(
            &StreamQuery::new(StreamFilter::of(StreamName::Pricing)),
        );
        assert(query@ =~= carts_with_products_filters());
        let batch = store.stream_after(&query, self.cursors.carts_with_products);
        let ghost step = |t: Seq<CartsWithProductsRow>, p: PersistedView|
            carts_with_products::projected(t, p.id, p.event);
        let ghost events = persisted_views(batch@);
        let ghost start = self.carts_with_products@;
        proof {
            lemma_selected(
                store@,
                carts_with_products_filters(),
                self.cursors.carts_with_products,
            );
        }
        let mut i: usize = 0;
        while i < batch.len()
            invariant
                i <= batch@.len(),
                store.wf(),
                consistent(events_of(old(store)@)) ==> consistent(events_of(store@)),
                first == last_id(old(store)@),
                start_log == events_of(old(store)@),
                start == old(self).carts_with_products@,
                last_id(store@) <= first + archival_count(start, events.take(i as int)),
                consistent(start_log) && first + archival_count(start, events) <= i64::MAX
                    ==> events_of(store@) == archived_log(start, start_log, events.take(i as int)),
                events == persisted_views(batch@),
                events == selected(
                    old(store)@,
                    carts_with_products_filters(),
                    old(self).cursors.carts_with_products,
                ),
                step == (|t: Seq<CartsWithProductsRow>, p: PersistedView|
                    carts_with_products::projected(t, p.id, p.event)),
                forall|k: int|
                    0 <= k < events.len() ==> admitted(
                        carts_with_products_filters(),
                        (#[trigger] events[k]).event,
                    ),
                self.carts_with_products@ == delivered(start, events.take(i as int), step),
                self.cursors == (Cursors {
                    carts_with_products: cursor_after(
                        old(self).cursors.carts_with_products,
                        events.take(i as int),
                    ),
                    ..old(self).cursors
                }),
                self.inventories == old(self).inventories,
                self.cart_items == old(self).cart_items,
            decreases batch@.len() - i,
        {
            let event = &batch[i];
            proof {
                assert(events[i as int] == event@);
                assert(admitted(carts_with_products_filters(), events[i as int].event));
                assert(events.take(i + 1).drop_last() == events.take(i as int));
                assert(events.take(i + 1).last() == event@);
            }
            proof {
                lemma_archival_count_grows(start, events, i + 1);
            }
            let commands = self.carts_with_products.handle(event);
            let _ = archive_items(decider, store, &commands);
            self.cursors.carts_with_products = event.id;
            i += 1;
        }
        assert(events.take(i as int) == events);
    }

    /// Delivers the submissions above the cursor to the handler that queues
    /// their publication. Where the queue refuses a task, the run stops and
    /// the cursor stays before the submission, so that it is delivered
    /// again.
    pub fn run_cart_submitted(&mut self, store: &EventStore, queue: &mut WorkQueue) -> (r: Result<
        (),
        QueueError,
    >)
        requires
            old(queue).wf(),
        ensures
            final(queue).wf(),
            final(self).cursors.cart_submitted >= old(self).cursors.cart_submitted,
            final(self).cursors.cart_items == old(self).cursors.cart_items,
            final(self).cursors.carts_with_products == old(self).cursors.carts_with_products,
            final(self).cursors.inventories == old(self).cursors.inventories,
            r is Ok ==> final(self).cursors == (Cursors {
                cart_submitted: cursor_after(
                    old(self).cursors.cart_submitted,
                    selected(store@, cart_submitted_filters(), old(self).cursors.cart_submitted),
                ),
                ..old(self).cursors
            }),
            final(self).cart_items == old(self).cart_items,
            final(self).carts_with_products == old(self).carts_with_products,
            final(self).inventories == old(self).inventories,
            submissions_delivered(
                old(queue)@,
                final(queue)@,
                old(self).cursors.cart_submitted,
                final(self).cursors.cart_submitted,
                store@,
                r is Ok,
            ),
    {
        let query = StreamQuery::new(StreamFilter::of(StreamName::Submitted));
        let batch = store.stream_after(&query, self.cursors.cart_submitted);
        let ghost events = persisted_views(batch@);
        let ghost mut stamps: Seq<Stamp> = Seq::empty();
        proof {
            lemma_selected(store@, cart_submitted_filters(), self.cursors.cart_submitted);
            assert(events.take(0).len() == 0);
        }
        let mut i: usize = 0;
        while i < batch.len()
            invariant
                i <= batch@.len(),
                queue.wf(),
                stamps.len() == i,
                queue@ == queued(old(queue)@, events.take(i as int), stamps),
                events == persisted_views(batch@),
                events == selected(
                    store@,
                    cart_submitted_filters(),
                    old(self).cursors.cart_submitted,
                ),
                forall|k: int|
                    0 <= k < events.len() ==> admitted(
                        cart_submitted_filters(),
                        (#[trigger] events[k]).event,
                    ) && events[k].id > old(self).cursors.cart_submitted,
                self.cursors == (Cursors {
                    cart_submitted: cursor_after(
                        old(self).cursors.cart_submitted,
                        events.take(i as int),
                    ),
                    ..old(self).cursors
                }),
                self.cursors.cart_submitted >= old(self).cursors.cart_submitted,
                self.cart_items == old(self).cart_items,
                self.carts_with_products == old(self).carts_with_products,
                self.inventories == old(self).inventories,
            decreases batch@.len() - i,
        {
            let event = &batch[i];
            proof {
                assert(events[i as int] == event@);
                assert(admitted(cart_submitted_filters(), events[i as int].event));
                assert(events.take(i + 1).last() == event@);
            }
            let ghost before = queue@;
            let ghost args = CartSubmittedEventHandler::task_args(event.id, event@.event);
            match self.cart_submitted.handle(queue, event) {
                Ok(_) => {},
                Err(error) => {
                    assert(queue@ == queued(old(queue)@, events.take(i as int), stamps));
                    return Err(error);
                },
            }
            proof {
                let stamp = if is_duplicate(before, args) {
                    Stamp { task_id: TaskId(0), now: 0, civil_now: 0 }
                } else {
                    let (task_id, now, civil_now) = choose|task_id: TaskId, now: i64, civil_now: i64|
                        queue@ == before.push(#[trigger] args.row(task_id, now, civil_now));
                    Stamp { task_id, now, civil_now }
                };
                assert(queue@ == pushed(before, args, stamp.task_id, stamp.now, stamp.civil_now));
                let next = stamps.push(stamp);
                assert(events.take(i + 1).drop_last() == events.take(i as int));
                assert(next.drop_last() == stamps);
                assert(queue@ == queued(old(queue)@, events.take(i + 1), next));
                stamps = next;
            }
            self.cursors.cart_submitted = event.id;
            i += 1;
        }
        assert(events.take(i as int) == events);
        assert(queue@ == queued(old(queue)@, events.take(events.len() as int), stamps));
        Ok(())
    }

    /// Runs every listener once.
    pub fn run(&mut self, decider: &DecisionMaker, store: &mut EventStore, queue: &mut WorkQueue)
        -> (r: Result<(), QueueError>)
        requires
            old(store).wf(),
            old(queue).wf(),
        ensures
            final(store).wf(),
            final(queue).wf(),
            consistent(events_of(old(store)@)) ==> consistent(events_of(final(store)@)),
            final(self).cart_items@ == delivered(
                old(self).cart_items@,
                selected(old(store)@, cart_items_filters(), old(self).cursors.cart_items),
                |t: CartItemsTables, p: PersistedView|
                    cart_items_from_db::projected(t, p.id, p.event),
            ),
            final(self).carts_with_products@ == delivered(
                old(self).carts_with_products@,
                selected(
                    old(store)@,
                    carts_with_products_filters(),
                    old(self).cursors.carts_with_products,
                ),
                |t: Seq<CartsWithProductsRow>, p: PersistedView|
                    carts_with_products::projected(t, p.id, p.event),
            ),
            final(self).inventories@ == delivered(
                old(self).inventories@,
                selected(final(store)@, inventories_filters(), old(self).cursors.inventories),
                |t: Seq<InventoryRow>, p: PersistedView| inventories::projected(t, p.id, p.event),
            ),
            final(self).cursors.cart_items == cursor_after(
                old(self).cursors.cart_items,
                selected(old(store)@, cart_items_filters(), old(self).cursors.cart_items),
            ),
            final(self).cursors.carts_with_products == cursor_after(
                old(self).cursors.carts_with_products,
                selected(
                    old(store)@,
                    carts_with_products_filters(),
                    old(self).cursors.carts_with_products,
                ),
            ),
            final(self).cursors.inventories == cursor_after(
                old(self).cursors.inventories,
                selected(final(store)@, inventories_filters(), old(self).cursors.inventories),
            ),
            r is Ok ==> final(self).cursors.cart_submitted == cursor_after(
                old(self).cursors.cart_submitted,
                selected(
                    final(store)@,
                    cart_submitted_filters(),
                    old(self).cursors.cart_submitted,
                ),
            ),
            submissions_delivered(
                old(queue)@,
                final(queue)@,
                old(self).cursors.cart_submitted,
                final(self).cursors.cart_submitted,
                final(store)@,
                r is Ok,
            ),
            consistent(events_of(old(store)@)) && old(store).has_room(
                archival_count(
                    old(self).carts_with_products@,
                    selected(
                        old(store)@,
                        carts_with_products_filters(),
                        old(self).cursors.carts_with_products,
                    ),
                ) as int,
            ) ==> events_of(final(store)@) == archived_log(
                old(self).carts_with_products@,
                events_of(old(store)@),
                selected(
                    old(store)@,
                    carts_with_products_filters(),
                    old(self).cursors.carts_with_products,
                ),
            ),
    {
        self.run_cart_items(store);
        self.run_carts_with_products(decider, store);
        self.run_inventories(store);
        self.run_cart_submitted(store, queue)
    }
}

/// The history of a cart among the events of the `Cart` stream of a log is
/// its history in the log.
pub proof fn lemma_cart_events_of_cart_stream(log: Seq<PersistedView>, cart_id: CartId)
    requires
        ordered(log),
    ensures
        cart_events(events_of(selected(log, cart_items_filters(), 0)), cart_id) == cart_events(
            events_of(log),
            cart_id,
        ),
    decreases log.len(),
{
    let filters = cart_items_filters();
    if log.len() == 0 {
        assert(events_of(selected(log, filters, 0)) =~= Seq::<EventView>::empty());
        assert(events_of(log) =~= Seq::<EventView>::empty());
    } else {
        let front = log.drop_last();
        let event = log.last().event;
        assert(ordered(front)) by {
            assert(forall|i: int| 0 <= i < front.len() ==> front[i] == log[i]);
        }
        lemma_cart_events_of_cart_stream(front, cart_id);
        assert(events_of(log).drop_last() =~= events_of(front));
        assert(events_of(log).last() == event);
        assert(log[log.len() - 1].id >= 1);
        assert(admitted(filters, event) <==> event.in_cart_stream()) by {
            if event.in_cart_stream() {
                assert(filters[0].admits(event));
            }
        }
        if event.in_cart_stream() {
            let taken = selected(front, filters, 0);
            assert(events_of(taken.push(log.last())) =~= events_of(taken).push(event));
            assert(events_of(taken).push(event).drop_last() == events_of(taken));
        }
    }
}

/// Delivering events to the tables of the cart items, step by step, is
/// projecting each event in order.
pub proof fn lemma_delivered_is_projected(tables: CartItemsTables, events: Seq<PersistedView>)
    ensures
        delivered(
            tables,
            events,
            |t: CartItemsTables, p: PersistedView| cart_items_from_db::projected(t, p.id, p.event),
        ) == cart_items_from_db::delivered_all(tables, events),
    decreases events.len(),
{
    if events.len() > 0 {
        lemma_delivered_is_projected(tables, events.drop_last());
    }
}

/// Replaying a log from cursor 0 gives the table of cart items, for a cart
/// whose history is tidy, exactly the items of the read model that is
/// folded from the events of the cart: the items that were added and not
/// since removed, archived or cleared, in the order in which they were
/// added. The cart is known to the table exactly when the log holds an
/// event of it.
pub proof fn lemma_replayed_table_is_the_read_model(log: Seq<PersistedView>, cart_id: CartId)
    requires
        ordered(log),
        cart_items_from_db::tidy(cart_history(log, cart_id)),
    ensures
        ({
            let tables = delivered(
                CartItemsTables { carts: Seq::empty(), rows: Seq::empty() },
                selected(log, cart_items_filters(), 0),
                |t: CartItemsTables, p: PersistedView|
                    cart_items_from_db::projected(t, p.id, p.event),
            );
            match folded(None, cart_history(log, cart_id)) {
                Ok(Some(model)) => cart_items_from_db::items_of(tables.rows, cart_id) == model.data
                    && tables.carts.contains(cart_id),
                Ok(None) => cart_items_from_db::items_of(tables.rows, cart_id) == Seq::<
                    CartItemView,
                >::empty() && !tables.carts.contains(cart_id),
                Err(_) => false,
            }
        }),
{
    let taken = selected(log, cart_items_filters(), 0);
    lemma_selected_ordered(log, cart_items_filters(), 0);
    lemma_cart_events_of_cart_stream(log, cart_id);
    crate::domain::decision::lemma_cart_query_selects(log, cart_id);
    lemma_delivered_is_projected(
        CartItemsTables { carts: Seq::empty(), rows: Seq::empty() },
        taken,
    );
    cart_items_from_db::lemma_table_holds_the_items_of_the_log(taken, cart_id);
}

} // verus!
