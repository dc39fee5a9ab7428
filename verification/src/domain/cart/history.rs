//! The history of a cart, and what holds of every history that decisions
//! can produce.
//!
//! The history of a cart is the events of the `Cart` stream that are
//! indexed by the cart, in log order. A history is in order when it can be
//! folded and the fold counts no more items than a cart may hold and no
//! fewer than it knows of. Every decision keeps the histories in order.

use vstd::prelude::*;

use super::add_item::{AddItemCommand, AddItemState, MAX_ITEMS};
use super::archive_item::{ArchiveItemCommand, ArchiveItemState};
use super::clear_cart::{ClearCartCommand, ClearCartState};
use super::errors::CartError;
use super::ids::{CartId, ItemId};
use super::remove_item::{RemoveItemCommand, RemoveItemState};
use super::state::{can_fold, fold, lemma_fold_concat, FoldState};
use super::submit_cart::{SubmitCartCommand, SubmitCartModel};
use crate::domain::events::EventView;
use crate::domain::helpers::id_map::{
    distinct_keys, index_of, inserted, lemma_changes, lemma_index_of, removed, value_of,
};

verus! {

/// Whether an event belongs to the history of a cart.
pub open spec fn of_cart(event: EventView, cart_id: CartId) -> bool {
    event.in_cart_stream() && event.cart_id() == Some(cart_id)
}

/// The history of a cart in a list of events.
pub open spec fn cart_events(events: Seq<EventView>, cart_id: CartId) -> Seq<EventView>
    decreases events.len(),
{
    if events.len() == 0 {
        Seq::empty()
    } else {
        let front = cart_events(events.drop_last(), cart_id);
        if of_cart(events.last(), cart_id) {
            front.push(events.last())
        } else {
            front
        }
    }
}

/// The history of a cart in a log that was appended to is its history in
/// the log followed by its history in what was appended.
pub proof fn lemma_cart_events_concat(log: Seq<EventView>, tail: Seq<EventView>, cart_id: CartId)
    ensures
        cart_events(log + tail, cart_id) == cart_events(log, cart_id) + cart_events(tail, cart_id),
    decreases tail.len(),
{
    if tail.len() == 0 {
        assert(log + tail == log);
        assert(cart_events(log, cart_id) + cart_events(tail, cart_id) =~= cart_events(
            log,
            cart_id,
        ));
    } else {
        assert((log + tail).drop_last() == log + tail.drop_last());
        assert((log + tail).last() == tail.last());
        lemma_cart_events_concat(log, tail.drop_last(), cart_id);
        assert(cart_events(log + tail, cart_id) =~= cart_events(log, cart_id) + cart_events(
            tail,
            cart_id,
        ));
    }
}

/// A list of events of one cart is the history of that cart and adds
/// nothing to the history of any other; events of no cart add nothing to
/// any history.
pub proof fn lemma_cart_events_of(events: Seq<EventView>, cart_id: CartId)
    ensures
        (forall|i: int| 0 <= i < events.len() ==> of_cart(#[trigger] events[i], cart_id))
            ==> cart_events(events, cart_id) == events,
        (forall|i: int| 0 <= i < events.len() ==> !of_cart(#[trigger] events[i], cart_id))
            ==> cart_events(events, cart_id) == Seq::<EventView>::empty(),
    decreases events.len(),
{
    if events.len() > 0 {
        let front = events.drop_last();
        lemma_cart_events_of(front, cart_id);
        assert(forall|i: int| 0 <= i < front.len() ==> front[i] == events[i]);
        if forall|i: int| 0 <= i < events.len() ==> of_cart(#[trigger] events[i], cart_id) {
            assert(of_cart(events[events.len() - 1], cart_id));
            assert(cart_events(events, cart_id) =~= events);
        }
        if forall|i: int| 0 <= i < events.len() ==> !of_cart(#[trigger] events[i], cart_id) {
            assert(!of_cart(events[events.len() - 1], cart_id));
        }
    }
}

/// The state after one more event.
pub proof fn lemma_fold_push<S: FoldState>(state: S, events: Seq<EventView>, event: EventView)
    ensures
        fold(state, events.push(event)) == fold(state, events).apply(event),
        can_fold(state, events.push(event)) <==> can_fold(state, events) && fold(
            state,
            events,
        ).can_apply(event),
{
    assert(events.push(event).drop_last() == events);
}

/// The fold of a cart counts no more items than a cart may hold and no
/// fewer than it knows of, and knows of no item twice.
pub open spec fn healthy(state: SubmitCartModel) -> bool {
    &&& distinct_keys(state.cart_items)
    &&& state.cart_items.len() <= state.item_count <= MAX_ITEMS
}

/// A history is in order: it can be folded, and its fold is healthy.
pub open spec fn in_order(cart_id: CartId, history: Seq<EventView>) -> bool {
    &&& can_fold(SubmitCartModel::initial(cart_id), history)
    &&& healthy(fold(SubmitCartModel::initial(cart_id), history))
}

/// The histories of all carts in a list of events are in order.
pub open spec fn consistent(events: Seq<EventView>) -> bool {
    forall|cart_id: CartId| in_order(cart_id, #[trigger] cart_events(events, cart_id))
}

/// The number of items that the history of a cart counts.
pub open spec fn item_count(events: Seq<EventView>, cart_id: CartId) -> int {
    fold(SubmitCartModel::initial(cart_id), cart_events(events, cart_id)).item_count as int
}

/// Whether the history of a cart ends in its submission.
pub open spec fn submitted(events: Seq<EventView>, cart_id: CartId) -> bool {
    fold(SubmitCartModel::initial(cart_id), cart_events(events, cart_id)).submitted
}

/// The empty log is consistent.
pub proof fn lemma_empty_consistent()
    ensures
        consistent(Seq::<EventView>::empty()),
{
    assert forall|cart_id: CartId|
        in_order(cart_id, #[trigger] cart_events(Seq::<EventView>::empty(), cart_id)) by {
        assert(cart_events(Seq::<EventView>::empty(), cart_id) =~= Seq::<EventView>::empty());
    }
}

/// A fold that can be made never knows of an item twice.
pub proof fn lemma_items_distinct(cart_id: CartId, history: Seq<EventView>)
    requires
        can_fold(SubmitCartModel::initial(cart_id), history),
    ensures
        distinct_keys(fold(SubmitCartModel::initial(cart_id), history).cart_items),
    decreases history.len(),
{
    if history.len() > 0 {
        let front = history.drop_last();
        lemma_items_distinct(cart_id, front);
        let before = fold(SubmitCartModel::initial(cart_id), front);
        match history.last() {
            EventView::CartItemAdded { item_id, product_id, .. } => {
                lemma_changes(before.cart_items, item_id.0, product_id, item_id.0);
            },
            EventView::CartItemRemoved { item_id, .. } => {
                lemma_changes(
                    before.cart_items,
                    item_id.0,
                    value_of(before.cart_items, item_id.0).unwrap(),
                    item_id.0,
                );
            },
            EventView::ItemArchivedEvent { item_id, .. } => {
                lemma_changes(
                    before.cart_items,
                    item_id.0,
                    value_of(before.cart_items, item_id.0).unwrap(),
                    item_id.0,
                );
            },
            _ => {},
        }
    }
}

/// The state that the decision to add an item reads agrees with the full
/// fold of the cart.
pub proof fn lemma_add_item_agrees(cart_id: CartId, history: Seq<EventView>)
    requires
        can_fold(SubmitCartModel::initial(cart_id), history),
    ensures
        can_fold(AddItemState::initial(cart_id), history),
        fold(AddItemState::initial(cart_id), history) == (AddItemState {
            cart_id,
            cart_exists: fold(SubmitCartModel::initial(cart_id), history).cart_exists,
            item_count: fold(SubmitCartModel::initial(cart_id), history).item_count,
            submitted: fold(SubmitCartModel::initial(cart_id), history).submitted,
        }),
    decreases history.len(),
{
    if history.len() > 0 {
        lemma_add_item_agrees(cart_id, history.drop_last());
    }
}

/// The state that the decision to clear a cart reads agrees with the full
/// fold of the cart.
pub proof fn lemma_clear_cart_agrees(cart_id: CartId, history: Seq<EventView>)
    ensures
        can_fold(ClearCartState::initial(cart_id), history),
        fold(ClearCartState::initial(cart_id), history) == (ClearCartState {
            cart_id,
            cart_exists: fold(SubmitCartModel::initial(cart_id), history).cart_exists,
            submitted: fold(SubmitCartModel::initial(cart_id), history).submitted,
        }),
    decreases history.len(),
{
    if history.len() > 0 {
        lemma_clear_cart_agrees(cart_id, history.drop_last());
    }
}

/// The state that the decision to remove an item reads agrees with the full
/// fold of the cart: the item exists exactly when the cart knows of it.
pub proof fn lemma_remove_item_agrees(cart_id: CartId, item_id: ItemId, history: Seq<EventView>)
    requires
        can_fold(SubmitCartModel::initial(cart_id), history),
    ensures
        can_fold(RemoveItemState::initial(cart_id, item_id), history),
        fold(RemoveItemState::initial(cart_id, item_id), history) == (RemoveItemState {
            cart_id,
            item_id,
            cart_exists: fold(SubmitCartModel::initial(cart_id), history).cart_exists,
            item_exists: value_of(
                fold(SubmitCartModel::initial(cart_id), history).cart_items,
                item_id.0,
            ) is Some,
            submitted: fold(SubmitCartModel::initial(cart_id), history).submitted,
        }),
    decreases history.len(),
{
    if history.len() > 0 {
        let front = history.drop_last();
        lemma_remove_item_agrees(cart_id, item_id, front);
        lemma_items_distinct(cart_id, front);
        let before = fold(SubmitCartModel::initial(cart_id), front);
        match history.last() {
            EventView::CartItemAdded { item_id: added, product_id, .. } => {
                lemma_changes(before.cart_items, added.0, product_id, item_id.0);
            },
            EventView::CartItemRemoved { item_id: gone, .. } => {
                lemma_changes(
                    before.cart_items,
                    gone.0,
                    value_of(before.cart_items, gone.0).unwrap(),
                    item_id.0,
                );
            },
            EventView::ItemArchivedEvent { item_id: gone, .. } => {
                lemma_changes(
                    before.cart_items,
                    gone.0,
                    value_of(before.cart_items, gone.0).unwrap(),
                    item_id.0,
                );
            },
            EventView::CartCleared { .. } => {
                assert(index_of(Seq::<(u128, super::ids::ProductId)>::empty(), item_id.0) is None);
            },
            _ => {},
        }
    } else {
        assert(index_of(Seq::<(u128, super::ids::ProductId)>::empty(), item_id.0) is None);
    }
}

/// The state that the decision to archive an item reads agrees with the
/// full fold of the cart.
pub proof fn lemma_archive_item_agrees(cart_id: CartId, item_id: ItemId, history: Seq<EventView>)
    requires
        can_fold(SubmitCartModel::initial(cart_id), history),
    ensures
        can_fold(ArchiveItemState::initial(cart_id, item_id), history),
        fold(ArchiveItemState::initial(cart_id, item_id), history) == (ArchiveItemState {
            cart_id,
            item_id,
            cart_exists: fold(SubmitCartModel::initial(cart_id), history).cart_exists,
            item_exists: value_of(
                fold(SubmitCartModel::initial(cart_id), history).cart_items,
                item_id.0,
            ) is Some,
            submitted: fold(SubmitCartModel::initial(cart_id), history).submitted,
        }),
    decreases history.len(),
{
    if history.len() > 0 {
        let front = history.drop_last();
        lemma_archive_item_agrees(cart_id, item_id, front);
        lemma_items_distinct(cart_id, front);
        let before = fold(SubmitCartModel::initial(cart_id), front);
        match history.last() {
            EventView::CartItemAdded { item_id: added, product_id, .. } => {
                lemma_changes(before.cart_items, added.0, product_id, item_id.0);
            },
            EventView::CartItemRemoved { item_id: gone, .. } => {
                lemma_changes(
                    before.cart_items,
                    gone.0,
                    value_of(before.cart_items, gone.0).unwrap(),
                    item_id.0,
                );
            },
            EventView::ItemArchivedEvent { item_id: gone, .. } => {
                lemma_changes(
                    before.cart_items,
                    gone.0,
                    value_of(before.cart_items, gone.0).unwrap(),
                    item_id.0,
                );
            },
            EventView::CartCleared { .. } => {
                assert(index_of(Seq::<(u128, super::ids::ProductId)>::empty(), item_id.0) is None);
            },
            _ => {},
        }
    } else {
        assert(index_of(Seq::<(u128, super::ids::ProductId)>::empty(), item_id.0) is None);
    }
}

/// What a decision to add an item appends keeps the history of its cart in
/// order.
pub proof fn lemma_add_item_keeps_order(command: AddItemCommand, history: Seq<EventView>)
    requires
        in_order(command.cart_id, history),
        command.decided(fold(AddItemState::initial(command.cart_id), history)) is Ok,
    ensures
        in_order(
            command.cart_id,
            history + command.decided(
                fold(AddItemState::initial(command.cart_id), history),
            )->Ok_0,
        ),
{
    let cart_id = command.cart_id;
    lemma_add_item_agrees(cart_id, history);
    let start = SubmitCartModel::initial(cart_id);
    let before = fold(start, history);
    let created = EventView::CartCreated { cart_id };
    let added = command.item_added();
    let decided = command.decided(fold(AddItemState::initial(cart_id), history))->Ok_0;
    lemma_changes(before.cart_items, command.item_id.0, command.product_id, command.item_id.0);
    lemma_index_of(before.cart_items, command.item_id.0);
    if !before.cart_exists {
        lemma_fold_push(start, history, created);
        lemma_fold_push(start, history.push(created), added);
        assert(history + decided =~= history.push(created).push(added));
    } else {
        lemma_fold_push(start, history, added);
        assert(history + decided =~= history.push(added));
    }
}

/// What a decision to remove an item appends keeps the history of its cart
/// in order.
pub proof fn lemma_remove_item_keeps_order(command: RemoveItemCommand, history: Seq<EventView>)
    requires
        in_order(command.cart_id, history),
        command.decided(
            fold(RemoveItemState::initial(command.cart_id, command.item_id), history),
        ) is Ok,
    ensures
        in_order(
            command.cart_id,
            history + command.decided(
                fold(RemoveItemState::initial(command.cart_id, command.item_id), history),
            )->Ok_0,
        ),
{
    let cart_id = command.cart_id;
    lemma_remove_item_agrees(cart_id, command.item_id, history);
    let start = SubmitCartModel::initial(cart_id);
    let before = fold(start, history);
    let event = EventView::CartItemRemoved { cart_id, item_id: command.item_id };
    let decided = command.decided(
        fold(RemoveItemState::initial(cart_id, command.item_id), history),
    )->Ok_0;
    lemma_index_of(before.cart_items, command.item_id.0);
    lemma_changes(
        before.cart_items,
        command.item_id.0,
        value_of(before.cart_items, command.item_id.0).unwrap(),
        command.item_id.0,
    );
    lemma_fold_push(start, history, event);
    assert(history + decided =~= history.push(event));
}

/// What a decision to archive an item appends keeps the history of its
/// cart in order.
pub proof fn lemma_archive_item_keeps_order(command: ArchiveItemCommand, history: Seq<EventView>)
    requires
        in_order(command.cart_id, history),
        command.decided(
            fold(ArchiveItemState::initial(command.cart_id, command.item_id), history),
        ) is Ok,
    ensures
        in_order(
            command.cart_id,
            history + command.decided(
                fold(ArchiveItemState::initial(command.cart_id, command.item_id), history),
            )->Ok_0,
        ),
{
    let cart_id = command.cart_id;
    lemma_archive_item_agrees(cart_id, command.item_id, history);
    let start = SubmitCartModel::initial(cart_id);
    let before = fold(start, history);
    let decided = command.decided(
        fold(ArchiveItemState::initial(cart_id, command.item_id), history),
    )->Ok_0;
    if decided.len() == 0 {
        assert(history + decided =~= history);
    } else {
        let event = EventView::ItemArchivedEvent {
            cart_id,
            item_id: command.item_id,
            price_changed_event_id: command.price_changed_event_id,
        };
        lemma_index_of(before.cart_items, command.item_id.0);
        lemma_changes(
            before.cart_items,
            command.item_id.0,
            value_of(before.cart_items, command.item_id.0).unwrap(),
            command.item_id.0,
        );
        lemma_fold_push(start, history, event);
        assert(history + decided =~= history.push(event));
    }
}

/// What a decision to clear a cart appends keeps the history of the cart in
/// order.
pub proof fn lemma_clear_cart_keeps_order(command: ClearCartCommand, history: Seq<EventView>)
    requires
        in_order(command.cart_id, history),
        command.decided(fold(ClearCartState::initial(command.cart_id), history)) is Ok,
    ensures
        in_order(
            command.cart_id,
            history + command.decided(
                fold(ClearCartState::initial(command.cart_id), history),
            )->Ok_0,
        ),
{
    let cart_id = command.cart_id;
    let start = SubmitCartModel::initial(cart_id);
    let event = EventView::CartCleared { cart_id };
    let decided = command.decided(fold(ClearCartState::initial(cart_id), history))->Ok_0;
    lemma_fold_push(start, history, event);
    assert(history + decided =~= history.push(event));
}

/// What a decision to submit a cart appends keeps the history of the cart
/// in order.
pub proof fn lemma_submit_cart_keeps_order(command: SubmitCartCommand, history: Seq<EventView>)
    requires
        in_order(command.cart_id, history),
        command.decided(fold(SubmitCartModel::initial(command.cart_id), history)) is Ok,
    ensures
        in_order(
            command.cart_id,
            history + command.decided(
                fold(SubmitCartModel::initial(command.cart_id), history),
            )->Ok_0,
        ),
{
    let cart_id = command.cart_id;
    let start = SubmitCartModel::initial(cart_id);
    let decided = command.decided(fold(start, history))->Ok_0;
    lemma_fold_push(start, history, decided[0]);
    assert(history + decided =~= history.push(decided[0]));
}

/// Appending events that all belong to one cart, and keep the history of
/// that cart in order, keeps a log consistent.
pub proof fn lemma_append_keeps_consistent(
    log: Seq<EventView>,
    tail: Seq<EventView>,
    cart_id: CartId,
)
    requires
        consistent(log),
        forall|i: int| 0 <= i < tail.len() ==> of_cart(#[trigger] tail[i], cart_id),
        in_order(cart_id, cart_events(log, cart_id) + tail),
    ensures
        consistent(log + tail),
{
    assert forall|other: CartId| in_order(other, #[trigger] cart_events(log + tail, other)) by {
        lemma_cart_events_concat(log, tail, other);
        lemma_cart_events_of(tail, other);
        if other != cart_id {
            assert(forall|i: int| 0 <= i < tail.len() ==> !of_cart(#[trigger] tail[i], other));
            assert(cart_events(log, other) + Seq::<EventView>::empty() =~= cart_events(
                log,
                other,
            ));
            assert(in_order(other, cart_events(log, other)));
        }
    }
}

/// Appending events that belong to no cart keeps a log consistent.
pub proof fn lemma_append_outside_carts(log: Seq<EventView>, tail: Seq<EventView>)
    requires
        consistent(log),
        forall|i: int| 0 <= i < tail.len() ==> !(#[trigger] tail[i]).in_cart_stream(),
    ensures
        consistent(log + tail),
        forall|cart_id: CartId| cart_events(log + tail, cart_id) == cart_events(log, cart_id),
{
    assert forall|other: CartId| #[trigger]
        cart_events(log + tail, other) == cart_events(log, other) by {
        lemma_cart_events_concat(log, tail, other);
        lemma_cart_events_of(tail, other);
        assert(forall|i: int| 0 <= i < tail.len() ==> !of_cart(#[trigger] tail[i], other));
        assert(cart_events(log, other) + Seq::<EventView>::empty() =~= cart_events(log, other));
    }
    assert forall|other: CartId| in_order(other, #[trigger] cart_events(log + tail, other)) by {
        assert(in_order(other, cart_events(log, other)));
    }
}

} // verus!
