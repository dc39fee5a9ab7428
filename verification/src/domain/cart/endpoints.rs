//! What the web server does for each request, once the request has been
//! read: the checks on the identifiers, the command or the query, and the
//! answer.

use vstd::prelude::*;

use super::add_item::{AddItemCommand, AddItemPayload, AddItemState};
use super::cart_items::{
    cart_history, cart_items_read_model, folded, CartItemsReadModel, CartItemsView,
};
use super::cart_items_from_db::{items_of, prices_of, CartItemsReadModelProjection};
use super::carts_with_products::{
    found_by_product, CartsWithProductsReadModel, CartsWithProductsReadModelProjection,
};
use super::change_price::{ChangePriceCommand, ChangePricePayload};
use super::clear_cart::ClearCartCommand;
use super::errors::CartError;
use super::history::{cart_events, consistent};
use super::ids::{uuid_text, uuid_version_number, CartId, ItemId, ProductId};
use super::inventories::{found, InventoriesReadModel, InventoriesReadModelProjection};
use super::remove_item::{RemoveItemCommand, RemoveItemPayload};
use super::state::{can_fold, fold};
use super::submit_cart::{SubmitCartCommand, SubmitCartPayload};
use crate::domain::decision::{Command, DecisionError, DecisionMaker};
use crate::domain::event_store::{
    appended, events_of, last_id, lemma_events_of_appended, lemma_last_id_appended,
    persisted_views, EventStore, PersistedEvent, PersistedView,
};
use crate::domain::events::EventView;
use crate::domain::money::sum_of;
use crate::domain::helpers::device_fingerprint_calculator::calculate_device_fingerprint;
use crate::infra::ClientError;

verus! {

/// The id of the last of the events that a command produced; a command that
/// produced none is an internal failure, described by `context`.
pub fn last_event_id(events: &Vec<PersistedEvent>, context: &str) -> (r: Result<i64, ClientError>)
    ensures
        match r {
            Ok(id) => events@.len() > 0 && id == events@.last().id,
            Err(error) => events@.len() == 0 && (error matches ClientError::Internal(message)
                && message@ == context@),
        },
{
    let n = events.len();
    if n == 0 {
        Err(ClientError::Internal(context.to_owned()))
    } else {
        Ok(events[n - 1].id)
    }
}

/// The last of the ids of the events that a command produced, in the order
/// in which they were appended; a command that produced none is an internal
/// failure, described by `context`.
pub fn last_of_ids(ids: &Vec<i64>, context: &str) -> (r: Result<i64, ClientError>)
    ensures
        match r {
            Ok(id) => ids@.len() > 0 && id == ids@.last(),
            Err(error) => ids@.len() == 0 && (error matches ClientError::Internal(message)
                && message@ == context@),
        },
{
    let n = ids.len();
    if n == 0 {
        Err(ClientError::Internal(context.to_owned()))
    } else {
        Ok(ids[n - 1])
    }
}

/// The message that refuses an identifier that is not a version 7 UUID.
pub open spec fn incompatible_message(bits: u128) -> Seq<char> {
    "Uuid "@ + uuid_text(bits) + " is not compatible. Version 7 Uuid is required."@
}

/// The message that refuses a request whose path names another cart than
/// its payload.
pub open spec fn cart_mismatch_message() -> Seq<char> {
    "Path CartId does not match payload CartId."@
}

/// The message that refuses a request whose path names another product
/// than its payload.
pub open spec fn product_mismatch_message() -> Seq<char> {
    "Path PrpductId does not match payload ProductId."@
}

/// The message that describes, in the logs, items that cannot be read.
pub open spec fn unreadable_message() -> Seq<char> {
    "The items of the cart cannot be read."@
}

/// Whether `r` and `after` are the answer and the log when a command is
/// made for a request on the log `before`.
///
/// The request succeeds exactly when the command can be decided, is
/// accepted with at least one event, and the log has ids left: the events
/// are appended, nothing before them changes, and the answer is the id of
/// the last of them. A rejection by a rule is answered with that rule. A
/// command that cannot be decided, or a log without ids left, is a failure
/// of the storage. A command that is accepted with no event is an internal
/// failure, described by `context`. In every failure the log stays as it
/// is.
pub open spec fn answered(
    command: Command,
    before: Seq<PersistedView>,
    after: Seq<PersistedView>,
    r: Result<i64, ClientError>,
    context: Seq<char>,
) -> bool {
    let log = events_of(before);
    match r {
        Ok(id) => {
            &&& command.decidable(log)
            &&& command.decided(log) matches Ok(events)
            &&& events.len() > 0
            &&& last_id(before) + events.len() <= i64::MAX
            &&& after == appended(before, events)
            &&& id == last_id(before) + events.len()
        },
        Err(ClientError::Decision(DecisionError::Domain(error))) => {
            &&& command.foldable(log)
            &&& command.decided(log) == Err::<Seq<EventView>, CartError>(error)
            &&& after == before
        },
        Err(ClientError::Decision(DecisionError::StateStore(_))) => {
            &&& !command.decidable(log)
            &&& after == before
        },
        Err(ClientError::Decision(DecisionError::EventStore(_))) => {
            &&& command.decidable(log)
            &&& command.decided(log) matches Ok(events)
            &&& last_id(before) + events.len() > i64::MAX
            &&& after == before
        },
        Err(ClientError::Internal(message)) => {
            &&& command.decidable(log)
            &&& command.decided(log) == Ok::<Seq<EventView>, CartError>(Seq::empty())
            &&& message@ == context
            &&& after == before
        },
        Err(_) => false,
    }
}

/// The id in the answer to a request, or its failure.
pub open spec fn id_answered(r: Result<(u128, i64), ClientError>) -> Result<i64, ClientError> {
    match r {
        Ok(answer) => Ok(answer.1),
        Err(error) => Err(error),
    }
}

/// Makes a command for a request and answers with the id of the last event
/// it produced.
fn answer(decider: &DecisionMaker, store: &mut EventStore, command: Command, context: &str) -> (r:
    Result<i64, ClientError>)
    requires
        old(store).wf(),
    ensures
        final(store).wf(),
        consistent(events_of(old(store)@)) ==> consistent(events_of(final(store)@)),
        answered(command, old(store)@, final(store)@, r, context@),
{
    let ghost before = store@;
    match decider.make(store, command) {
        Err(error) => Err(ClientError::Decision(error)),
        Ok(events) => {
            proof {
                let decided = command.decided(events_of(before))->Ok_0;
                let added = persisted_views(events@);
                lemma_events_of_appended(before, decided);
                lemma_last_id_appended(before, decided);
                assert(store@.len() == before.len() + added.len());
                assert(added.len() == decided.len()) by {
                    assert(appended(before, decided).len() == before.len() + decided.len());
                }
                if added.len() > 0 {
                    assert(store@.last() == added.last());
                    assert(added.last() == events@.last()@);
                }
            }
            last_event_id(&events, context)
        },
    }
}

/// The command that a request to add an item asks for. The cart named by
/// the path must be the cart of the payload, and the identifiers of the
/// payload version 7 UUIDs. The command is given a new fingerprint.
pub fn add_item_request(cart_id: u128, payload: AddItemPayload) -> (r: Result<
    AddItemCommand,
    ClientError,
>)
    ensures
        if cart_id != payload.cart_id {
            r matches Err(ClientError::Payload(message)) && message@ == cart_mismatch_message()
        } else {
            match AddItemCommand::first_incompatible(payload) {
                Some(bits) => r matches Err(ClientError::Payload(message)) && message@
                    == incompatible_message(bits),
                None => r matches Ok(command) && command.asked_by(payload),
            }
        },
{
    if cart_id != payload.cart_id {
        return Err(ClientError::Payload("Path CartId does not match payload CartId.".to_owned()));
    }
    let mut decision = match AddItemCommand::try_from(payload) {
        Ok(decision) => decision,
        Err(error) => {
            return Err(error);
        },
    };
    decision.fingerprint = calculate_device_fingerprint();
    Ok(decision)
}

/// The command that a request to remove an item asks for.
pub fn remove_item_request(cart_uuid: u128, payload: RemoveItemPayload) -> (r: Result<
    RemoveItemCommand,
    ClientError,
>)
    ensures
        if cart_uuid != payload.cart_id {
            r matches Err(ClientError::Payload(message)) && message@ == cart_mismatch_message()
        } else {
            match RemoveItemCommand::first_incompatible(payload) {
                Some(bits) => r matches Err(ClientError::Payload(message)) && message@
                    == incompatible_message(bits),
                None => r matches Ok(command) && command == (RemoveItemCommand {
                    cart_id: CartId(payload.cart_id),
                    item_id: ItemId(payload.item_id),
                }),
            }
        },
{
    if cart_uuid != payload.cart_id {
        return Err(ClientError::Payload("Path CartId does not match payload CartId.".to_owned()));
    }
    RemoveItemCommand::try_from(payload)
}

/// The command that a request to submit a cart asks for.
pub fn submit_cart_request(cart_id: u128, payload: SubmitCartPayload) -> (r: Result<
    SubmitCartCommand,
    ClientError,
>)
    ensures
        if cart_id != payload.cart_id {
            r matches Err(ClientError::Payload(message)) && message@ == cart_mismatch_message()
        } else if uuid_version_number(cart_id) != 7 {
            r matches Err(ClientError::Payload(message)) && message@ == incompatible_message(
                cart_id,
            )
        } else {
            r matches Ok(command) && command == (SubmitCartCommand { cart_id: CartId(cart_id) })
        },
{
    if cart_id != payload.cart_id {
        return Err(ClientError::Payload("Path CartId does not match payload CartId.".to_owned()));
    }
    SubmitCartCommand::try_from(payload)
}

/// The command that a request to change a price asks for.
pub fn change_price_request(product_id: u128, payload: ChangePricePayload) -> (r: Result<
    ChangePriceCommand,
    ClientError,
>)
    ensures
        if product_id != payload.product_id {
            r matches Err(ClientError::Payload(message)) && message@ == product_mismatch_message()
        } else if uuid_version_number(product_id) != 7 {
            r matches Err(ClientError::Payload(message)) && message@ == incompatible_message(
                product_id,
            )
        } else {
            r matches Ok(command) && command == (ChangePriceCommand {
                product_id: ProductId(product_id),
                old_price: payload.old_price,
                new_price: payload.new_price,
            })
        },
{
    if product_id != payload.product_id {
        return Err(
            ClientError::Payload("Path PrpductId does not match payload ProductId.".to_owned()),
        );
    }
    ChangePriceCommand::try_from(payload)
}

/// The command that a request to clear a cart asks for.
pub fn clear_cart_request(cart_uuid: u128) -> (r: Result<ClearCartCommand, ClientError>)
    ensures
        if uuid_version_number(cart_uuid) != 7 {
            r matches Err(ClientError::Payload(message)) && message@ == incompatible_message(
                cart_uuid,
            )
        } else {
            r matches Ok(command) && command == (ClearCartCommand { cart_id: CartId(cart_uuid) })
        },
{
    match CartId::try_from(cart_uuid) {
        Ok(cart_id) => Ok(ClearCartCommand { cart_id }),
        Err(refused) => Err(ClientError::from_uuid_not_compatible(refused)),
    }
}

/// Adds an item to a cart.
///
/// A request whose path names another cart than its payload, or whose
/// payload holds an identifier that is not a version 7 UUID, is refused and
/// the log stays as it is. Any other request is decided on the state of the
/// cart: it succeeds exactly when the state can be folded, the cart is
/// neither submitted nor full, and the log has ids left for the one or two
/// events of the command, which is given a new fingerprint. The events are
/// appended, nothing before them changes, and the answer is the cart and
/// the id of the last event.
pub fn add_item_endpoint(
    decider: &DecisionMaker,
    store: &mut EventStore,
    cart_id: u128,
    payload: AddItemPayload,
) -> (r: Result<(u128, i64), ClientError>)
    requires
        old(store).wf(),
    ensures
        final(store).wf(),
        consistent(events_of(old(store)@)) ==> consistent(events_of(final(store)@)),
        ({
            let cart = CartId(payload.cart_id);
            let history = cart_events(events_of(old(store)@), cart);
            let foldable = can_fold(AddItemState::initial(cart), history);
            let state = fold(AddItemState::initial(cart), history);
            let needed: int = if state.cart_exists {
                1
            } else {
                2
            };
            if cart_id != payload.cart_id {
                &&& r matches Err(ClientError::Payload(message))
                &&& message@ == cart_mismatch_message()
                &&& final(store)@ == old(store)@
            } else {
                match AddItemCommand::first_incompatible(payload) {
                    Some(bits) => {
                        &&& r matches Err(ClientError::Payload(message))
                        &&& message@ == incompatible_message(bits)
                        &&& final(store)@ == old(store)@
                    },
                    None => match r {
                        Ok(answer) => {
                            &&& foldable
                            &&& AddItemCommand::rejection(state) is None
                            &&& old(store).has_room(needed)
                            &&& answer.0 == cart_id
                            &&& answer.1 == last_id(old(store)@) + needed
                            &&& exists|command: AddItemCommand|
                                command.asked_by(payload) && final(store)@ == #[trigger] appended(
                                    old(store)@,
                                    command.decided(state)->Ok_0,
                                )
                        },
                        Err(ClientError::Decision(DecisionError::Domain(error))) => {
                            &&& foldable
                            &&& AddItemCommand::rejection(state) == Some(error)
                            &&& final(store)@ == old(store)@
                        },
                        Err(ClientError::Decision(DecisionError::StateStore(_))) => {
                            &&& !foldable
                            &&& final(store)@ == old(store)@
                        },
                        Err(ClientError::Decision(DecisionError::EventStore(_))) => {
                            &&& foldable
                            &&& AddItemCommand::rejection(state) is None
                            &&& !old(store).has_room(needed)
                            &&& final(store)@ == old(store)@
                        },
                        Err(_) => false,
                    },
                }
            }
        }),
{
    let decision = match add_item_request(cart_id, payload) {
        Ok(decision) => decision,
        Err(error) => {
            return Err(error);
        },
    };
    let ghost command = decision;
    proof {
        let state = fold(
            AddItemState::initial(command.cart_id),
            cart_events(events_of(store@), command.cart_id),
        );
        assert(Command::AddItem(command).decided(events_of(store@)) == command.decided(state));
        if AddItemCommand::rejection(state) is None {
            if state.cart_exists {
                assert(command.decided(state)->Ok_0.len() == 1);
            } else {
                assert(command.decided(state)->Ok_0.len() == 2);
            }
        }
    }
    let answered = answer(
        decider,
        store,
        Command::AddItem(decision),
        "No event returned for AddItemCommand!",
    );
    match answered {
        Ok(last_event_id) => {
            proof {
                let state = fold(
                    AddItemState::initial(command.cart_id),
                    cart_events(events_of(old(store)@), command.cart_id),
                );
                assert(store@ == appended(old(store)@, command.decided(state)->Ok_0));
            }
            Ok((cart_id, last_event_id))
        },
        Err(error) => Err(error),
    }
}

/// Removes an item from a cart.
///
/// A request whose path names another cart than its payload, or whose
/// payload holds an identifier that is not a version 7 UUID, is refused and
/// the log stays as it is. For any other request the command is made, and
/// the answer is the cart and the id of the event appended.
pub fn remove_item_endpoint(
    decider: &DecisionMaker,
    store: &mut EventStore,
    cart_uuid: u128,
    payload: RemoveItemPayload,
) -> (r: Result<(u128, i64), ClientError>)
    requires
        old(store).wf(),
    ensures
        final(store).wf(),
        consistent(events_of(old(store)@)) ==> consistent(events_of(final(store)@)),
        if cart_uuid != payload.cart_id {
            &&& r matches Err(ClientError::Payload(message))
            &&& message@ == cart_mismatch_message()
            &&& final(store)@ == old(store)@
        } else {
            match RemoveItemCommand::first_incompatible(payload) {
                Some(bits) => {
                    &&& r matches Err(ClientError::Payload(message))
                    &&& message@ == incompatible_message(bits)
                    &&& final(store)@ == old(store)@
                },
                None => {
                    &&& answered(
                        Command::RemoveItem(
                            RemoveItemCommand {
                                cart_id: CartId(payload.cart_id),
                                item_id: ItemId(payload.item_id),
                            },
                        ),
                        old(store)@,
                        final(store)@,
                        id_answered(r),
                        "No event returned for RemoveItemCommand!"@,
                    )
                    &&& r matches Ok(answer) ==> answer.0 == cart_uuid
                },
            }
        },
{
    let decision = match remove_item_request(cart_uuid, payload) {
        Ok(decision) => decision,
        Err(error) => {
            return Err(error);
        },
    };
    match answer(
        decider,
        store,
        Command::RemoveItem(decision),
        "No event returned for RemoveItemCommand!",
    ) {
        Ok(last_event_id) => Ok((cart_uuid, last_event_id)),
        Err(error) => Err(error),
    }
}

/// Clears a cart.
///
/// A request for a cart that is not named by a version 7 UUID is refused
/// and the log stays as it is. For any other request the command is made,
/// and the answer is the cart and the id of the event appended.
pub fn clear_cart_endpoint(decider: &DecisionMaker, store: &mut EventStore, cart_uuid: u128) -> (r:
    Result<(u128, i64), ClientError>)
    requires
        old(store).wf(),
    ensures
        final(store).wf(),
        consistent(events_of(old(store)@)) ==> consistent(events_of(final(store)@)),
        if uuid_version_number(cart_uuid) != 7 {
            &&& r matches Err(ClientError::Payload(message))
            &&& message@ == incompatible_message(cart_uuid)
            &&& final(store)@ == old(store)@
        } else {
            &&& answered(
                Command::ClearCart(ClearCartCommand { cart_id: CartId(cart_uuid) }),
                old(store)@,
                final(store)@,
                id_answered(r),
                "No event returned for ClearCartCommand!"@,
            )
            &&& r matches Ok(answer) ==> answer.0 == cart_uuid
        },
{
    let decision = match clear_cart_request(cart_uuid) {
        Ok(decision) => decision,
        Err(error) => {
            return Err(error);
        },
    };
    match answer(
        decider,
        store,
        Command::ClearCart(decision),
        "No event returned for ClearCartCommand!",
    ) {
        Ok(last_event_id) => Ok((cart_uuid, last_event_id)),
        Err(error) => Err(error),
    }
}

/// Submits a cart.
///
/// A request whose path names another cart than its payload, or whose cart
/// is not named by a version 7 UUID, is refused and the log stays as it is.
/// For any other request the command is made, and the answer is the cart
/// and the id of the event appended.
pub fn submit_cart_endpoint(
    decider: &DecisionMaker,
    store: &mut EventStore,
    cart_id: u128,
    payload: SubmitCartPayload,
) -> (r: Result<(u128, i64), ClientError>)
    requires
        old(store).wf(),
    ensures
        final(store).wf(),
        consistent(events_of(old(store)@)) ==> consistent(events_of(final(store)@)),
        if cart_id != payload.cart_id {
            &&& r matches Err(ClientError::Payload(message))
            &&& message@ == cart_mismatch_message()
            &&& final(store)@ == old(store)@
        } else if uuid_version_number(cart_id) != 7 {
            &&& r matches Err(ClientError::Payload(message))
            &&& message@ == incompatible_message(cart_id)
            &&& final(store)@ == old(store)@
        } else {
            &&& answered(
                Command::SubmitCart(SubmitCartCommand { cart_id: CartId(cart_id) }),
                old(store)@,
                final(store)@,
                id_answered(r),
                "No event returned for SubmitCartCommand!"@,
            )
            &&& r matches Ok(answer) ==> answer.0 == cart_id
        },
{
    let decision = match submit_cart_request(cart_id, payload) {
        Ok(decision) => decision,
        Err(error) => {
            return Err(error);
        },
    };
    match answer(
        decider,
        store,
        Command::SubmitCart(decision),
        "No event returned for SubmitCartCommand!",
    ) {
        Ok(last_event_id) => Ok((cart_id, last_event_id)),
        Err(error) => Err(error),
    }
}

/// Records a change of the price of a product.
///
/// A request whose path names another product than its payload, or whose
/// product is not named by a version 7 UUID, is refused and the log stays
/// as it is. Any other request succeeds exactly when the log has an id
/// left: the change is appended, and the answer is the product and the id
/// of the event.
pub fn change_price_endpoint(
    decider: &DecisionMaker,
    store: &mut EventStore,
    product_id: u128,
    payload: ChangePricePayload,
) -> (r: Result<(u128, i64), ClientError>)
    requires
        old(store).wf(),
    ensures
        final(store).wf(),
        consistent(events_of(old(store)@)) ==> consistent(events_of(final(store)@)),
        if product_id != payload.product_id {
            &&& r matches Err(ClientError::Payload(message))
            &&& message@ == product_mismatch_message()
            &&& final(store)@ == old(store)@
        } else if uuid_version_number(product_id) != 7 {
            &&& r matches Err(ClientError::Payload(message))
            &&& message@ == incompatible_message(product_id)
            &&& final(store)@ == old(store)@
        } else if old(store).has_room(1) {
            &&& r == Ok::<(u128, i64), ClientError>((product_id, (last_id(old(store)@) + 1) as i64))
            &&& final(store)@ == appended(
                old(store)@,
                (ChangePriceCommand {
                    product_id: ProductId(product_id),
                    old_price: payload.old_price,
                    new_price: payload.new_price,
                }).decided(),
            )
        } else {
            &&& r matches Err(ClientError::Decision(DecisionError::EventStore(_)))
            &&& final(store)@ == old(store)@
        },
{
    let decision = match change_price_request(product_id, payload) {
        Ok(decision) => decision,
        Err(error) => {
            return Err(error);
        },
    };
    assert(decision.decided().len() == 1);
    match answer(
        decider,
        store,
        Command::ChangePrice(decision),
        "No event returned for AddItemCommand!",
    ) {
        Ok(last_event_id) => Ok((product_id, last_event_id)),
        Err(error) => Err(error),
    }
}

/// The items of a cart, read from the log.
///
/// A cart that is not named by a version 7 UUID is refused. Otherwise the
/// events of the cart are folded: the answer is the read model they fold
/// to; a cart of which the log holds no event does not exist; events that
/// cannot be folded are an internal failure.
pub fn cart_items_endpoint(event_store: &EventStore, cart_uuid: u128) -> (r: Result<
    CartItemsReadModel,
    ClientError,
>)
    requires
        event_store.wf(),
    ensures
        if uuid_version_number(cart_uuid) != 7 {
            r matches Err(ClientError::Payload(message)) && message@ == incompatible_message(
                cart_uuid,
            )
        } else {
            match folded(None, cart_history(event_store@, CartId(cart_uuid))) {
                Ok(Some(model)) => r matches Ok(read_model) && read_model@ == model,
                Ok(None) => r matches Err(ClientError::Domain(error)) && error
                    == CartError::CartDoesNotExist(CartId(cart_uuid)),
                Err(_) => r matches Err(ClientError::Internal(message)) && message@
                    == unreadable_message(),
            }
        },
{
    let cart_id = match CartId::try_from(cart_uuid) {
        Ok(cart_id) => cart_id,
        Err(refused) => {
            return Err(ClientError::from_uuid_not_compatible(refused));
        },
    };
    match cart_items_read_model(event_store, &cart_id) {
        Ok(Some(read_model)) => Ok(read_model),
        Ok(None) => Err(ClientError::Domain(CartError::CartDoesNotExist(cart_id))),
        Err(_) => Err(ClientError::Internal("The items of the cart cannot be read.".to_owned())),
    }
}

/// The items of a cart, read from the table that the projection keeps.
///
/// A cart that is not named by a version 7 UUID is refused. A cart that the
/// table does not know does not exist. Otherwise the answer is the items of
/// the cart in the table with the sum of their prices; a sum that cannot be
/// represented is an internal failure.
pub fn cart_items_from_db_endpoint(projection: &CartItemsReadModelProjection, cart_uuid: u128) -> (r:
    Result<CartItemsReadModel, ClientError>)
    ensures
        if uuid_version_number(cart_uuid) != 7 {
            r matches Err(ClientError::Payload(message)) && message@ == incompatible_message(
                cart_uuid,
            )
        } else if !projection@.carts.contains(CartId(cart_uuid)) {
            r matches Err(ClientError::Domain(error)) && error == CartError::CartDoesNotExist(
                CartId(cart_uuid),
            )
        } else {
            match sum_of(prices_of(items_of(projection@.rows, CartId(cart_uuid)))) {
                Some(total_price) => r matches Ok(read_model) && read_model@ == (CartItemsView {
                    cart_id: CartId(cart_uuid),
                    total_price,
                    data: items_of(projection@.rows, CartId(cart_uuid)),
                }),
                None => r matches Err(ClientError::Internal(message)) && message@
                    == unreadable_message(),
            }
        },
{
    let cart_id = match CartId::try_from(cart_uuid) {
        Ok(cart_id) => cart_id,
        Err(refused) => {
            return Err(ClientError::from_uuid_not_compatible(refused));
        },
    };
    match projection.cart_items_from_db_read_model(&cart_id) {
        Ok(Some(read_model)) => Ok(read_model),
        Ok(None) => Err(ClientError::Domain(CartError::CartDoesNotExist(cart_id))),
        Err(_) => Err(ClientError::Internal("The items of the cart cannot be read.".to_owned())),
    }
}

/// The cart items that hold a product.
pub fn carts_with_products_endpoint(
    index: &CartsWithProductsReadModelProjection,
    product_uuid: u128,
) -> (r: Result<Vec<CartsWithProductsReadModel>, ClientError>)
    ensures
        match r {
            Ok(read_model) => uuid_version_number(product_uuid) == 7 && read_model@
                == found_by_product(index@, ProductId(product_uuid)),
            Err(error) => uuid_version_number(product_uuid) != 7 && (
            error matches ClientError::Payload(message) && message@ == incompatible_message(
                product_uuid,
            )),
        },
{
    match ProductId::try_from(product_uuid) {
        Ok(product_id) => Ok(index.find_by_product_id(&product_id)),
        Err(refused) => Err(ClientError::from_uuid_not_compatible(refused)),
    }
}

/// The inventory of a product, if it is known.
pub fn inventories_endpoint(projection: &InventoriesReadModelProjection, product_uuid: u128) -> (r:
    Result<Option<InventoriesReadModel>, ClientError>)
    ensures
        match r {
            Ok(read_model) => uuid_version_number(product_uuid) == 7 && read_model == found(
                projection@,
                ProductId(product_uuid),
            ),
            Err(error) => uuid_version_number(product_uuid) != 7 && (
            error matches ClientError::Payload(message) && message@ == incompatible_message(
                product_uuid,
            )),
        },
{
    match ProductId::try_from(product_uuid) {
        Ok(product_id) => Ok(projection.find_by_id(&product_id)),
        Err(refused) => Err(ClientError::from_uuid_not_compatible(refused)),
    }
}

} // verus!
