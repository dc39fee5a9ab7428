//! Removing an item from a cart.

use vstd::prelude::*;

use super::errors::CartError;
use super::ids::{uuid_text, uuid_version_number, CartId, ItemId};
use super::state::{FoldState, StateMutate};
use crate::domain::events::{views, DomainEvent, EventView};
use crate::domain::streams::CartStream;
use crate::infra::ClientError;

verus! {

/// The body of a request to remove an item, as it arrives.
#[derive(Debug, Clone, Copy, PartialEq, Eq, Structural)]
pub struct RemoveItemPayload {
    pub cart_id: u128,
    pub item_id: u128,
}

/// The command to remove an item from a cart.
#[derive(Debug, Clone, Copy, PartialEq, Eq, Structural)]
pub struct RemoveItemCommand {
    pub cart_id: CartId,
    pub item_id: ItemId,
}

/// What the decision to remove an item reads of a cart.
#[derive(Clone, Copy, Debug, PartialEq, Eq, Structural)]
pub struct RemoveItemState {
    pub cart_id: CartId,
    pub item_id: ItemId,
    pub cart_exists: bool,
    pub item_exists: bool,
    pub submitted: bool,
}

impl RemoveItemState {
    /// The state of a cart of which no event is known.
    pub open spec fn initial(cart_id: CartId, item_id: ItemId) -> RemoveItemState {
        RemoveItemState {
            cart_id,
            item_id,
            cart_exists: false,
            item_exists: false,
            submitted: false,
        }
    }
}

impl FoldState for RemoveItemState {
    open spec fn can_apply(self, event: EventView) -> bool {
        true
    }

    open spec fn apply(self, event: EventView) -> RemoveItemState {
        match event {
            EventView::CartCreated { .. } => RemoveItemState { cart_exists: true, ..self },
            EventView::CartItemAdded { item_id, .. } => if item_id == self.item_id {
                RemoveItemState { item_exists: true, ..self }
            } else {
                self
            },
            EventView::CartItemRemoved { item_id, .. } => if item_id == self.item_id {
                RemoveItemState { item_exists: false, ..self }
            } else {
                self
            },
            EventView::CartCleared { .. } => RemoveItemState { item_exists: false, ..self },
            EventView::ItemArchivedEvent { item_id, .. } => if item_id == self.item_id {
                RemoveItemState { item_exists: false, ..self }
            } else {
                self
            },
            EventView::CartSubmitted { .. } => RemoveItemState { submitted: true, ..self },
            _ => self,
        }
    }

}

impl StateMutate for RemoveItemState {
    type Model = RemoveItemState;

    open spec fn model(&self) -> RemoveItemState {
        *self
    }

    fn can_mutate(&self, event: &CartStream) -> (b: bool) {
        true
    }

    fn mutate(&mut self, event: CartStream) {
        match event {
            CartStream::CartCreated { .. } => {
                self.cart_exists = true;
            },
            CartStream::CartItemAdded { item_id, .. } => {
                if item_id == self.item_id {
                    self.item_exists = true;
                }
            },
            CartStream::CartItemRemoved { item_id, .. } => {
                if item_id == self.item_id {
                    self.item_exists = false;
                }
            },
            CartStream::CartCleared { .. } => {
                self.item_exists = false;
            },
            CartStream::ItemArchivedEvent { item_id, .. } => {
                if item_id == self.item_id {
                    self.item_exists = false;
                }
            },
            CartStream::CartSubmitted { .. } => {
                self.submitted = true;
            },
        }
    }
}

impl RemoveItemCommand {
    /// The first identifier of the payload, in the order cart, item, that is
    /// not a version 7 UUID.
    pub open spec fn first_incompatible(payload: RemoveItemPayload) -> Option<u128> {
        if uuid_version_number(payload.cart_id) != 7 {
            Some(payload.cart_id)
        } else if uuid_version_number(payload.item_id) != 7 {
            Some(payload.item_id)
        } else {
            None
        }
    }

    /// The command that a payload asks for. The payload is refused where one
    /// of its identifiers is not a version 7 UUID.
    pub fn try_from(payload: RemoveItemPayload) -> (r: Result<RemoveItemCommand, ClientError>)
        ensures
            match r {
                Ok(command) => {
                    &&& Self::first_incompatible(payload) is None
                    &&& command.cart_id == CartId(payload.cart_id)
                    &&& command.item_id == ItemId(payload.item_id)
                },
                Err(error) => {
                    &&& Self::first_incompatible(payload) matches Some(bits)
                    &&& error matches ClientError::Payload(message)
                    &&& message@ == "Uuid "@ + uuid_text(bits)
                        + " is not compatible. Version 7 Uuid is required."@
                },
            },
    {
        let cart_id = match CartId::try_from(payload.cart_id) {
            Ok(id) => id,
            Err(refused) => {
                return Err(ClientError::from_uuid_not_compatible(refused));
            },
        };
        let item_id = match ItemId::try_from(payload.item_id) {
            Ok(id) => id,
            Err(refused) => {
                return Err(ClientError::from_uuid_not_compatible(refused));
            },
        };
        Ok(RemoveItemCommand { cart_id, item_id })
    }

    /// The decision. The checks are made in this order: the cart exists, it
    /// is not submitted, the item is in it.
    pub open spec fn decided(self, state: RemoveItemState) -> Result<Seq<EventView>, CartError> {
        if !state.cart_exists {
            Err(CartError::CartDoesNotExist(self.cart_id))
        } else if state.submitted {
            Err(CartError::CartCannotBeAltered)
        } else if !state.item_exists {
            Err(CartError::CannotRemoveItem)
        } else {
            Ok(seq![EventView::CartItemRemoved { cart_id: self.cart_id, item_id: self.item_id }])
        }
    }

    /// The state that the decision reads, before any event.
    pub fn state_query(&self) -> (state: RemoveItemState)
        ensures
            state == RemoveItemState::initial(self.cart_id, self.item_id),
    {
        RemoveItemState {
            cart_id: self.cart_id,
            item_id: self.item_id,
            cart_exists: false,
            item_exists: false,
            submitted: false,
        }
    }

    /// Decides the command against the state of its cart.
    pub fn process(&self, state: &RemoveItemState) -> (r: Result<Vec<DomainEvent>, CartError>)
        ensures
            match r {
                Ok(events) => self.decided(*state) == Ok::<Seq<EventView>, CartError>(
                    views(events@),
                ),
                Err(error) => self.decided(*state) == Err::<Seq<EventView>, CartError>(error),
            },
    {
        if !state.cart_exists {
            return Err(CartError::CartDoesNotExist(self.cart_id));
        }
        if state.submitted {
            return Err(CartError::CartCannotBeAltered);
        }
        if !state.item_exists {
            return Err(CartError::CannotRemoveItem);
        }
        let mut events: Vec<DomainEvent> = Vec::new();
        events.push(DomainEvent::CartItemRemoved { cart_id: self.cart_id, item_id: self.item_id });
        assert(views(events@) =~= seq![
            EventView::CartItemRemoved { cart_id: self.cart_id, item_id: self.item_id },
        ]);
        Ok(events)
    }
}

} // verus!
