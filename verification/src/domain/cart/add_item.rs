//! Adding an item to a cart.

use vstd::prelude::*;

use super::errors::CartError;
use super::ids::{uuid_text, uuid_version_number, CartId, ItemId, ProductId};
use super::state::{FoldState, StateMutate};
use crate::domain::events::{views, DomainEvent, EventView};
use crate::domain::money::Money;
use crate::domain::streams::CartStream;
use crate::infra::ClientError;

verus! {

/// The largest number of items a cart holds at one time.
pub const MAX_ITEMS: u8 = 3;

/// The body of a request to add an item, as it arrives: the identifiers are
/// not yet known to be version 7 UUIDs.
#[derive(Debug, Clone)]
pub struct AddItemPayload {
    pub cart_id: u128,
    pub description: String,
    pub image: String,
    pub price: Money,
    pub item_id: u128,
    pub product_id: u128,
}

/// The command to add an item to a cart.
#[derive(Debug, Clone)]
pub struct AddItemCommand {
    pub cart_id: CartId,
    pub description: String,
    pub image: String,
    pub price: Money,
    pub item_id: ItemId,
    pub product_id: ProductId,
    pub fingerprint: String,
}

/// What the decision to add an item reads of a cart.
#[derive(Clone, Copy, Debug, PartialEq, Eq, Structural)]
pub struct AddItemState {
    pub cart_id: CartId,
    pub cart_exists: bool,
    pub item_count: u8,
    pub submitted: bool,
}

impl AddItemState {
    /// The state of a cart of which no event is known.
    pub open spec fn initial(cart_id: CartId) -> AddItemState {
        AddItemState { cart_id, cart_exists: false, item_count: 0, submitted: false }
    }
}

impl FoldState for AddItemState {
    open spec fn can_apply(self, event: EventView) -> bool {
        match event {
            EventView::CartItemAdded { .. } => self.item_count < u8::MAX,
            EventView::CartItemRemoved { .. } => self.item_count > 0,
            EventView::ItemArchivedEvent { .. } => self.item_count > 0,
            _ => true,
        }
    }

    open spec fn apply(self, event: EventView) -> AddItemState {
        match event {
            EventView::CartCreated { .. } => AddItemState { cart_exists: true, ..self },
            EventView::CartItemAdded { .. } => AddItemState {
                item_count: (self.item_count + 1) as u8,
                ..self
            },
            EventView::CartItemRemoved { .. } => AddItemState {
                item_count: (self.item_count - 1) as u8,
                ..self
            },
            EventView::CartCleared { .. } => AddItemState { item_count: 0, ..self },
            EventView::ItemArchivedEvent { .. } => AddItemState {
                item_count: (self.item_count - 1) as u8,
                ..self
            },
            EventView::CartSubmitted { .. } => AddItemState { submitted: true, ..self },
            _ => self,
        }
    }

}

impl StateMutate for AddItemState {
    type Model = AddItemState;

    open spec fn model(&self) -> AddItemState {
        *self
    }

    fn can_mutate(&self, event: &CartStream) -> (b: bool) {
        match event {
            CartStream::CartItemAdded { .. } => self.item_count < u8::MAX,
            CartStream::CartItemRemoved { .. } => self.item_count > 0,
            CartStream::ItemArchivedEvent { .. } => self.item_count > 0,
            _ => true,
        }
    }

    fn mutate(&mut self, event: CartStream) {
        match event {
            CartStream::CartCreated { .. } => {
                self.cart_exists = true;
            },
            CartStream::CartItemAdded { .. } => {
                self.item_count += 1;
            },
            CartStream::CartItemRemoved { .. } => {
                self.item_count -= 1;
            },
            CartStream::CartCleared { .. } => {
                self.item_count = 0;
            },
            CartStream::ItemArchivedEvent { .. } => {
                self.item_count -= 1;
            },
            CartStream::CartSubmitted { .. } => {
                self.submitted = true;
            },
        }
    }
}

impl AddItemCommand {
    /// The first identifier of the payload, in the order cart, item, product,
    /// that is not a version 7 UUID.
    pub open spec fn first_incompatible(payload: AddItemPayload) -> Option<u128> {
        if uuid_version_number(payload.cart_id) != 7 {
            Some(payload.cart_id)
        } else if uuid_version_number(payload.item_id) != 7 {
            Some(payload.item_id)
        } else if uuid_version_number(payload.product_id) != 7 {
            Some(payload.product_id)
        } else {
            None
        }
    }

    /// The command that a payload asks for. The payload is refused where one
    /// of its identifiers is not a version 7 UUID; the fingerprint of the
    /// command is left empty.
    pub fn try_from(payload: AddItemPayload) -> (r: Result<AddItemCommand, ClientError>)
        ensures
            match r {
                Ok(command) => {
                    &&& Self::first_incompatible(payload) is None
                    &&& command.cart_id == CartId(payload.cart_id)
                    &&& command.description@ == payload.description@
                    &&& command.image@ == payload.image@
                    &&& command.price == payload.price
                    &&& command.item_id == ItemId(payload.item_id)
                    &&& command.product_id == ProductId(payload.product_id)
                    &&& command.fingerprint@ == Seq::<char>::empty()
                },
                Err(error) => {
                    &&& Self::first_incompatible(payload) matches Some(bits)
                    &&& error matches ClientError::Payload(message)
                    &&& message@ == "Uuid "@ + uuid_text(bits)
                        + " is not compatible. Version 7 Uuid is required."@
                },
            },
    {
        let cart_id = match CartId::try_from(payload.cart_id) {
            Ok(id) => id,
            Err(refused) => {
                return Err(ClientError::from_uuid_not_compatible(refused));
            },
        };
        let item_id = match ItemId::try_from(payload.item_id) {
            Ok(id) => id,
            Err(refused) => {
                return Err(ClientError::from_uuid_not_compatible(refused));
            },
        };
        let product_id = match ProductId::try_from(payload.product_id) {
            Ok(id) => id,
            Err(refused) => {
                return Err(ClientError::from_uuid_not_compatible(refused));
            },
        };
        Ok(
            AddItemCommand {
                cart_id,
                description: payload.description,
                image: payload.image,
                price: payload.price,
                item_id,
                product_id,
                fingerprint: String::new(),
            },
        )
    }

    /// Whether the command is the one that a payload asks for, whatever
    /// its fingerprint.
    pub open spec fn asked_by(self, payload: AddItemPayload) -> bool {
        &&& self.cart_id == CartId(payload.cart_id)
        &&& self.description@ == payload.description@
        &&& self.image@ == payload.image@
        &&& self.price == payload.price
        &&& self.item_id == ItemId(payload.item_id)
        &&& self.product_id == ProductId(payload.product_id)
    }

    /// The rule that rejects the addition of an item to a cart in the
    /// state, if one does.
    pub open spec fn rejection(state: AddItemState) -> Option<CartError> {
        if state.submitted {
            Some(CartError::CartCannotBeAltered)
        } else if state.item_count >= MAX_ITEMS {
            Some(CartError::CannotAddItemCartFull)
        } else {
            None
        }
    }

    /// The event that records the item of this command.
    pub open spec fn item_added(self) -> EventView {
        EventView::CartItemAdded {
            cart_id: self.cart_id,
            description: self.description@,
            image: self.image@,
            price: self.price,
            item_id: self.item_id,
            product_id: self.product_id,
            fingerprint: self.fingerprint@,
        }
    }

    /// The decision: a submitted cart cannot be altered, a full cart takes no
    /// item, and a cart of which nothing is known is created first.
    pub open spec fn decided(self, state: AddItemState) -> Result<Seq<EventView>, CartError> {
        if state.submitted {
            Err(CartError::CartCannotBeAltered)
        } else if state.item_count >= MAX_ITEMS {
            Err(CartError::CannotAddItemCartFull)
        } else if !state.cart_exists {
            Ok(seq![EventView::CartCreated { cart_id: self.cart_id }, self.item_added()])
        } else {
            Ok(seq![self.item_added()])
        }
    }

    /// The state that the decision reads, before any event.
    pub fn state_query(&self) -> (state: AddItemState)
        ensures
            state == AddItemState::initial(self.cart_id),
    {
        AddItemState { cart_id: self.cart_id, cart_exists: false, item_count: 0, submitted: false }
    }

    /// Decides the command against the state of its cart.
    pub fn process(&self, state: &AddItemState) -> (r: Result<Vec<DomainEvent>, CartError>)
        ensures
            match r {
                Ok(events) => self.decided(*state) == Ok::<Seq<EventView>, CartError>(
                    views(events@),
                ),
                Err(error) => self.decided(*state) == Err::<Seq<EventView>, CartError>(error),
            },
    {
        if state.submitted {
            return Err(CartError::CartCannotBeAltered);
        }
        if state.item_count >= MAX_ITEMS {
            return Err(CartError::CannotAddItemCartFull);
        }
        let mut events: Vec<DomainEvent> = Vec::new();
        if !state.cart_exists {
            events.push(DomainEvent::CartCreated { cart_id: self.cart_id });
        }
        events.push(
            DomainEvent::CartItemAdded {
                cart_id: self.cart_id,
                description: self.description.clone(),
                image: self.image.clone(),
                price: self.price,
                item_id: self.item_id,
                product_id: self.product_id,
                fingerprint: self.fingerprint.clone(),
            },
        );
        proof {
            if !state.cart_exists {
                assert(views(events@) =~= seq![
                    EventView::CartCreated { cart_id: self.cart_id },
                    self.item_added(),
                ]);
            } else {
                assert(views(events@) =~= seq![self.item_added()]);
            }
        }
        Ok(events)
    }
}

} // verus!
