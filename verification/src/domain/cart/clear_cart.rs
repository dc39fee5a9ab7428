//! Clearing a cart.

use vstd::prelude::*;

use super::errors::CartError;
use super::ids::CartId;
use super::state::{FoldState, StateMutate};
use crate::domain::events::{views, DomainEvent, EventView};
use crate::domain::streams::CartStream;

verus! {

/// The command to remove every item from a cart.
#[derive(Debug, Clone, Copy, PartialEq, Eq, Structural)]
pub struct ClearCartCommand {
    pub cart_id: CartId,
}

/// What the decision to clear a cart reads of it.
#[derive(Clone, Copy, Debug, PartialEq, Eq, Structural)]
pub struct ClearCartState {
    pub cart_id: CartId,
    pub cart_exists: bool,
    pub submitted: bool,
}

impl ClearCartState {
    /// The state of a cart of which no event is known.
    pub open spec fn initial(cart_id: CartId) -> ClearCartState {
        ClearCartState { cart_id, cart_exists: false, submitted: false }
    }
}

impl FoldState for ClearCartState {
    open spec fn can_apply(self, event: EventView) -> bool {
        true
    }

    open spec fn apply(self, event: EventView) -> ClearCartState {
        match event {
            EventView::CartCreated { .. } => ClearCartState { cart_exists: true, ..self },
            EventView::CartSubmitted { .. } => ClearCartState { submitted: true, ..self },
            _ => self,
        }
    }

}

impl StateMutate for ClearCartState {
    type Model = ClearCartState;

    open spec fn model(&self) -> ClearCartState {
        *self
    }

    fn can_mutate(&self, event: &CartStream) -> (b: bool) {
        true
    }

    fn mutate(&mut self, event: CartStream) {
        match event {
            CartStream::CartCreated { .. } => {
                self.cart_exists = true;
            },
            CartStream::CartCleared { .. } => {},
            CartStream::CartItemAdded { .. } => {},
            CartStream::CartItemRemoved { .. } => {},
            CartStream::CartSubmitted { .. } => {
                self.submitted = true;
            },
            CartStream::ItemArchivedEvent { .. } => {},
        }
    }
}

impl ClearCartCommand {
    /// The decision: a submitted cart cannot be altered, and only a cart
    /// that exists can be cleared.
    pub open spec fn decided(self, state: ClearCartState) -> Result<Seq<EventView>, CartError> {
        if state.submitted {
            Err(CartError::CartCannotBeAltered)
        } else if !state.cart_exists {
            Err(CartError::CartDoesNotExist(self.cart_id))
        } else {
            Ok(seq![EventView::CartCleared { cart_id: self.cart_id }])
        }
    }

    /// The state that the decision reads, before any event.
    pub fn state_query(&self) -> (state: ClearCartState)
        ensures
            state == ClearCartState::initial(self.cart_id),
    {
        ClearCartState { cart_id: self.cart_id, cart_exists: false, submitted: false }
    }

    /// Decides the command against the state of its cart.
    pub fn process(&self, state: &ClearCartState) -> (r: Result<Vec<DomainEvent>, CartError>)
        ensures
            match r {
                Ok(events) => self.decided(*state) == Ok::<Seq<EventView>, CartError>(
                    views(events@),
                ),
                Err(error) => self.decided(*state) == Err::<Seq<EventView>, CartError>(error),
            },
    {
        if state.submitted {
            return Err(CartError::CartCannotBeAltered);
        }
        if !state.cart_exists {
            return Err(CartError::CartDoesNotExist(self.cart_id));
        }
        let mut events: Vec<DomainEvent> = Vec::new();
        events.push(DomainEvent::CartCleared { cart_id: self.cart_id });
        assert(views(events@) =~= seq![EventView::CartCleared { cart_id: self.cart_id }]);
        Ok(events)
    }
}

} // verus!
