//! Taking in a change of the price of a product.

use vstd::prelude::*;

use super::errors::CartError;
use super::ids::{uuid_text, uuid_version_number, ProductId, UuidNotCompatible};
use crate::domain::events::{views, DomainEvent, EventView};
use crate::domain::helpers::stateless::Stateless;
use crate::domain::money::Money;
use crate::infra::ClientError;

verus! {

/// The body of a request to change a price, as it arrives.
#[derive(Debug, Clone, Copy, PartialEq, Eq, Structural)]
pub struct ChangePricePayload {
    pub product_id: u128,
    pub new_price: Money,
    pub old_price: Money,
}

/// The command to record a change of the price of a product.
#[derive(Debug, Clone, Copy, PartialEq, Eq, Structural)]
pub struct ChangePriceCommand {
    pub product_id: ProductId,
    pub old_price: Money,
    pub new_price: Money,
}

/// A message of the `price-changes` topic.
#[derive(Debug, Clone, Copy, PartialEq, Eq, Structural)]
pub struct PriceChangedMessage {
    pub product_uuid: u128,
    pub old_price: Money,
    pub new_price: Money,
}

impl ChangePriceCommand {
    /// The decision: the change is always recorded.
    pub open spec fn decided(self) -> Seq<EventView> {
        seq![
            EventView::PriceChanged {
                product_id: self.product_id,
                old_price: self.old_price,
                new_price: self.new_price,
            },
        ]
    }

    /// The state that the decision reads: none.
    pub fn state_query(&self) -> Stateless {
        Stateless
    }

    /// Decides the command.
    pub fn process(&self, state: &Stateless) -> (r: Result<Vec<DomainEvent>, CartError>)
        ensures
            r matches Ok(events) && views(events@) == self.decided(),
    {
        let mut events: Vec<DomainEvent> = Vec::new();
        events.push(
            DomainEvent::PriceChanged {
                product_id: self.product_id,
                old_price: self.old_price,
                new_price: self.new_price,
            },
        );
        assert(views(events@) =~= self.decided());
        Ok(events)
    }

    /// The command that a payload asks for. The payload is refused where its
    /// product is not named by a version 7 UUID.
    pub fn try_from(payload: ChangePricePayload) -> (r: Result<ChangePriceCommand, ClientError>)
        ensures
            match r {
                Ok(command) => {
                    &&& uuid_version_number(payload.product_id) == 7
                    &&& command == ChangePriceCommand {
                        product_id: ProductId(payload.product_id),
                        old_price: payload.old_price,
                        new_price: payload.new_price,
                    }
                },
                Err(error) => {
                    &&& uuid_version_number(payload.product_id) != 7
                    &&& error matches ClientError::Payload(message)
                    &&& message@ == "Uuid "@ + uuid_text(payload.product_id)
                        + " is not compatible. Version 7 Uuid is required."@
                },
            },
    {
        match ProductId::try_from(payload.product_id) {
            Ok(product_id) => Ok(
                ChangePriceCommand {
                    product_id,
                    old_price: payload.old_price,
                    new_price: payload.new_price,
                },
            ),
            Err(refused) => Err(ClientError::from_uuid_not_compatible(refused)),
        }
    }
}

/// Translates messages of the `price-changes` topic into commands.
#[derive(Debug, Clone, Copy)]
pub struct PriceChangeTranslator;

impl PriceChangeTranslator {
    /// The translator.
    pub fn new() -> Self {
        PriceChangeTranslator
    }

    /// The command that a message asks for. A message whose product is not
    /// named by a version 7 UUID asks for none.
    pub fn translate(&self, message: PriceChangedMessage) -> (r: Result<
        ChangePriceCommand,
        UuidNotCompatible,
    >)
        ensures
            uuid_version_number(message.product_uuid) == 7 ==> r == Ok::<
                ChangePriceCommand,
                UuidNotCompatible,
            >(
                ChangePriceCommand {
                    product_id: ProductId(message.product_uuid),
                    old_price: message.old_price,
                    new_price: message.new_price,
                },
            ),
            uuid_version_number(message.product_uuid) != 7 ==> r == Err::<
                ChangePriceCommand,
                UuidNotCompatible,
            >(UuidNotCompatible(message.product_uuid)),
    {
        match ProductId::try_from(message.product_uuid) {
            Ok(product_id) => Ok(
                ChangePriceCommand {
                    product_id,
                    old_price: message.old_price,
                    new_price: message.new_price,
                },
            ),
            Err(refused) => Err(refused),
        }
    }
}

} // verus!
