//! Taking in the inventory of a product.

use vstd::prelude::*;

use super::errors::CartError;
use super::ids::{uuid_version_number, ProductId, UuidNotCompatible};
use crate::domain::events::{views, DomainEvent, EventView};
use crate::domain::helpers::stateless::Stateless;

verus! {

/// The command to record the inventory of a product.
#[derive(Debug, Clone, Copy, PartialEq, Eq, Structural)]
pub struct ChangeInventoryCommand {
    pub product_id: ProductId,
    pub inventory: i32,
}

/// A message of the `inventories` topic.
#[derive(Debug, Clone, Copy, PartialEq, Eq, Structural)]
pub struct InventoryChangedMessage {
    pub product_uuid: u128,
    pub inventory: i32,
}

impl ChangeInventoryCommand {
    /// The decision: the inventory is always recorded.
    pub open spec fn decided(self) -> Seq<EventView> {
        seq![EventView::InventoryChanged { product_id: self.product_id, inventory: self.inventory }]
    }

    /// The state that the decision reads: none.
    pub fn state_query(&self) -> Stateless {
        Stateless
    }

    /// Decides the command.
    pub fn process(&self, state: &Stateless) -> (r: Result<Vec<DomainEvent>, CartError>)
        ensures
            r matches Ok(events) && views(events@) == self.decided(),
    {
        let mut events: Vec<DomainEvent> = Vec::new();
        events.push(
            DomainEvent::InventoryChanged { product_id: self.product_id, inventory: self.inventory },
        );
        assert(views(events@) =~= self.decided());
        Ok(events)
    }
}

/// Translates messages of the `inventories` topic into commands.
#[derive(Debug, Clone, Copy)]
pub struct InventoryChangedTranslator;

impl InventoryChangedTranslator {
    /// The translator.
    pub fn new() -> Self {
        InventoryChangedTranslator
    }

    /// The command that a message asks for. A message whose product is not
    /// named by a version 7 UUID asks for none.
    pub fn translate(&self, message: InventoryChangedMessage) -> (r: Result<
        ChangeInventoryCommand,
        UuidNotCompatible,
    >)
        ensures
            uuid_version_number(message.product_uuid) == 7 ==> r == Ok::<
                ChangeInventoryCommand,
                UuidNotCompatible,
            >(
                ChangeInventoryCommand {
                    product_id: ProductId(message.product_uuid),
                    inventory: message.inventory,
                },
            ),
            uuid_version_number(message.product_uuid) != 7 ==> r == Err::<
                ChangeInventoryCommand,
                UuidNotCompatible,
            >(UuidNotCompatible(message.product_uuid)),
    {
        match ProductId::try_from(message.product_uuid) {
            Ok(product_id) => Ok(ChangeInventoryCommand { product_id, inventory: message.inventory }),
            Err(refused) => Err(refused),
        }
    }
}

} // verus!
