//! The events of each named stream, as types of their own.
//!
//! A value of a stream type is a domain event of one of the stream's kinds;
//! its model is the model of that domain event.

use vstd::prelude::*;

use super::cart::{CartId, ItemId, ProductId};
use super::events::{copy_ordered_products, DomainEvent, EventView, OrderedProduct};
use super::money::Money;

verus! {

/// An event of the `Cart` stream.
#[derive(Debug, PartialEq)]
pub enum CartStream {
    CartCreated { cart_id: CartId },
    CartItemAdded {
        cart_id: CartId,
        description: String,
        image: String,
        price: Money,
        item_id: ItemId,
        product_id: ProductId,
        fingerprint: String,
    },
    CartItemRemoved { cart_id: CartId, item_id: ItemId },
    CartCleared { cart_id: CartId },
    ItemArchivedEvent { cart_id: CartId, item_id: ItemId, price_changed_event_id: i64 },
    CartSubmitted { cart_id: CartId, ordered_product: Vec<OrderedProduct>, total_price: Money },
}

impl View for CartStream {
    type V = EventView;

    open spec fn view(&self) -> EventView {
        match *self {
            CartStream::CartCreated { cart_id } => EventView::CartCreated { cart_id },
            CartStream::CartItemAdded {
                cart_id,
                description,
                image,
                price,
                item_id,
                product_id,
                fingerprint,
            } => EventView::CartItemAdded {
                cart_id,
                description: description@,
                image: image@,
                price,
                item_id,
                product_id,
                fingerprint: fingerprint@,
            },
            CartStream::CartItemRemoved { cart_id, item_id } => EventView::CartItemRemoved {
                cart_id,
                item_id,
            },
            CartStream::CartCleared { cart_id } => EventView::CartCleared { cart_id },
            CartStream::ItemArchivedEvent {
                cart_id,
                item_id,
                price_changed_event_id,
            } => EventView::ItemArchivedEvent { cart_id, item_id, price_changed_event_id },
            CartStream::CartSubmitted {
                cart_id,
                ordered_product,
                total_price,
            } => EventView::CartSubmitted {
                cart_id,
                ordered_product: ordered_product@,
                total_price,
            },
        }
    }
}

impl CartStream {
    /// The event as a member of the stream, or the event itself where it is
    /// of another stream.
    pub fn try_from(event: DomainEvent) -> (r: Result<CartStream, DomainEvent>)
        ensures
            event@.in_cart_stream() ==> (r matches Ok(e) && e@ == event@),
            !event@.in_cart_stream() ==> (r matches Err(e) && e@ == event@),
    {
        match event {
            DomainEvent::CartCreated { cart_id } => Ok(CartStream::CartCreated { cart_id }),
            DomainEvent::CartItemAdded {
                cart_id,
                description,
                image,
                price,
                item_id,
                product_id,
                fingerprint,
            } => Ok(
                CartStream::CartItemAdded {
                    cart_id,
                    description,
                    image,
                    price,
                    item_id,
                    product_id,
                    fingerprint,
                },
            ),
            DomainEvent::CartItemRemoved { cart_id, item_id } => Ok(
                CartStream::CartItemRemoved { cart_id, item_id },
            ),
            DomainEvent::CartCleared { cart_id } => Ok(CartStream::CartCleared { cart_id }),
            DomainEvent::ItemArchivedEvent { cart_id, item_id, price_changed_event_id } => Ok(
                CartStream::ItemArchivedEvent { cart_id, item_id, price_changed_event_id },
            ),
            DomainEvent::CartSubmitted { cart_id, ordered_product, total_price } => Ok(
                CartStream::CartSubmitted { cart_id, ordered_product, total_price },
            ),
            other => Err(other),
        }
    }

    /// The event as a domain event.
    pub fn into_event(self) -> (event: DomainEvent)
        ensures
            event@ == self@,
    {
        match self {
            CartStream::CartCreated { cart_id } => DomainEvent::CartCreated { cart_id },
            CartStream::CartItemAdded {
                cart_id,
                description,
                image,
                price,
                item_id,
                product_id,
                fingerprint,
            } => DomainEvent::CartItemAdded {
                cart_id,
                description,
                image,
                price,
                item_id,
                product_id,
                fingerprint,
            },
            CartStream::CartItemRemoved { cart_id, item_id } => DomainEvent::CartItemRemoved {
                cart_id,
                item_id,
            },
            CartStream::CartCleared { cart_id } => DomainEvent::CartCleared { cart_id },
            CartStream::ItemArchivedEvent {
                cart_id,
                item_id,
                price_changed_event_id,
            } => DomainEvent::ItemArchivedEvent { cart_id, item_id, price_changed_event_id },
            CartStream::CartSubmitted {
                cart_id,
                ordered_product,
                total_price,
            } => DomainEvent::CartSubmitted { cart_id, ordered_product, total_price },
        }
    }
}

impl Clone for CartStream {
    fn clone(&self) -> (copy: Self)
        ensures
            copy@ == self@,
    {
        match self {
            CartStream::CartCreated { cart_id } => CartStream::CartCreated { cart_id: *cart_id },
            CartStream::CartItemAdded {
                cart_id,
                description,
                image,
                price,
                item_id,
                product_id,
                fingerprint,
            } => CartStream::CartItemAdded {
                cart_id: *cart_id,
                description: description.clone(),
                image: image.clone(),
                price: *price,
                item_id: *item_id,
                product_id: *product_id,
                fingerprint: fingerprint.clone(),
            },
            CartStream::CartItemRemoved { cart_id, item_id } => CartStream::CartItemRemoved {
                cart_id: *cart_id,
                item_id: *item_id,
            },
            CartStream::CartCleared { cart_id } => CartStream::CartCleared { cart_id: *cart_id },
            CartStream::ItemArchivedEvent {
                cart_id,
                item_id,
                price_changed_event_id,
            } => CartStream::ItemArchivedEvent {
                cart_id: *cart_id,
                item_id: *item_id,
                price_changed_event_id: *price_changed_event_id,
            },
            CartStream::CartSubmitted {
                cart_id,
                ordered_product,
                total_price,
            } => CartStream::CartSubmitted {
                cart_id: *cart_id,
                ordered_product: copy_ordered_products(ordered_product),
                total_price: *total_price,
            },
        }
    }
}

/// The one kind of the stream that no state query reads.
#[derive(Clone, Copy, Debug, PartialEq, Eq, Structural)]
pub enum EmptyStream {
    EmptyEvent,
}

impl View for EmptyStream {
    type V = EventView;

    open spec fn view(&self) -> EventView {
        EventView::EmptyEvent
    }
}

/// An event of the `Inventory` stream.
#[derive(Clone, Copy, Debug, PartialEq, Eq, Structural)]
pub enum InventoryStream {
    InventoryChanged { product_id: ProductId, inventory: i32 },
}

impl View for InventoryStream {
    type V = EventView;

    open spec fn view(&self) -> EventView {
        match *self {
            InventoryStream::InventoryChanged {
                product_id,
                inventory,
            } => EventView::InventoryChanged { product_id, inventory },
        }
    }
}

impl InventoryStream {
    /// The event as a member of the stream, or the event itself where it is
    /// of another stream.
    pub fn try_from(event: DomainEvent) -> (r: Result<InventoryStream, DomainEvent>)
        ensures
            event@.in_inventory_stream() ==> (r matches Ok(e) && e@ == event@),
            !event@.in_inventory_stream() ==> (r matches Err(e) && e@ == event@),
    {
        match event {
            DomainEvent::InventoryChanged { product_id, inventory } => Ok(
                InventoryStream::InventoryChanged { product_id, inventory },
            ),
            other => Err(other),
        }
    }

    /// The event as a domain event.
    pub fn into_event(self) -> (event: DomainEvent)
        ensures
            event@ == self@,
    {
        match self {
            InventoryStream::InventoryChanged {
                product_id,
                inventory,
            } => DomainEvent::InventoryChanged { product_id, inventory },
        }
    }
}

/// An event of the `Pricing` stream.
#[derive(Clone, Copy, Debug, PartialEq, Eq, Structural)]
pub enum PricingStream {
    PriceChanged { product_id: ProductId, old_price: Money, new_price: Money },
}

impl View for PricingStream {
    type V = EventView;

    open spec fn view(&self) -> EventView {
        match *self {
            PricingStream::PriceChanged {
                product_id,
                old_price,
                new_price,
            } => EventView::PriceChanged { product_id, old_price, new_price },
        }
    }
}

impl PricingStream {
    /// The event as a member of the stream, or the event itself where it is
    /// of another stream.
    pub fn try_from(event: DomainEvent) -> (r: Result<PricingStream, DomainEvent>)
        ensures
            event@.in_pricing_stream() ==> (r matches Ok(e) && e@ == event@),
            !event@.in_pricing_stream() ==> (r matches Err(e) && e@ == event@),
    {
        match event {
            DomainEvent::PriceChanged { product_id, old_price, new_price } => Ok(
                PricingStream::PriceChanged { product_id, old_price, new_price },
            ),
            other => Err(other),
        }
    }

    /// The event as a domain event.
    pub fn into_event(self) -> (event: DomainEvent)
        ensures
            event@ == self@,
    {
        match self {
            PricingStream::PriceChanged {
                product_id,
                old_price,
                new_price,
            } => DomainEvent::PriceChanged { product_id, old_price, new_price },
        }
    }
}

/// An event of the `Submitted` stream.
#[derive(Debug, PartialEq)]
pub enum SubmittedStream {
    CartSubmitted { cart_id: CartId, ordered_product: Vec<OrderedProduct>, total_price: Money },
}

impl View for SubmittedStream {
    type V = EventView;

    open spec fn view(&self) -> EventView {
        match *self {
            SubmittedStream::CartSubmitted {
                cart_id,
                ordered_product,
                total_price,
            } => EventView::CartSubmitted {
                cart_id,
                ordered_product: ordered_product@,
                total_price,
            },
        }
    }
}

impl SubmittedStream {
    /// The event as a member of the stream, or the event itself where it is
    /// of another stream.
    pub fn try_from(event: DomainEvent) -> (r: Result<SubmittedStream, DomainEvent>)
        ensures
            event@.in_submitted_stream() ==> (r matches Ok(e) && e@ == event@),
            !event@.in_submitted_stream() ==> (r matches Err(e) && e@ == event@),
    {
        match event {
            DomainEvent::CartSubmitted { cart_id, ordered_product, total_price } => Ok(
                SubmittedStream::CartSubmitted { cart_id, ordered_product, total_price },
            ),
            other => Err(other),
        }
    }

    /// The event as a domain event.
    pub fn into_event(self) -> (event: DomainEvent)
        ensures
            event@ == self@,
    {
        match self {
            SubmittedStream::CartSubmitted {
                cart_id,
                ordered_product,
                total_price,
            } => DomainEvent::CartSubmitted { cart_id, ordered_product, total_price },
        }
    }
}

/// An event of the `Published` stream.
#[derive(Clone, Copy, Debug, PartialEq, Eq, Structural)]
pub enum PublishedStream {
    CartPublished { cart_id: CartId },
    CartPublicationFailed { cart_id: CartId },
}

impl View for PublishedStream {
    type V = EventView;

    open spec fn view(&self) -> EventView {
        match *self {
            PublishedStream::CartPublished { cart_id } => EventView::CartPublished { cart_id },
            PublishedStream::CartPublicationFailed {
                cart_id,
            } => EventView::CartPublicationFailed { cart_id },
        }
    }
}

impl PublishedStream {
    /// The event as a member of the stream, or the event itself where it is
    /// of another stream.
    pub fn try_from(event: DomainEvent) -> (r: Result<PublishedStream, DomainEvent>)
        ensures
            event@.in_published_stream() ==> (r matches Ok(e) && e@ == event@),
            !event@.in_published_stream() ==> (r matches Err(e) && e@ == event@),
    {
        match event {
            DomainEvent::CartPublished { cart_id } => Ok(PublishedStream::CartPublished { cart_id }),
            DomainEvent::CartPublicationFailed { cart_id } => Ok(
                PublishedStream::CartPublicationFailed { cart_id },
            ),
            other => Err(other),
        }
    }

    /// The event as a domain event.
    pub fn into_event(self) -> (event: DomainEvent)
        ensures
            event@ == self@,
    {
        match self {
            PublishedStream::CartPublished { cart_id } => DomainEvent::CartPublished { cart_id },
            PublishedStream::CartPublicationFailed {
                cart_id,
            } => DomainEvent::CartPublicationFailed { cart_id },
        }
    }
}

} // verus!
