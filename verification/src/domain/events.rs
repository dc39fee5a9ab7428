//! The domain events and the named streams they belong to.
//!
//! An event is an immutable record. Its mathematical model is
//! [`EventView`], in which texts are sequences of characters and lists are
//! sequences; every contract that speaks of events speaks of that model.
//! A stream is a predicate over event kinds; each stream also has a type of
//! its own that holds exactly the events of the stream.

use vstd::prelude::*;

use super::cart::{CartId, ItemId, ProductId};
use super::money::Money;

verus! {

/// One line of a submitted cart: a product and the price it was ordered at.
#[derive(Clone, Copy, Debug, PartialEq, Eq, Structural, Hash)]
pub struct OrderedProduct {
    pub product_id: ProductId,
    pub price: Money,
}

/// A domain event.
#[derive(Debug, PartialEq)]
pub enum DomainEvent {
    CartCleared { cart_id: CartId },
    CartCreated { cart_id: CartId },
    CartItemAdded {
        cart_id: CartId,
        description: String,
        image: String,
        price: Money,
        item_id: ItemId,
        product_id: ProductId,
        fingerprint: String,
    },
    CartItemRemoved { cart_id: CartId, item_id: ItemId },
    CartPublished { cart_id: CartId },
    CartPublicationFailed { cart_id: CartId },
    CartSubmitted { cart_id: CartId, ordered_product: Vec<OrderedProduct>, total_price: Money },
    EmptyEvent,
    InventoryChanged { product_id: ProductId, inventory: i32 },
    ItemArchivedEvent { cart_id: CartId, item_id: ItemId, price_changed_event_id: i64 },
    PriceChanged { product_id: ProductId, old_price: Money, new_price: Money },
}

/// The mathematical model of a domain event.
pub ghost enum EventView {
    CartCleared { cart_id: CartId },
    CartCreated { cart_id: CartId },
    CartItemAdded {
        cart_id: CartId,
        description: Seq<char>,
        image: Seq<char>,
        price: Money,
        item_id: ItemId,
        product_id: ProductId,
        fingerprint: Seq<char>,
    },
    CartItemRemoved { cart_id: CartId, item_id: ItemId },
    CartPublished { cart_id: CartId },
    CartPublicationFailed { cart_id: CartId },
    CartSubmitted { cart_id: CartId, ordered_product: Seq<OrderedProduct>, total_price: Money },
    EmptyEvent,
    InventoryChanged { product_id: ProductId, inventory: i32 },
    ItemArchivedEvent { cart_id: CartId, item_id: ItemId, price_changed_event_id: i64 },
    PriceChanged { product_id: ProductId, old_price: Money, new_price: Money },
}

impl EventView {
    /// The `Cart` stream: every event that affects the state of a cart.
    pub open spec fn in_cart_stream(self) -> bool {
        self is CartCreated || self is CartItemAdded || self is CartItemRemoved
            || self is CartCleared || self is ItemArchivedEvent || self is CartSubmitted
    }

    /// The `Pricing` stream.
    pub open spec fn in_pricing_stream(self) -> bool {
        self is PriceChanged
    }

    /// The `Inventory` stream.
    pub open spec fn in_inventory_stream(self) -> bool {
        self is InventoryChanged
    }

    /// The `Submitted` stream.
    pub open spec fn in_submitted_stream(self) -> bool {
        self is CartSubmitted
    }

    /// The `Published` stream.
    pub open spec fn in_published_stream(self) -> bool {
        self is CartPublished || self is CartPublicationFailed
    }

    /// The stream that holds no domain event; state queries over it never
    /// find any state.
    pub open spec fn in_empty_stream(self) -> bool {
        self is EmptyEvent
    }

    /// The cart the event is indexed by, if any.
    pub open spec fn cart_id(self) -> Option<CartId> {
        match self {
            EventView::CartCleared { cart_id } => Some(cart_id),
            EventView::CartCreated { cart_id } => Some(cart_id),
            EventView::CartItemAdded { cart_id, .. } => Some(cart_id),
            EventView::CartItemRemoved { cart_id, .. } => Some(cart_id),
            EventView::CartPublished { cart_id } => Some(cart_id),
            EventView::CartPublicationFailed { cart_id } => Some(cart_id),
            EventView::CartSubmitted { cart_id, .. } => Some(cart_id),
            EventView::ItemArchivedEvent { cart_id, .. } => Some(cart_id),
            _ => None,
        }
    }

    /// The item the event is indexed by, if any.
    pub open spec fn item_id(self) -> Option<ItemId> {
        match self {
            EventView::CartItemAdded { item_id, .. } => Some(item_id),
            EventView::CartItemRemoved { item_id, .. } => Some(item_id),
            EventView::ItemArchivedEvent { item_id, .. } => Some(item_id),
            _ => None,
        }
    }

    /// The product the event is indexed by, if any.
    pub open spec fn product_id(self) -> Option<ProductId> {
        match self {
            EventView::CartItemAdded { product_id, .. } => Some(product_id),
            EventView::InventoryChanged { product_id, .. } => Some(product_id),
            EventView::PriceChanged { product_id, .. } => Some(product_id),
            _ => None,
        }
    }
}

impl View for DomainEvent {
    type V = EventView;

    open spec fn view(&self) -> EventView {
        match *self {
            DomainEvent::CartCleared { cart_id } => EventView::CartCleared { cart_id },
            DomainEvent::CartCreated { cart_id } => EventView::CartCreated { cart_id },
            DomainEvent::CartItemAdded {
                cart_id,
                description,
                image,
                price,
                item_id,
                product_id,
                fingerprint,
            } => EventView::CartItemAdded {
                cart_id,
                description: description@,
                image: image@,
                price,
                item_id,
                product_id,
                fingerprint: fingerprint@,
            },
            DomainEvent::CartItemRemoved { cart_id, item_id } => EventView::CartItemRemoved {
                cart_id,
                item_id,
            },
            DomainEvent::CartPublished { cart_id } => EventView::CartPublished { cart_id },
            DomainEvent::CartPublicationFailed { cart_id } => EventView::CartPublicationFailed {
                cart_id,
            },
            DomainEvent::CartSubmitted {
                cart_id,
                ordered_product,
                total_price,
            } => EventView::CartSubmitted {
                cart_id,
                ordered_product: ordered_product@,
                total_price,
            },
            DomainEvent::EmptyEvent => EventView::EmptyEvent,
            DomainEvent::InventoryChanged { product_id, inventory } => EventView::InventoryChanged {
                product_id,
                inventory,
            },
            DomainEvent::ItemArchivedEvent {
                cart_id,
                item_id,
                price_changed_event_id,
            } => EventView::ItemArchivedEvent { cart_id, item_id, price_changed_event_id },
            DomainEvent::PriceChanged {
                product_id,
                old_price,
                new_price,
            } => EventView::PriceChanged { product_id, old_price, new_price },
        }
    }
}

/// The models of a list of events, in order.
pub open spec fn views(events: Seq<DomainEvent>) -> Seq<EventView> {
    events.map_values(|e: DomainEvent| e@)
}

/// A copy of a list of ordered products.
pub fn copy_ordered_products(products: &Vec<OrderedProduct>) -> (copy: Vec<OrderedProduct>)
    ensures
        copy@ == products@,
{
    let mut copy: Vec<OrderedProduct> = Vec::new();
    let mut i: usize = 0;
    while i < products.len()
        invariant
            i <= products.len(),
            copy@ == products@.take(i as int),
        decreases products.len() - i,
    {
        copy.push(products[i]);
        assert(products@.take(i + 1) == products@.take(i as int).push(products@[i as int]));
        i += 1;
    }
    assert(products@.take(products.len() as int) == products@);
    copy
}

impl Clone for DomainEvent {
    fn clone(&self) -> (copy: Self)
        ensures
            copy@ == self@,
    {
        match self {
            DomainEvent::CartCleared { cart_id } => DomainEvent::CartCleared { cart_id: *cart_id },
            DomainEvent::CartCreated { cart_id } => DomainEvent::CartCreated { cart_id: *cart_id },
            DomainEvent::CartItemAdded {
                cart_id,
                description,
                image,
                price,
                item_id,
                product_id,
                fingerprint,
            } => DomainEvent::CartItemAdded {
                cart_id: *cart_id,
                description: description.clone(),
                image: image.clone(),
                price: *price,
                item_id: *item_id,
                product_id: *product_id,
                fingerprint: fingerprint.clone(),
            },
            DomainEvent::CartItemRemoved { cart_id, item_id } => DomainEvent::CartItemRemoved {
                cart_id: *cart_id,
                item_id: *item_id,
            },
            DomainEvent::CartPublished { cart_id } => DomainEvent::CartPublished {
                cart_id: *cart_id,
            },
            DomainEvent::CartPublicationFailed { cart_id } => DomainEvent::CartPublicationFailed {
                cart_id: *cart_id,
            },
            DomainEvent::CartSubmitted {
                cart_id,
                ordered_product,
                total_price,
            } => DomainEvent::CartSubmitted {
                cart_id: *cart_id,
                ordered_product: copy_ordered_products(ordered_product),
                total_price: *total_price,
            },
            DomainEvent::EmptyEvent => DomainEvent::EmptyEvent,
            DomainEvent::InventoryChanged { product_id, inventory } => {
                DomainEvent::InventoryChanged { product_id: *product_id, inventory: *inventory }
            },
            DomainEvent::ItemArchivedEvent {
                cart_id,
                item_id,
                price_changed_event_id,
            } => DomainEvent::ItemArchivedEvent {
                cart_id: *cart_id,
                item_id: *item_id,
                price_changed_event_id: *price_changed_event_id,
            },
            DomainEvent::PriceChanged {
                product_id,
                old_price,
                new_price,
            } => DomainEvent::PriceChanged {
                product_id: *product_id,
                old_price: *old_price,
                new_price: *new_price,
            },
        }
    }
}

} // verus!
