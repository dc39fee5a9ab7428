use cart_server::domain::cart::{CartId, ItemId, ProductId};
use cart_server::domain::event_store::{ConflictError, StreamFilter, StreamName, StreamQuery};
use cart_server::domain::streams::{
    CartStream, InventoryStream, PricingStream, PublishedStream, SubmittedStream,
};
use cart_server::domain::{DomainEvent, EventStore, Money};

fn created(cart_id: CartId) -> DomainEvent {
    DomainEvent::CartCreated { cart_id }
}

#[test]
fn appended_events_get_increasing_ids_in_the_order_given() {
    let mut store = EventStore::new();
    assert_eq!(store.last_event_id(), 0);
    let (a, b, c) = (CartId::new(), CartId::new(), CartId::new());
    let first = store.append_without_validation(vec![created(a), created(b)]);
    assert_eq!(first.iter().map(|p| p.id).collect::<Vec<_>>(), vec![1, 2]);
    assert_eq!(first[0].event, created(a));
    let second = store.append_without_validation(vec![created(c)]);
    assert_eq!(second[0].id, 3);
    assert!(second[0].id > first[1].id);
    let all = store.stream(&StreamQuery::new(StreamFilter::of(StreamName::All)));
    assert_eq!(all.iter().map(|p| p.id).collect::<Vec<_>>(), vec![1, 2, 3]);
    assert_eq!(all[2].event, created(c));
    assert_eq!(store.len(), 3);
    assert_eq!(all[0].id(), 1);
    assert_eq!(all[0].clone().into_inner(), created(a));
}

#[test]
fn an_append_is_refused_when_the_query_has_seen_a_later_event() {
    let mut store = EventStore::new();
    let (a, b) = (CartId::new(), CartId::new());
    store.append_without_validation(vec![created(a), created(b)]);
    let query_a = StreamQuery::new(StreamFilter::of_cart(StreamName::Cart, a));
    let query_b = StreamQuery::new(StreamFilter::of_cart(StreamName::Cart, b));
    assert_eq!(
        store.append(vec![DomainEvent::CartCleared { cart_id: a }], &query_a, 0),
        Err(ConflictError { conflicting_id: 1 })
    );
    assert_eq!(store.len(), 2);
    let appended = store.append(vec![DomainEvent::CartCleared { cart_id: a }], &query_a, 1).unwrap();
    assert_eq!(appended[0].id, 3);
    // The event of cart a does not conflict with a writer of cart b.
    assert!(store.append(vec![DomainEvent::CartCleared { cart_id: b }], &query_b, 2).is_ok());
    assert_eq!(
        store.append(vec![DomainEvent::CartCleared { cart_id: b }], &query_b, 2),
        Err(ConflictError { conflicting_id: 4 })
    );
}

#[test]
fn queries_filter_by_stream_and_identifier() {
    let mut store = EventStore::new();
    let cart_id = CartId::new();
    let other = CartId::new();
    let item_id = ItemId::new();
    let product_id = ProductId::new();
    store.append_without_validation(vec![
        created(cart_id),
        DomainEvent::CartItemAdded {
            cart_id,
            description: "d".to_owned(),
            image: "i".to_owned(),
            price: Money::new(1, 0),
            item_id,
            product_id,
            fingerprint: "f".to_owned(),
        },
        created(other),
        DomainEvent::PriceChanged { product_id, old_price: Money::zero(), new_price: Money::zero() },
        DomainEvent::InventoryChanged { product_id, inventory: 1 },
        DomainEvent::CartPublished { cart_id },
        DomainEvent::EmptyEvent,
    ]);
    let ids = |query: &StreamQuery| store.stream(query).iter().map(|p| p.id).collect::<Vec<_>>();
    assert_eq!(ids(&StreamQuery::new(StreamFilter::of(StreamName::Cart))), vec![1, 2, 3]);
    assert_eq!(ids(&StreamQuery::new(StreamFilter::of_cart(StreamName::Cart, cart_id))), vec![1, 2]);
    assert_eq!(ids(&StreamQuery::new(StreamFilter::of(StreamName::Pricing))), vec![4]);
    assert_eq!(ids(&StreamQuery::new(StreamFilter::of(StreamName::Inventory))), vec![5]);
    assert_eq!(ids(&StreamQuery::new(StreamFilter::of(StreamName::Published))), vec![6]);
    assert_eq!(ids(&StreamQuery::new(StreamFilter::of(StreamName::Submitted))), Vec::<i64>::new());
    assert_eq!(ids(&StreamQuery::new(StreamFilter::of(StreamName::Empty))), vec![7]);
    let union = StreamQuery::new(StreamFilter::of(StreamName::Cart))
        .union(&StreamQuery::new(StreamFilter::of(StreamName::Pricing)));
    assert_eq!(ids(&union), vec![1, 2, 3, 4]);
    let by_product = StreamQuery::new(StreamFilter {
        stream: StreamName::All,
        cart_id: None,
        item_id: None,
        product_id: Some(product_id),
    });
    assert_eq!(ids(&by_product), vec![2, 4, 5]);
    let by_item = StreamQuery::new(StreamFilter {
        stream: StreamName::All,
        cart_id: None,
        item_id: Some(item_id),
        product_id: None,
    });
    assert_eq!(ids(&by_item), vec![2]);
    assert_eq!(
        store
            .stream_after(&StreamQuery::new(StreamFilter::of(StreamName::Cart)), 1)
            .iter()
            .map(|p| p.id)
            .collect::<Vec<_>>(),
        vec![2, 3]
    );
}

#[test]
fn events_convert_to_their_streams_and_back() {
    let cart_id = CartId::new();
    let product_id = ProductId::new();
    let event = created(cart_id);
    let as_cart = CartStream::try_from(event.clone()).unwrap();
    assert_eq!(as_cart, CartStream::CartCreated { cart_id });
    assert_eq!(as_cart.into_event(), event);
    assert_eq!(PricingStream::try_from(event.clone()), Err(event.clone()));
    assert_eq!(InventoryStream::try_from(event.clone()), Err(event.clone()));
    assert_eq!(SubmittedStream::try_from(event.clone()), Err(event.clone()));
    assert_eq!(PublishedStream::try_from(event.clone()), Err(event.clone()));
    let price = DomainEvent::PriceChanged {
        product_id,
        old_price: Money::new(1, 0),
        new_price: Money::new(2, 0),
    };
    assert_eq!(CartStream::try_from(price.clone()), Err(price.clone()));
    assert_eq!(PricingStream::try_from(price.clone()).unwrap().into_event(), price);
    let inventory = DomainEvent::InventoryChanged { product_id, inventory: 4 };
    assert_eq!(InventoryStream::try_from(inventory.clone()).unwrap().into_event(), inventory);
    let published = DomainEvent::CartPublicationFailed { cart_id };
    assert_eq!(PublishedStream::try_from(published.clone()).unwrap().into_event(), published);
    let submitted =
        DomainEvent::CartSubmitted { cart_id, ordered_product: vec![], total_price: Money::zero() };
    assert_eq!(SubmittedStream::try_from(submitted.clone()).unwrap().into_event(), submitted);
    assert_eq!(submitted.clone(), submitted);
}
