use cart_server::domain::cart::{
    apply_event, cart_items_from_db_endpoint, cart_items_read_model, try_apply_event,
    AddItemCommand, CartId, CartItem, CartItemsError, CartItemsReadModel,
    CartItemsReadModelProjection, CartsWithProductsReadModel,
    CartsWithProductsReadModelProjection, ChangeInventoryCommand, InventoriesReadModel,
    InventoriesReadModelProjection, ItemId, ProductId, RemoveItemCommand,
};
use cart_server::domain::{
    CartStream, Command, DecisionMaker, DomainEvent, EventStore, Money, PersistedEvent,
};

fn add_item_command(cart_id: CartId, item_id: ItemId, product_id: ProductId, cents: i64) -> AddItemCommand {
    AddItemCommand {
        cart_id,
        description: format!("item {}", cents),
        image: format!("images/{}.png", cents),
        price: Money::new(cents, 2),
        item_id,
        product_id,
        fingerprint: "fingerprint".to_string(),
    }
}

fn cart_item_from_command(command: &AddItemCommand) -> CartItem {
    CartItem {
        cart_id: command.cart_id,
        description: command.description.clone(),
        image: command.image.clone(),
        price: command.price,
        item_id: command.item_id,
        product_id: command.product_id,
        fingerprint: command.fingerprint.clone(),
    }
}

fn cart_item_from_event(event: &CartStream) -> CartItem {
    if let CartStream::CartItemAdded {
        cart_id,
        description,
        image,
        price,
        item_id,
        product_id,
        fingerprint,
    } = event.clone()
    {
        CartItem { cart_id, description, image, price, item_id, product_id, fingerprint }
    } else {
        panic!("Event not a CartItemAdded event!")
    }
}

fn added(cart_id: CartId, item_id: ItemId, cents: i64) -> CartStream {
    CartStream::CartItemAdded {
        cart_id,
        description: format!("item {}", cents),
        image: format!("images/{}.png", cents),
        price: Money::new(cents, 2),
        item_id,
        product_id: ProductId::new(),
        fingerprint: "fingerprint".to_string(),
    }
}

#[test]
fn given_events_then_cart_items_read_model() {
    let cart_id = CartId::new();
    let item2_id = ItemId::new();
    let price1 = Money::new(150, 2);
    let price3 = Money::new(275, 2);
    let events = [
        CartStream::CartCreated { cart_id },
        added(cart_id, ItemId::new(), 150),
        added(cart_id, item2_id, 999),
        added(cart_id, ItemId::new(), 275),
        CartStream::CartItemRemoved { cart_id, item_id: item2_id },
    ];

    let expected_read_model = Some(CartItemsReadModel {
        cart_id,
        total_price: price1.checked_add(price3).unwrap(),
        data: vec![cart_item_from_event(&events[1]), cart_item_from_event(&events[3])],
    });

    let read_model = events.into_iter().fold(None, apply_event);

    assert_eq!(read_model, expected_read_model);
    assert_eq!(read_model.unwrap().total_price, Money::new(425, 2));
}

#[test]
fn cart_items_cart_items_read_model_test() {
    let mut store = EventStore::new();
    let decider = DecisionMaker::new();
    let cart_id = CartId::new();

    let add_item1_cmd = add_item_command(cart_id, ItemId::new(), ProductId::new(), 150);
    decider.make(&mut store, Command::AddItem(add_item1_cmd.clone())).expect("Add item 1 should succeed.");

    let item_id_to_remove = ItemId::new();
    let add_item2_cmd = add_item_command(cart_id, item_id_to_remove, ProductId::new(), 999);
    decider.make(&mut store, Command::AddItem(add_item2_cmd)).expect("Add item 2 should succeed.");

    let add_item3_cmd = add_item_command(cart_id, ItemId::new(), ProductId::new(), 275);
    decider.make(&mut store, Command::AddItem(add_item3_cmd.clone())).expect("Add item 3 should succeed.");

    decider
        .make(&mut store, Command::RemoveItem(RemoveItemCommand { cart_id, item_id: item_id_to_remove }))
        .expect("Removing item 2 should succeed.");

    let expected_read_model = Some(CartItemsReadModel {
        cart_id,
        total_price: Money::new(425, 2),
        data: vec![cart_item_from_command(&add_item1_cmd), cart_item_from_command(&add_item3_cmd)],
    });

    let read_model = cart_items_read_model(&store, &cart_id)
        .expect("Cart Items readmodel should have been read.");

    assert_eq!(read_model, expected_read_model);
}

#[test]
fn cart_items_from_db_cart_items_read_model_test() {
    let mut store = EventStore::new();
    let decider = DecisionMaker::new();
    let cart_id = CartId::new();
    let mut persisted_events: Vec<PersistedEvent> = Vec::new();

    let add_item1_cmd = add_item_command(cart_id, ItemId::new(), ProductId::new(), 150);
    persisted_events.extend(
        decider.make(&mut store, Command::AddItem(add_item1_cmd.clone())).expect("Add item 1 should succeed."),
    );
    let item_id_to_remove = ItemId::new();
    let add_item2_cmd = add_item_command(cart_id, item_id_to_remove, ProductId::new(), 999);
    persisted_events.extend(
        decider.make(&mut store, Command::AddItem(add_item2_cmd)).expect("Add item 2 should succeed."),
    );
    let add_item3_cmd = add_item_command(cart_id, ItemId::new(), ProductId::new(), 275);
    persisted_events.extend(
        decider.make(&mut store, Command::AddItem(add_item3_cmd.clone())).expect("Add item 3 should succeed."),
    );
    persisted_events.extend(
        decider
            .make(&mut store, Command::RemoveItem(RemoveItemCommand { cart_id, item_id: item_id_to_remove }))
            .expect("Removing item 2 should succeed."),
    );

    let expected_read_model = Some(CartItemsReadModel {
        cart_id,
        total_price: Money::new(425, 2),
        data: vec![cart_item_from_command(&add_item1_cmd), cart_item_from_command(&add_item3_cmd)],
    });

    let mut projection = CartItemsReadModelProjection::new();
    for event in &persisted_events {
        projection.handle(event);
    }

    let read_model = projection
        .cart_items_from_db_read_model(&cart_id)
        .expect("Cart Items readmodel should have been read.");

    assert_eq!(read_model, expected_read_model);
}

#[test]
fn carts_with_products_read_model_test() {
    let mut store = EventStore::new();
    let decider = DecisionMaker::new();
    let mut projection = CartsWithProductsReadModelProjection::new();

    let cart_id = CartId::new();
    let product_id = ProductId::new();
    let item_id1 = ItemId::new();
    let item_id2 = ItemId::new();
    let item_id3 = ItemId::new();

    let commands = [
        add_item_command(cart_id, item_id1, product_id, 100),
        add_item_command(cart_id, item_id2, product_id, 200),
        add_item_command(cart_id, item_id3, product_id, 300),
    ];
    let remove_item2_cmd = RemoveItemCommand { cart_id, item_id: item_id2 };

    let mut persisted_events: Vec<PersistedEvent> = Vec::new();
    for command in commands {
        persisted_events
            .extend(decider.make(&mut store, Command::AddItem(command)).expect("Command should be successful."));
    }
    persisted_events.extend(
        decider
            .make(&mut store, Command::RemoveItem(remove_item2_cmd))
            .expect("Removing item 2 should succeed."),
    );

    for event in &persisted_events {
        let commands = projection.handle(event);
        assert!(commands.is_empty());
    }

    let expected_read_model = [
        CartsWithProductsReadModel { cart_id, item_id: item_id1, product_id },
        CartsWithProductsReadModel { cart_id, item_id: item_id3, product_id },
    ];

    let read_model = projection.find_by_product_id(&product_id);

    assert_eq!(read_model.len(), expected_read_model.len());
    assert!(read_model.contains(&expected_read_model[0]));
    assert!(read_model.contains(&expected_read_model[1]));
}

#[test]
fn it_finds_the_inventory_we_have_updated() {
    let mut store = EventStore::new();
    let decider = DecisionMaker::new();
    let mut projection = InventoriesReadModelProjection::new();

    let product_id = ProductId::new();
    let expected_inventory = 731;

    let commands = [
        ChangeInventoryCommand { product_id, inventory: 12 },
        ChangeInventoryCommand { product_id: ProductId::new(), inventory: 1000 },
        ChangeInventoryCommand { product_id, inventory: expected_inventory },
    ];
    for command in commands {
        let events =
            decider.make(&mut store, Command::ChangeInventory(command)).expect("Command should be successful.");
        for event in &events {
            projection.handle(event);
        }
    }

    let expected_inventory = InventoriesReadModel { product_id, inventory: expected_inventory };
    let found_inventory = projection.find_by_id(&product_id).unwrap();

    assert_eq!(expected_inventory, found_inventory);
    assert_eq!(projection.find_by_id(&ProductId::new()), None);
}

#[test]
fn an_event_delivered_twice_changes_nothing_the_second_time() {
    let cart_id = CartId::new();
    let item_id = ItemId::new();
    let product_id = ProductId::new();
    let added = PersistedEvent {
        id: 5,
        event: DomainEvent::CartItemAdded {
            cart_id,
            description: "d".to_string(),
            image: "i".to_string(),
            price: Money::new(100, 2),
            item_id,
            product_id,
            fingerprint: "f".to_string(),
        },
    };
    let mut index = CartsWithProductsReadModelProjection::new();
    index.handle(&added);
    let once = index.find_by_product_id(&product_id);
    index.handle(&added);
    assert_eq!(index.find_by_product_id(&product_id), once);
    assert_eq!(index.len(), 1);

    let mut items = CartItemsReadModelProjection::new();
    items.handle(&PersistedEvent { id: 4, event: DomainEvent::CartCreated { cart_id } });
    items.handle(&added);
    let once = items.cart_items_from_db_read_model(&cart_id);
    items.handle(&PersistedEvent { id: 4, event: DomainEvent::CartCreated { cart_id } });
    items.handle(&added);
    assert_eq!(items.cart_items_from_db_read_model(&cart_id), once);
    assert_eq!(once.unwrap().unwrap().data.len(), 1);
}

#[test]
fn an_older_event_does_not_overwrite_a_newer_row() {
    let product_id = ProductId::new();
    let mut projection = InventoriesReadModelProjection::new();
    projection.handle(&PersistedEvent {
        id: 9,
        event: DomainEvent::InventoryChanged { product_id, inventory: 90 },
    });
    projection.handle(&PersistedEvent {
        id: 3,
        event: DomainEvent::InventoryChanged { product_id, inventory: 30 },
    });
    assert_eq!(
        projection.find_by_id(&product_id),
        Some(InventoriesReadModel { product_id, inventory: 90 })
    );
    projection.handle(&PersistedEvent {
        id: 10,
        event: DomainEvent::InventoryChanged { product_id, inventory: 100 },
    });
    assert_eq!(
        projection.find_by_id(&product_id),
        Some(InventoriesReadModel { product_id, inventory: 100 })
    );
}

#[test]
fn a_removal_does_not_delete_a_row_written_by_a_later_event() {
    let cart_id = CartId::new();
    let item_id = ItemId::new();
    let product_id = ProductId::new();
    let mut index = CartsWithProductsReadModelProjection::new();
    index.handle(&PersistedEvent {
        id: 8,
        event: DomainEvent::CartItemAdded {
            cart_id,
            description: "d".to_string(),
            image: "i".to_string(),
            price: Money::new(100, 2),
            item_id,
            product_id,
            fingerprint: "f".to_string(),
        },
    });
    index.handle(&PersistedEvent { id: 8, event: DomainEvent::CartItemRemoved { cart_id, item_id } });
    assert_eq!(index.len(), 1);
    index.handle(&PersistedEvent { id: 7, event: DomainEvent::CartCleared { cart_id } });
    assert_eq!(index.len(), 1);
    index.handle(&PersistedEvent { id: 9, event: DomainEvent::CartItemRemoved { cart_id, item_id } });
    assert_eq!(index.len(), 0);
}

#[test]
fn the_first_event_of_a_cart_must_create_it() {
    let cart_id = CartId::new();
    assert_eq!(
        try_apply_event(None, CartStream::CartCleared { cart_id }),
        Err(CartItemsError::FirstEventNotCartCreated)
    );
    let created = try_apply_event(None, CartStream::CartCreated { cart_id }).unwrap();
    assert_eq!(created, Some(CartItemsReadModel::new(cart_id)));
    assert_eq!(
        try_apply_event(created, CartStream::CartCreated { cart_id }),
        Err(CartItemsError::CartCreatedTwice)
    );
}

#[test]
fn a_total_that_overflows_is_reported() {
    let cart_id = CartId::new();
    let huge = Money::try_from_parts(0xFFFF_FFFF_FFFF_FFFF_FFFF_FFFF, 0).unwrap();
    let model = Some(CartItemsReadModel { cart_id, total_price: huge, data: vec![] });
    assert_eq!(
        try_apply_event(model, added(cart_id, ItemId::new(), 100)),
        Err(CartItemsError::TotalOverflow)
    );
}

#[test]
fn clearing_a_cart_empties_the_read_model() {
    let cart_id = CartId::new();
    let events = [
        CartStream::CartCreated { cart_id },
        added(cart_id, ItemId::new(), 150),
        CartStream::CartCleared { cart_id },
    ];
    let read_model = events.into_iter().fold(None, apply_event);
    assert_eq!(read_model, Some(CartItemsReadModel::new(cart_id)));
}

#[test]
fn a_cart_unknown_to_the_table_does_not_exist() {
    let projection = CartItemsReadModelProjection::new();
    let cart = uuid::Uuid::now_v7().as_u128();
    assert!(cart_items_from_db_endpoint(&projection, cart).is_err());
    assert_eq!(projection.cart_items_from_db_read_model(&CartId(cart)), Ok(None));
}
