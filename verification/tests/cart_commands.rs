use cart_server::domain::cart::state::mutate_all;
use cart_server::domain::cart::{
    AddItemCommand, AddItemPayload, ArchiveItemCommand, CartError, CartId, ChangeInventoryCommand,
    ChangePriceCommand, ClearCartCommand, ItemId, ProductId, RemoveItemCommand, SubmitCartCommand,
};
use cart_server::domain::{
    default_fingerprint, CartStream, Command, Snapshot, DecisionError, DecisionMaker, DomainEvent, EventStore, Money,
    OrderedProduct,
};
use cart_server::infra::ClientError;

fn given(events: Vec<DomainEvent>) -> EventStore {
    let mut store = EventStore::new();
    store.append_without_validation(events);
    store
}

fn when(store: &mut EventStore, command: Command) -> Result<Vec<DomainEvent>, DecisionError> {
    DecisionMaker::new()
        .make(store, command)
        .map(|persisted| persisted.into_iter().map(|p| p.into_inner()).collect())
}

fn then(store: &mut EventStore, command: Command, expected: Vec<DomainEvent>) {
    assert_eq!(when(store, command), Ok(expected));
}

fn then_err(store: &mut EventStore, command: Command, expected: CartError) {
    assert_eq!(when(store, command), Err(DecisionError::Domain(expected)));
}

fn item_added(cart_id: CartId, item_id: ItemId, product_id: ProductId, price: Money) -> DomainEvent {
    DomainEvent::CartItemAdded {
        cart_id,
        description: "A thing".to_string(),
        image: "images/thing.png".to_string(),
        price,
        item_id,
        product_id,
        fingerprint: "4f3c2b1a-0000-4000-8000-000000000000".to_string(),
    }
}

fn add_item_command(cart_id: CartId) -> AddItemCommand {
    AddItemCommand {
        cart_id,
        description: "Another thing".to_string(),
        image: "images/another.png".to_string(),
        price: Money::new(250, 2),
        item_id: ItemId::new(),
        product_id: ProductId::new(),
        fingerprint: "fingerprint".to_string(),
    }
}

#[test]
fn cart_and_item_should_be_added_if_cart_does_not_exist() {
    let cart_id = CartId::new();
    let description = "Blue mug".to_string();
    let image = "images/mug.png".to_string();
    let price = Money::new(512, 2);
    let item_id = ItemId::new();
    let product_id = ProductId::new();
    let fingerprint = "a-fingerprint".to_string();

    let mut store = given(vec![]);
    then(
        &mut store,
        Command::AddItem(AddItemCommand {
            cart_id,
            description: description.clone(),
            image: image.clone(),
            price,
            item_id,
            product_id,
            fingerprint: fingerprint.clone(),
        }),
        vec![
            DomainEvent::CartCreated { cart_id },
            DomainEvent::CartItemAdded {
                cart_id,
                description,
                image,
                price,
                item_id,
                product_id,
                fingerprint,
            },
        ],
    );
}

#[test]
fn item_should_be_added_if_cart_exists_and_has_space() {
    let cart_id = CartId::new();
    let description = "Red mug".to_string();
    let image = "images/red.png".to_string();
    let price = Money::new(-7, 1);
    let item_id = ItemId::new();
    let product_id = ProductId::new();
    let fingerprint = "a-fingerprint".to_string();

    let mut store = given(vec![DomainEvent::CartCreated { cart_id }]);
    then(
        &mut store,
        Command::AddItem(AddItemCommand {
            cart_id,
            description: description.clone(),
            image: image.clone(),
            price,
            item_id,
            product_id,
            fingerprint: fingerprint.clone(),
        }),
        vec![DomainEvent::CartItemAdded {
            cart_id,
            description,
            image,
            price,
            item_id,
            product_id,
            fingerprint,
        }],
    );
}

#[test]
fn item_should_not_be_added_if_cart_is_full() {
    let cart_id = CartId::new();
    let mut store = given(vec![
        DomainEvent::CartCreated { cart_id },
        item_added(cart_id, ItemId::new(), ProductId::new(), Money::new(100, 2)),
        item_added(cart_id, ItemId::new(), ProductId::new(), Money::new(200, 2)),
        item_added(cart_id, ItemId::new(), ProductId::new(), Money::new(300, 2)),
    ]);
    then_err(
        &mut store,
        Command::AddItem(add_item_command(cart_id)),
        CartError::CannotAddItemCartFull,
    );
}

#[test]
fn item_should_be_archived_if_cart_exists_and_has_item() {
    let cart_id = CartId::new();
    let item_id = ItemId::new();
    let mut store = given(vec![
        DomainEvent::CartCreated { cart_id },
        item_added(cart_id, item_id, ProductId::new(), Money::new(100, 2)),
    ]);
    then(
        &mut store,
        Command::ArchiveItem(ArchiveItemCommand { cart_id, item_id, price_changed_event_id: 10 }),
        vec![DomainEvent::ItemArchivedEvent { cart_id, item_id, price_changed_event_id: 10 }],
    );
}

#[test]
fn nothing_should_happen_if_archive_has_been_processed_prevously() {
    let cart_id = CartId::new();
    let item_id = ItemId::new();
    let mut store = given(vec![
        DomainEvent::CartCreated { cart_id },
        item_added(cart_id, item_id, ProductId::new(), Money::new(100, 2)),
        DomainEvent::ItemArchivedEvent { cart_id, item_id, price_changed_event_id: 1 },
    ]);
    then(
        &mut store,
        Command::ArchiveItem(ArchiveItemCommand { cart_id, item_id, price_changed_event_id: 1 }),
        vec![],
    );
}

#[test]
fn nothing_should_happen_if_cart_does_not_exist() {
    let cart_id = CartId::new();
    let mut store = given(vec![]);
    then(
        &mut store,
        Command::ArchiveItem(ArchiveItemCommand {
            cart_id,
            item_id: ItemId::new(),
            price_changed_event_id: 1,
        }),
        vec![],
    );
}

#[test]
fn inventory_changed_event_should_be_created() {
    let product_id = ProductId::new();
    let inventory: i32 = -42;
    let mut store = given(vec![]);
    then(
        &mut store,
        Command::ChangeInventory(ChangeInventoryCommand { product_id, inventory }),
        vec![DomainEvent::InventoryChanged { product_id, inventory }],
    );
}

#[test]
fn price_changed_event_should_be_created() {
    let product_id = ProductId::new();
    let old_price = Money::new(150, 2);
    let new_price = Money::new(999, 2);
    let mut store = given(vec![]);
    then(
        &mut store,
        Command::ChangePrice(ChangePriceCommand { product_id, old_price, new_price }),
        vec![DomainEvent::PriceChanged { product_id, old_price, new_price }],
    );
}

#[test]
fn cart_should_be_cleared_if_cart_exists() {
    let cart_id = CartId::new();
    let mut store = given(vec![
        DomainEvent::CartCreated { cart_id },
        item_added(cart_id, ItemId::new(), ProductId::new(), Money::new(100, 2)),
    ]);
    then(
        &mut store,
        Command::ClearCart(ClearCartCommand { cart_id }),
        vec![DomainEvent::CartCleared { cart_id }],
    );
}

#[test]
fn should_error_if_cart_does_not_exist() {
    let cart_id = CartId::new();
    let mut store = given(vec![]);
    then_err(
        &mut store,
        Command::ClearCart(ClearCartCommand { cart_id }),
        CartError::CartDoesNotExist(cart_id),
    );
}

#[test]
fn item_should_be_removed_if_cart_exists_and_has_item() {
    let cart_id = CartId::new();
    let item_id = ItemId::new();
    let mut added = item_added(cart_id, item_id, ProductId::new(), Money::new(100, 2));
    if let DomainEvent::CartItemAdded { fingerprint, .. } = &mut added {
        *fingerprint = default_fingerprint();
    }
    let mut store = given(vec![DomainEvent::CartCreated { cart_id }, added]);
    then(
        &mut store,
        Command::RemoveItem(RemoveItemCommand { cart_id, item_id }),
        vec![DomainEvent::CartItemRemoved { cart_id, item_id }],
    );
}

#[test]
fn item_should_not_be_removed_if_item_does_not_exist() {
    let cart_id = CartId::new();
    let item_id = ItemId::new();
    let mut store = given(vec![
        DomainEvent::CartCreated { cart_id },
        item_added(cart_id, ItemId::new(), ProductId::new(), Money::new(100, 2)),
    ]);
    then_err(
        &mut store,
        Command::RemoveItem(RemoveItemCommand { cart_id, item_id }),
        CartError::CannotRemoveItem,
    );
}

#[test]
fn item_should_not_be_removed_if_cart_does_not_exist() {
    let cart_id = CartId::new();
    let mut store = given(vec![]);
    then_err(
        &mut store,
        Command::RemoveItem(RemoveItemCommand { cart_id, item_id: ItemId::new() }),
        CartError::CartDoesNotExist(cart_id),
    );
}

#[test]
fn should_not_submit_if_cart_does_not_exist() {
    let cart_id = CartId::new();
    let mut store = given(vec![]);
    then_err(
        &mut store,
        Command::SubmitCart(SubmitCartCommand { cart_id }),
        CartError::CartDoesNotExist(cart_id),
    );
}

#[test]
fn should_not_submit_if_cart_is_empty() {
    let cart_id = CartId::new();
    let mut store = given(vec![DomainEvent::CartCreated { cart_id }]);
    then_err(
        &mut store,
        Command::SubmitCart(SubmitCartCommand { cart_id }),
        CartError::CannotSubmitEmptyCart,
    );
}

#[test]
fn cart_should_be_submitted() {
    let cart_id = CartId::new();
    let product_id = ProductId::new();
    let price = Money::new(731, 2);
    let mut store = given(vec![
        DomainEvent::CartCreated { cart_id },
        item_added(cart_id, ItemId::new(), product_id, price),
    ]);
    then(
        &mut store,
        Command::SubmitCart(SubmitCartCommand { cart_id }),
        vec![DomainEvent::CartSubmitted {
            cart_id,
            ordered_product: vec![OrderedProduct { product_id, price }],
            total_price: price,
        }],
    );
}

#[test]
fn cart_should_not_be_submitted_twice() {
    let cart_id = CartId::new();
    let product_id = ProductId::new();
    let price = Money::new(731, 2);
    let mut store = given(vec![
        DomainEvent::CartCreated { cart_id },
        item_added(cart_id, ItemId::new(), product_id, price),
        DomainEvent::CartSubmitted {
            cart_id,
            ordered_product: vec![OrderedProduct { product_id, price }],
            total_price: price,
        },
    ]);
    then_err(
        &mut store,
        Command::SubmitCart(SubmitCartCommand { cart_id }),
        CartError::CannotSubmitCartTwice,
    );
}

#[test]
fn add_then_submit_appends_created_added_submitted() {
    let cart_id = CartId::new();
    let item_id = ItemId::new();
    let product_id = ProductId::new();
    let price = Money::new(1000, 2);
    let command = AddItemCommand {
        cart_id,
        description: "Ten".to_string(),
        image: "ten.png".to_string(),
        price,
        item_id,
        product_id,
        fingerprint: "f".to_string(),
    };
    let mut store = given(vec![]);
    let added = when(&mut store, Command::AddItem(command)).unwrap();
    let submitted = when(&mut store, Command::SubmitCart(SubmitCartCommand { cart_id })).unwrap();
    let mut all = added;
    all.extend(submitted);
    assert_eq!(
        all,
        vec![
            DomainEvent::CartCreated { cart_id },
            DomainEvent::CartItemAdded {
                cart_id,
                description: "Ten".to_string(),
                image: "ten.png".to_string(),
                price,
                item_id,
                product_id,
                fingerprint: "f".to_string(),
            },
            DomainEvent::CartSubmitted {
                cart_id,
                ordered_product: vec![OrderedProduct { product_id, price }],
                total_price: Money::new(1000, 2),
            },
        ]
    );
    assert_eq!(store.last_event_id(), 3);
}

#[test]
fn removing_after_submission_is_rejected() {
    let cart_id = CartId::new();
    let item_id = ItemId::new();
    let product_id = ProductId::new();
    let price = Money::new(100, 2);
    let mut store = given(vec![
        DomainEvent::CartCreated { cart_id },
        item_added(cart_id, item_id, product_id, price),
        DomainEvent::CartSubmitted {
            cart_id,
            ordered_product: vec![OrderedProduct { product_id, price }],
            total_price: price,
        },
    ]);
    then_err(
        &mut store,
        Command::RemoveItem(RemoveItemCommand { cart_id, item_id }),
        CartError::CartCannotBeAltered,
    );
}

#[test]
fn every_cart_command_is_rejected_after_submission() {
    let cart_id = CartId::new();
    let item_id = ItemId::new();
    let product_id = ProductId::new();
    let price = Money::new(100, 2);
    let mut store = given(vec![
        DomainEvent::CartCreated { cart_id },
        item_added(cart_id, item_id, product_id, price),
        DomainEvent::CartSubmitted {
            cart_id,
            ordered_product: vec![OrderedProduct { product_id, price }],
            total_price: price,
        },
    ]);
    then_err(&mut store, Command::AddItem(add_item_command(cart_id)), CartError::CartCannotBeAltered);
    then_err(
        &mut store,
        Command::ClearCart(ClearCartCommand { cart_id }),
        CartError::CartCannotBeAltered,
    );
    then_err(
        &mut store,
        Command::ArchiveItem(ArchiveItemCommand { cart_id, item_id, price_changed_event_id: 9 }),
        CartError::CartCannotBeAltered,
    );
    then_err(
        &mut store,
        Command::SubmitCart(SubmitCartCommand { cart_id }),
        CartError::CannotSubmitCartTwice,
    );
    assert_eq!(store.len(), 3);
}

#[test]
fn a_cart_takes_a_fourth_item_only_after_one_left() {
    let cart_id = CartId::new();
    let mut store = given(vec![]);
    let first = add_item_command(cart_id);
    let first_item = first.item_id;
    assert!(when(&mut store, Command::AddItem(first)).is_ok());
    assert!(when(&mut store, Command::AddItem(add_item_command(cart_id))).is_ok());
    assert!(when(&mut store, Command::AddItem(add_item_command(cart_id))).is_ok());
    then_err(
        &mut store,
        Command::AddItem(add_item_command(cart_id)),
        CartError::CannotAddItemCartFull,
    );
    assert!(when(
        &mut store,
        Command::RemoveItem(RemoveItemCommand { cart_id, item_id: first_item })
    )
    .is_ok());
    assert!(when(&mut store, Command::AddItem(add_item_command(cart_id))).is_ok());
    then_err(
        &mut store,
        Command::AddItem(add_item_command(cart_id)),
        CartError::CannotAddItemCartFull,
    );
}

#[test]
fn submitted_cart_lists_items_in_the_order_they_were_added() {
    let cart_id = CartId::new();
    let (p1, p2, p3) = (ProductId::new(), ProductId::new(), ProductId::new());
    let mut store = given(vec![
        DomainEvent::CartCreated { cart_id },
        item_added(cart_id, ItemId::new(), p1, Money::new(150, 2)),
        item_added(cart_id, ItemId::new(), p2, Money::new(25, 1)),
        item_added(cart_id, ItemId::new(), p3, Money::new(3, 0)),
    ]);
    then(
        &mut store,
        Command::SubmitCart(SubmitCartCommand { cart_id }),
        vec![DomainEvent::CartSubmitted {
            cart_id,
            ordered_product: vec![
                OrderedProduct { product_id: p1, price: Money::new(150, 2) },
                OrderedProduct { product_id: p2, price: Money::new(25, 1) },
                OrderedProduct { product_id: p3, price: Money::new(3, 0) },
            ],
            total_price: Money::new(700, 2),
        }],
    );
}

#[test]
fn a_history_that_cannot_be_folded_is_a_state_store_error() {
    let cart_id = CartId::new();
    let mut store = given(vec![
        DomainEvent::CartCreated { cart_id },
        DomainEvent::CartItemRemoved { cart_id, item_id: ItemId::new() },
    ]);
    let result = when(&mut store, Command::AddItem(add_item_command(cart_id)));
    assert!(matches!(result, Err(DecisionError::StateStore(_))));
    assert_eq!(store.len(), 2);
}

#[test]
fn a_payload_with_a_version_4_identifier_is_refused() {
    let v7 = uuid::Uuid::now_v7().as_u128();
    let v4 = uuid::Uuid::new_v4();
    let payload = AddItemPayload {
        cart_id: v7,
        description: "d".to_string(),
        image: "i".to_string(),
        price: Money::new(1, 0),
        item_id: v4.as_u128(),
        product_id: v7,
    };
    match AddItemCommand::try_from(payload) {
        Err(ClientError::Payload(message)) => assert_eq!(
            message,
            format!("Uuid {} is not compatible. Version 7 Uuid is required.", v4)
        ),
        other => panic!("unexpected {:?}", other),
    }
}

#[test]
fn a_payload_with_version_7_identifiers_becomes_a_command() {
    let cart = uuid::Uuid::now_v7().as_u128();
    let item = uuid::Uuid::now_v7().as_u128();
    let product = uuid::Uuid::now_v7().as_u128();
    let payload = AddItemPayload {
        cart_id: cart,
        description: "d".to_string(),
        image: "i".to_string(),
        price: Money::new(1, 0),
        item_id: item,
        product_id: product,
    };
    let command = AddItemCommand::try_from(payload).unwrap();
    assert_eq!(command.cart_id, CartId(cart));
    assert_eq!(command.item_id, ItemId(item));
    assert_eq!(command.product_id, ProductId(product));
    assert_eq!(command.fingerprint, "");
    assert_eq!(command.description, "d");
}

#[test]
fn cart_error_messages() {
    let id = uuid::Uuid::now_v7();
    let cart_id = CartId(id.as_u128());
    assert_eq!(
        CartError::CartDoesNotExist(cart_id).to_string(),
        format!("Cart with ID {} does not exist.", id)
    );
    assert_eq!(CartError::IdConsumed(cart_id).to_string(), format!("CartID {} is not unique.", id));
    assert_eq!(
        CartError::CannotAddItemCartFull.to_string(),
        "Cannot add item. Cart is full (max 3 items)."
    );
    assert_eq!(CartError::CannotRemoveItem.to_string(), "Cannot remove item. Item not in cart.");
    assert_eq!(CartError::CannotSubmitEmptyCart.to_string(), "Cannot submit an empty cart.");
    assert_eq!(CartError::CannotSubmitCartTwice.to_string(), "Cannot submit cart twice.");
    assert_eq!(
        CartError::CartCannotBeAltered.to_string(),
        "Cart has been submitted. Cannot be altered."
    );
}

#[test]
fn folding_the_history_anew_gives_the_state_folded_step_by_step() {
    let cart_id = CartId::new();
    let item_id = ItemId::new();
    let to_cart = |event: DomainEvent| CartStream::try_from(event).unwrap();
    let log = vec![
        DomainEvent::CartCreated { cart_id },
        item_added(cart_id, item_id, ProductId::new(), Money::new(100, 2)),
        item_added(cart_id, ItemId::new(), ProductId::new(), Money::new(200, 2)),
    ];
    let appended = vec![DomainEvent::CartItemRemoved { cart_id, item_id }];
    let command = add_item_command(cart_id);

    let mut in_hand = command.state_query();
    assert!(mutate_all(&mut in_hand, log.iter().cloned().map(to_cart).collect()));
    assert_eq!(in_hand.item_count, 2);
    assert!(mutate_all(&mut in_hand, appended.iter().cloned().map(to_cart).collect()));

    let mut anew = command.state_query();
    let whole: Vec<CartStream> = log.into_iter().chain(appended).map(to_cart).collect();
    assert!(mutate_all(&mut anew, whole));
    assert_eq!(anew, in_hand);
    assert_eq!(anew.item_count, 1);
    assert!(anew.cart_exists);
    assert!(!anew.submitted);

    let mut empty = command.state_query();
    assert!(!mutate_all(&mut empty, vec![to_cart(DomainEvent::CartItemRemoved { cart_id, item_id })]));
}

#[test]
fn a_snapshot_brought_up_to_the_log_is_the_state_folded_from_the_start() {
    let cart_id = CartId::new();
    let other = CartId::new();
    let decider = DecisionMaker::new();
    let mut store = given(vec![]);
    decider.make(&mut store, Command::AddItem(add_item_command(cart_id))).unwrap();
    decider.make(&mut store, Command::AddItem(add_item_command(other))).unwrap();

    let command = SubmitCartCommand { cart_id };
    let mut snapshot = Snapshot { version: 0, applied_events: 0, state: command.state_query() };
    assert!(DecisionMaker::resume(&store, cart_id, &mut snapshot));
    assert_eq!(snapshot.version, 2);
    assert_eq!(snapshot.applied_events, 2);
    assert_eq!(snapshot.state.item_count, 1);
    assert!(!DecisionMaker::is_stale(&snapshot));

    decider.make(&mut store, Command::AddItem(add_item_command(cart_id))).unwrap();
    decider.make(&mut store, Command::ClearCart(ClearCartCommand { cart_id: other })).unwrap();
    assert!(DecisionMaker::resume(&store, cart_id, &mut snapshot));
    assert_eq!(snapshot.version, 5);
    assert_eq!(snapshot.applied_events, 3);

    let mut fresh = Snapshot { version: 0, applied_events: 0, state: command.state_query() };
    assert!(DecisionMaker::resume(&store, cart_id, &mut fresh));
    assert_eq!(fresh.state, snapshot.state);
    assert_eq!(fresh.version, snapshot.version);
    assert_eq!(snapshot.state.item_count, 2);

    // Nothing new: the snapshot stays where it is.
    assert!(DecisionMaker::resume(&store, cart_id, &mut snapshot));
    assert_eq!(snapshot.version, 5);
    snapshot.applied_events = 100;
    assert!(DecisionMaker::is_stale(&snapshot));
}
