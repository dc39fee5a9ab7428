use cart_server::domain::cart::{
    add_item_endpoint, archive_product_processor, cart_items_endpoint, carts_with_products_endpoint, change_price_endpoint,
    clear_cart_endpoint, inventories_endpoint, last_of_ids, publish_cart_processor,
    remove_item_endpoint,
    submit_cart_endpoint, AddItemPayload, CartError, CartId, ChangePricePayload,
    ExternalPublishCart, ItemId, PublishCartProcessorArgs,
    RemoveItemPayload, SubmitCartCommand, SubmitCartPayload,
};
use cart_server::domain::event_store::{StreamFilter, StreamName, StreamQuery};
use cart_server::domain::helpers::{Publication, PublishError, PublishStep};
use cart_server::domain::{
    Command, DecisionError, DecisionMaker, DomainEvent, EventStore, Money, PersistedEvent,
};
use cart_server::infra::ClientError;
use cart_server::subsystems::work_queue::subsystem::{handle_task, SettleError, TaskHandling};
use cart_server::subsystems::work_queue::QueueError;
use cart_server::subsystems::work_queue::{Task, TaskDomainArgs, TaskId, TaskStatus, WorkQueue};
use cart_server::subsystems::{health_check_endpoint, EventListeners, WorkQueueSubsystem};

fn v7() -> u128 {
    uuid::Uuid::now_v7().as_u128()
}

fn payload(cart_id: u128, item_id: u128, product_id: u128, cents: i64) -> AddItemPayload {
    AddItemPayload {
        cart_id,
        description: "thing".to_owned(),
        image: "thing.png".to_owned(),
        price: Money::new(cents, 2),
        item_id,
        product_id,
    }
}

#[test]
fn the_webserver_responds_to_a_simple_get_request() {
    assert_eq!(health_check_endpoint(), "Ok");
}

#[test]
fn it_correctly_archives_items_from_carts() {
    let mut store = EventStore::new();
    let decider = DecisionMaker::new();
    let mut queue = WorkQueue::new();
    let mut listeners = EventListeners::new();

    let cart_count = 5;
    let product_id = v7();
    let mut holders: Vec<(u128, u128)> = Vec::new();
    for _ in 0..cart_count {
        let cart_id = v7();
        let item_id = v7();
        add_item_endpoint(&decider, &mut store, cart_id, payload(cart_id, item_id, product_id, 500))
            .expect("AddItem command should be successful.");
        add_item_endpoint(&decider, &mut store, cart_id, payload(cart_id, v7(), v7(), 100))
            .expect("AddItem command should be successful.");
        add_item_endpoint(&decider, &mut store, cart_id, payload(cart_id, v7(), v7(), 200))
            .expect("AddItem command should be successful.");
        holders.push((cart_id, item_id));
    }
    listeners.run(&decider, &mut store, &mut queue).unwrap();
    assert_eq!(
        carts_with_products_endpoint(&listeners.carts_with_products, product_id).unwrap().len(),
        cart_count
    );

    let change = ChangePricePayload {
        product_id,
        new_price: Money::new(600, 2),
        old_price: Money::new(500, 2),
    };
    let (_, price_changed_id) = change_price_endpoint(&decider, &mut store, product_id, change)
        .expect("ChangePrice cmmand should be successful.");

    // The first run archives, the second takes in the archival.
    listeners.run(&decider, &mut store, &mut queue).unwrap();
    listeners.run(&decider, &mut store, &mut queue).unwrap();

    let product_has_been_archived =
        carts_with_products_endpoint(&listeners.carts_with_products, product_id).unwrap().is_empty();
    assert!(product_has_been_archived, "Product has been archived.");

    for (cart_id, item_id) in holders {
        let events = store.stream(&StreamQuery::new(StreamFilter::of_cart(
            StreamName::Cart,
            CartId(cart_id),
        )));
        assert!(events.iter().any(|p| p.event
            == DomainEvent::ItemArchivedEvent {
                cart_id: CartId(cart_id),
                item_id: ItemId(item_id),
                price_changed_event_id: price_changed_id,
            }));
        let read_model = listeners
            .cart_items
            .cart_items_from_db_read_model(&CartId(cart_id))
            .unwrap()
            .unwrap();
        assert_eq!(read_model.data.len(), 2);
        assert!(read_model.data.iter().all(|item| item.item_id != ItemId(item_id)));
        assert_eq!(read_model.total_price, Money::new(300, 2));
        let live = cart_items_endpoint(&store, cart_id).unwrap();
        assert_eq!(live.data, read_model.data);
    }
}

#[test]
fn it_resets_cart_items_read_model() {
    let mut store = EventStore::new();
    let decider = DecisionMaker::new();
    let mut queue = WorkQueue::new();
    let mut listeners = EventListeners::new();

    let cart_id = v7();
    let kept = v7();
    let removed = v7();
    add_item_endpoint(&decider, &mut store, cart_id, payload(cart_id, kept, v7(), 500))
        .expect("AddItem command should be successful.");
    listeners.run(&decider, &mut store, &mut queue).unwrap();
    add_item_endpoint(&decider, &mut store, cart_id, payload(cart_id, removed, v7(), 100))
        .expect("AddItem command should be successful.");
    remove_item_endpoint(
        &decider,
        &mut store,
        cart_id,
        RemoveItemPayload { cart_id, item_id: removed },
    )
    .unwrap();
    listeners.run(&decider, &mut store, &mut queue).unwrap();
    let incremental = listeners.cart_items.cart_items_from_db_read_model(&CartId(cart_id));
    assert_eq!(incremental.as_ref().unwrap().as_ref().unwrap().data.len(), 1);

    let cursor = listeners.cart_items.cart_items_from_db_read_model_reset();
    assert_eq!(cursor, 0);
    listeners.cursors.cart_items = cursor;
    let emptied = listeners.cart_items.cart_items_from_db_read_model(&CartId(cart_id)).unwrap().unwrap();
    assert!(emptied.data.is_empty());

    listeners.run(&decider, &mut store, &mut queue).unwrap();
    let rebuilt = listeners.cart_items.cart_items_from_db_read_model(&CartId(cart_id));
    assert_eq!(rebuilt, incremental);
    assert_eq!(listeners.cursors.cart_items, store.last_event_id());
}

#[test]
fn a_submitted_cart_is_queued_published_and_its_task_deleted() {
    let mut store = EventStore::new();
    let decider = DecisionMaker::new();
    let mut queue = WorkQueue::new();
    let mut listeners = EventListeners::new();
    let workers = WorkQueueSubsystem::new();

    let cart_id = v7();
    let product_id = v7();
    add_item_endpoint(&decider, &mut store, cart_id, payload(cart_id, v7(), product_id, 1000)).unwrap();
    let (_, submitted_id) =
        submit_cart_endpoint(&decider, &mut store, cart_id, SubmitCartPayload { cart_id }).unwrap();
    listeners.run(&decider, &mut store, &mut queue).unwrap();
    // A second delivery queues nothing more.
    listeners.cursors.cart_submitted = 0;
    listeners.run(&decider, &mut store, &mut queue).unwrap();
    assert_eq!(queue.len(), 1);

    let tasks = queue.pull(10);
    assert_eq!(tasks.len(), 1);
    let task = tasks[0].clone();
    let row = queue.fetch(task.task_id).unwrap();
    assert_eq!(row.triggering_event, Some(submitted_id));
    assert_eq!(row.task_type, "PublishCart");
    assert_eq!(row.status, TaskStatus::Running);
    assert_eq!(row.timeout_at - row.scheduled_for, 3_600_000_000);

    let request = match handle_task(task.clone()) {
        TaskHandling::Publish(request) => request,
        other => panic!("unexpected {:?}", other),
    };
    assert_eq!(request.topic, "published-carts");
    assert_eq!(request.message.cart_id, CartId(cart_id));
    assert_eq!(request.message.total_price, Money::new(1000, 2));
    assert_eq!(request.success_event, DomainEvent::CartPublished { cart_id: CartId(cart_id) });

    let mut publication = Publication::start();
    while publication.result().is_none() {
        if publication.step == PublishStep::Append {
            store.append_without_validation(vec![request.success_event.clone()]);
        }
        publication.advance(true);
    }
    assert_eq!(publication.result(), Some(Ok(())));
    workers.settle_at(&mut queue, &mut store, &task, true, 0).unwrap();

    assert_eq!(queue.len(), 0);
    let published = store.stream(&StreamQuery::new(StreamFilter::of(StreamName::Published)));
    assert_eq!(published.len(), 1);
    assert_eq!(published[0].event, DomainEvent::CartPublished { cart_id: CartId(cart_id) });
}

#[test]
fn a_cart_that_cannot_be_published_is_recorded_as_failed_after_the_last_attempt() {
    let mut store = EventStore::new();
    let decider = DecisionMaker::new();
    let mut queue = WorkQueue::new();
    let mut listeners = EventListeners::new();
    let workers = WorkQueueSubsystem::new();

    let cart_id = v7();
    add_item_endpoint(&decider, &mut store, cart_id, payload(cart_id, v7(), v7(), 1000)).unwrap();
    submit_cart_endpoint(&decider, &mut store, cart_id, SubmitCartPayload { cart_id }).unwrap();
    listeners.run(&decider, &mut store, &mut queue).unwrap();
    let task = queue.pull(10)[0].clone();
    let first = queue.fetch(task.task_id).unwrap().next_attempt_at;

    // The broker is unreachable: the message cannot be sent.
    let mut publication = Publication::start();
    publication.advance(true);
    publication.advance(true);
    publication.advance(false);
    assert_eq!(publication.step, PublishStep::Abort);
    publication.advance(true);
    assert_eq!(publication.result(), Some(Err(PublishError::Kafka)));

    let before = store.len();
    workers.settle_at(&mut queue, &mut store, &task, false, 1).unwrap();
    assert_eq!(queue.fetch(task.task_id).unwrap().next_attempt_at - first, 125_000);
    assert_eq!(store.len(), before);
    workers.settle_at(&mut queue, &mut store, &task, false, 2).unwrap();
    assert_eq!(queue.fetch(task.task_id).unwrap().next_attempt_at - first, 375_000);
    assert_eq!(store.len(), before);

    // Failures add up until the next attempt would lie beyond the hour.
    let mut failures = 2;
    while store.len() == before {
        workers.settle_at(&mut queue, &mut store, &task, false, 3).unwrap();
        failures += 1;
        assert!(failures < 40);
    }
    let published = store.stream(&StreamQuery::new(StreamFilter::of(StreamName::Published)));
    assert_eq!(
        published.last().map(|p| p.event.clone()),
        Some(DomainEvent::CartPublicationFailed { cart_id: CartId(cart_id) })
    );
    assert!(queue.pull_at(10, 0, i64::MAX).is_empty());
}

#[test]
fn the_testing_tasks_succeed_and_fail_at_once() {
    assert!(matches!(
        handle_task(Task { task_id: TaskId(1), domain_args: TaskDomainArgs::TestingSuccess }),
        TaskHandling::Succeeded
    ));
    match handle_task(Task { task_id: TaskId(1), domain_args: TaskDomainArgs::TestingFailure }) {
        TaskHandling::Failed(reason) => assert_eq!(reason, "Failed as expected."),
        other => panic!("unexpected {:?}", other),
    }
}

#[test]
fn the_path_must_name_the_cart_of_the_payload() {
    let mut store = EventStore::new();
    let decider = DecisionMaker::new();
    let cart_id = v7();
    match add_item_endpoint(&decider, &mut store, v7(), payload(cart_id, v7(), v7(), 1)) {
        Err(ClientError::Payload(message)) => {
            assert_eq!(message, "Path CartId does not match payload CartId.")
        }
        other => panic!("unexpected {:?}", other),
    }
    match change_price_endpoint(
        &decider,
        &mut store,
        v7(),
        ChangePricePayload { product_id: v7(), new_price: Money::zero(), old_price: Money::zero() },
    ) {
        Err(ClientError::Payload(message)) => {
            assert_eq!(message, "Path PrpductId does not match payload ProductId.")
        }
        other => panic!("unexpected {:?}", other),
    }
    assert_eq!(store.len(), 0);
}

#[test]
fn endpoints_answer_with_the_id_of_the_last_event() {
    let mut store = EventStore::new();
    let decider = DecisionMaker::new();
    let cart_id = v7();
    let item_id = v7();
    assert_eq!(
        add_item_endpoint(&decider, &mut store, cart_id, payload(cart_id, item_id, v7(), 1)).unwrap(),
        (cart_id, 2)
    );
    assert_eq!(clear_cart_endpoint(&decider, &mut store, cart_id).unwrap(), (cart_id, 3));
    match remove_item_endpoint(&decider, &mut store, cart_id, RemoveItemPayload { cart_id, item_id }) {
        Err(ClientError::Decision(DecisionError::Domain(CartError::CannotRemoveItem))) => {}
        other => panic!("unexpected {:?}", other),
    }
    let unknown = v7();
    match clear_cart_endpoint(&decider, &mut store, unknown) {
        Err(error) => {
            let response = error.into_response();
            assert_eq!(response.status, 400);
            assert_eq!(
                response.message,
                format!("Cart with ID {} does not exist.", uuid::Uuid::from_u128(unknown))
            );
        }
        other => panic!("unexpected {:?}", other),
    }
    assert!(matches!(
        clear_cart_endpoint(&decider, &mut store, uuid::Uuid::new_v4().as_u128()),
        Err(ClientError::Payload(_))
    ));
    assert!(matches!(
        cart_items_endpoint(&store, unknown),
        Err(ClientError::Domain(CartError::CartDoesNotExist(_)))
    ));
    assert_eq!(
        inventories_endpoint(&EventListeners::new().inventories, v7()).unwrap(),
        None
    );
}

#[test]
fn an_unpriced_cart_cannot_be_submitted() {
    let mut store = EventStore::new();
    let decider = DecisionMaker::new();
    let cart_id = v7();
    let product_id = v7();
    let first = v7();
    add_item_endpoint(&decider, &mut store, cart_id, payload(cart_id, first, product_id, 100)).unwrap();
    add_item_endpoint(&decider, &mut store, cart_id, payload(cart_id, v7(), product_id, 100)).unwrap();
    remove_item_endpoint(&decider, &mut store, cart_id, RemoveItemPayload { cart_id, item_id: first })
        .unwrap();
    let before = store.len();
    let result = decider.make(&mut store, Command::SubmitCart(SubmitCartCommand { cart_id: CartId(cart_id) }));
    assert!(matches!(result, Err(DecisionError::StateStore(_))));
    assert_eq!(store.len(), before);
    let events: Vec<PersistedEvent> = store.stream(&StreamQuery::new(StreamFilter::of(StreamName::All)));
    assert_eq!(events.len(), before);
}

#[test]
fn the_publication_of_a_cart_asks_for_the_topic_of_published_carts() {
    let cart_id = CartId::new();
    let request = publish_cart_processor(PublishCartProcessorArgs {
        triggering_event_id: 4,
        message: ExternalPublishCart { cart_id, ordered_product: vec![], total_price: Money::zero() },
    });
    assert_eq!(request.topic, "published-carts");
    assert_eq!(request.success_event, DomainEvent::CartPublished { cart_id });
}

#[test]
fn a_task_that_is_not_in_the_queue_cannot_be_failed() {
    let mut store = EventStore::new();
    let mut queue = WorkQueue::new();
    let task = Task { task_id: TaskId(4), domain_args: TaskDomainArgs::TestingFailure };
    assert_eq!(
        WorkQueueSubsystem::new().settle_at(&mut queue, &mut store, &task, false, 0),
        Err(SettleError::Queue(QueueError::TaskNotFound))
    );
    assert_eq!(WorkQueueSubsystem::new().settle_at(&mut queue, &mut store, &task, true, 0), Ok(()));
    assert_eq!(store.len(), 0);
}

#[test]
fn the_event_after_a_task_is_its_failure_event_once_it_has_failed_for_good() {
    let workers = WorkQueueSubsystem::new();
    let cart_id = CartId::new();
    let publish = Task {
        task_id: TaskId(1),
        domain_args: TaskDomainArgs::PublishCart(PublishCartProcessorArgs {
            triggering_event_id: 3,
            message: ExternalPublishCart {
                cart_id,
                ordered_product: vec![],
                total_price: Money::zero(),
            },
        }),
    };
    assert_eq!(workers.event_after(&publish, true, false), None);
    assert_eq!(workers.event_after(&publish, true, true), None);
    assert_eq!(workers.event_after(&publish, false, false), None);
    assert_eq!(
        workers.event_after(&publish, false, true),
        Some(DomainEvent::CartPublicationFailed { cart_id })
    );
    let testing = Task { task_id: TaskId(2), domain_args: TaskDomainArgs::TestingFailure };
    assert_eq!(workers.event_after(&testing, false, true), None);
}

#[test]
fn a_failed_task_is_settled_by_recording_the_failure_once() {
    let mut store = EventStore::new();
    let mut queue = WorkQueue::new();
    let workers = WorkQueueSubsystem::new();
    let args = cart_server::subsystems::work_queue::TaskArgs {
        trigger: cart_server::subsystems::work_queue::TaskTrigger::ScheduleFor(0),
        limits: cart_server::subsystems::work_queue::TaskLimit::MaxAttempts(2),
        domain_args: TaskDomainArgs::TestingFailure,
    };
    queue.push_at(args, TaskId(1), 0, 0).unwrap();
    let task = queue.pull_at(1, 0, 0)[0].clone();
    assert_eq!(workers.settle_at(&mut queue, &mut store, &task, false, 5), Ok(()));
    let row = queue.fetch(TaskId(1)).unwrap();
    assert_eq!(row.failed_attempts, 1);
    assert_eq!(row.next_attempt_at, 125_000);
    assert_eq!(row.updated_at, 5);
    assert_eq!(row.status, TaskStatus::Queued);
    assert_eq!(store.len(), 0);
    assert_eq!(workers.settle_at(&mut queue, &mut store, &task, true, 6), Ok(()));
    assert_eq!(queue.len(), 0);
}

#[test]
fn the_last_of_the_ids_answers_a_request() {
    assert_eq!(last_of_ids(&vec![4, 5, 9], "none").ok(), Some(9));
    match last_of_ids(&vec![], "No event returned for AddItemCommand!") {
        Err(ClientError::Internal(message)) => {
            assert_eq!(message, "No event returned for AddItemCommand!")
        }
        other => panic!("unexpected {:?}", other),
    }
}

#[test]
fn a_request_for_a_full_or_submitted_cart_is_answered_with_the_rule() {
    let mut store = EventStore::new();
    let decider = DecisionMaker::new();
    let cart_id = v7();
    for _ in 0..3 {
        add_item_endpoint(&decider, &mut store, cart_id, payload(cart_id, v7(), v7(), 100)).unwrap();
    }
    let before = store.len();
    match add_item_endpoint(&decider, &mut store, cart_id, payload(cart_id, v7(), v7(), 100)) {
        Err(ClientError::Decision(DecisionError::Domain(CartError::CannotAddItemCartFull))) => {}
        other => panic!("unexpected {:?}", other),
    }
    submit_cart_endpoint(&decider, &mut store, cart_id, SubmitCartPayload { cart_id }).unwrap();
    match add_item_endpoint(&decider, &mut store, cart_id, payload(cart_id, v7(), v7(), 100)) {
        Err(ClientError::Decision(DecisionError::Domain(CartError::CartCannotBeAltered))) => {}
        other => panic!("unexpected {:?}", other),
    }
    assert_eq!(store.len(), before + 1);
    let ids: Vec<i64> = store
        .stream(&StreamQuery::new(StreamFilter::of(StreamName::All)))
        .iter()
        .map(|p| p.id)
        .collect();
    assert_eq!(ids, (1..=(before as i64 + 1)).collect::<Vec<i64>>());
}

#[test]
fn archiving_a_product_a_second_time_appends_nothing() {
    let mut store = EventStore::new();
    let decider = DecisionMaker::new();
    let mut queue = WorkQueue::new();
    let mut listeners = EventListeners::new();
    let product_id = v7();
    let mut carts = Vec::new();
    for _ in 0..3 {
        let cart_id = v7();
        add_item_endpoint(&decider, &mut store, cart_id, payload(cart_id, v7(), product_id, 500)).unwrap();
        carts.push(cart_id);
    }
    listeners.run(&decider, &mut store, &mut queue).unwrap();
    let before = store.len();

    let product = cart_server::domain::cart::ProductId(product_id);
    let errors =
        archive_product_processor(&listeners.carts_with_products, &decider, &mut store, product, 77);
    assert_eq!(errors, 0);
    assert_eq!(store.len(), before + 3);
    let archived: Vec<DomainEvent> = store
        .stream_after(&StreamQuery::new(StreamFilter::of(StreamName::Cart)), before as i64)
        .into_iter()
        .map(|p| p.event)
        .collect();
    assert_eq!(archived.len(), 3);
    for (event, cart_id) in archived.iter().zip(&carts) {
        match event {
            DomainEvent::ItemArchivedEvent { cart_id: archived_cart, price_changed_event_id, .. } => {
                assert_eq!(*archived_cart, CartId(*cart_id));
                assert_eq!(*price_changed_event_id, 77);
            }
            other => panic!("unexpected {:?}", other),
        }
    }

    // The index has not taken the archivals in yet, so the same commands
    // are made again; none of them archives anything now.
    let errors =
        archive_product_processor(&listeners.carts_with_products, &decider, &mut store, product, 78);
    assert_eq!(errors, 0);
    assert_eq!(store.len(), before + 3);
}
