use cart_server::domain::cart::{
    InventoriesReadModel, InventoryChangedMessage, InventoryChangedTranslator,
    PriceChangeTranslator, PriceChangedMessage, ProductId,
};
use cart_server::domain::event_store::{StreamFilter, StreamName, StreamQuery};
use cart_server::domain::{DecisionMaker, DomainEvent, EventStore, Money};
use cart_server::infra::KafkaSettings;
use cart_server::subsystems::kafka_listeners::{consumer_settings, ingestion, Incoming, Ingestion};
use cart_server::subsystems::{EventListeners, KafkaListener, KafkaMessageHandler, TopicOffsets};

#[test]
fn topic_offset_updates_can_be_found() {
    let test_cnt: usize = 10;
    let topic_offsets: Vec<(String, i64)> =
        (0..test_cnt).map(|i| (format!("topic-{}", i), (i as i64) * 37 - 100)).collect();
    let mut offsets = TopicOffsets::new();

    for (topic, offset) in &topic_offsets {
        offsets.update_last_kafka_offset_processed(topic, *offset);
    }

    for (topic, expected_offset) in &topic_offsets {
        let offset = offsets
            .last_kafka_offset_processed(topic)
            .unwrap_or_else(|| panic!("Expected to find topic: {topic}."));
        assert_eq!(offset, *expected_offset, "Offset for topic {} is wrong.", topic);
    }
}

#[test]
fn the_greatest_offset_of_a_topic_is_kept() {
    let mut offsets = TopicOffsets::new();
    assert_eq!(offsets.last_kafka_offset_processed("inventories"), None);
    offsets.update_last_kafka_offset_processed("inventories", 5);
    offsets.update_last_kafka_offset_processed("inventories", 3);
    assert_eq!(offsets.last_kafka_offset_processed("inventories"), Some(5));
    offsets.update_last_kafka_offset_processed("inventories", 5);
    assert_eq!(offsets.last_kafka_offset_processed("inventories"), Some(5));
    offsets.update_last_kafka_offset_processed("inventories", 8);
    assert_eq!(offsets.last_kafka_offset_processed("inventories"), Some(8));
    assert_eq!(offsets.last_kafka_offset_processed("price-changes"), None);
}

#[test]
fn the_handlers_name_their_topics_and_group() {
    assert_eq!(PriceChangeTranslator::new().topic(), "price-changes");
    assert_eq!(PriceChangeTranslator::new().group(), "cart");
    assert_eq!(InventoryChangedTranslator::new().topic(), "inventories");
    assert_eq!(InventoryChangedTranslator::new().group(), "cart");
}

#[test]
fn kafka_message_changes_price() {
    let mut store = EventStore::new();
    let decider = DecisionMaker::new();
    let mut offsets = TopicOffsets::new();
    let listener =
        KafkaListener::start("PriceChangedMessageHander".to_owned(), PriceChangeTranslator::new(), &offsets);

    let product_id = ProductId::new();
    let message = PriceChangedMessage {
        product_uuid: product_id.as_u128(),
        old_price: Money::new(1000, 2),
        new_price: Money::new(1250, 2),
    };
    let done = listener.receive(&mut offsets, &decider, &mut store, 0, Incoming::Message(message));
    assert_eq!(done, Ingestion::Handled);

    let pricing = store.stream(&StreamQuery::new(StreamFilter::of(StreamName::Pricing)));
    assert_eq!(pricing.len(), 1);
    assert_eq!(
        pricing[0].event,
        DomainEvent::PriceChanged {
            product_id,
            old_price: Money::new(1000, 2),
            new_price: Money::new(1250, 2)
        }
    );
    assert_eq!(offsets.last_kafka_offset_processed("price-changes"), Some(0));

    // After a restart the same message at the same offset is passed over.
    let restarted =
        KafkaListener::start("PriceChangedMessageHander".to_owned(), PriceChangeTranslator::new(), &offsets);
    let done = restarted.receive(&mut offsets, &decider, &mut store, 0, Incoming::Message(message));
    assert_eq!(done, Ingestion::Bypassed);
    assert_eq!(store.len(), 1);
    let done = restarted.receive(&mut offsets, &decider, &mut store, 1, Incoming::Message(message));
    assert_eq!(done, Ingestion::Handled);
    assert_eq!(store.len(), 2);
}

#[test]
fn kafka_message_changes_inventory() {
    let mut store = EventStore::new();
    let decider = DecisionMaker::new();
    let mut offsets = TopicOffsets::new();
    let mut queue = cart_server::subsystems::work_queue::WorkQueue::new();
    let mut listeners = EventListeners::new();
    let listener = KafkaListener::start(
        "InventoryChangedMessageHander".to_owned(),
        InventoryChangedTranslator::new(),
        &offsets,
    );

    let product_id = ProductId::new();
    let inventory = 417;
    let message = InventoryChangedMessage { product_uuid: product_id.as_u128(), inventory };
    assert_eq!(
        listener.receive(&mut offsets, &decider, &mut store, 12, Incoming::Message(message)),
        Ingestion::Handled
    );
    listeners.run(&decider, &mut store, &mut queue).unwrap();

    assert_eq!(
        listeners.inventories.find_by_id(&product_id),
        Some(InventoriesReadModel { product_id, inventory })
    );
    assert_eq!(offsets.last_kafka_offset_processed("inventories"), Some(12));
}

#[test]
fn a_message_that_cannot_be_read_is_skipped_and_its_offset_recorded() {
    let mut store = EventStore::new();
    let decider = DecisionMaker::new();
    let mut offsets = TopicOffsets::new();
    let listener = KafkaListener::start("l".to_owned(), PriceChangeTranslator::new(), &offsets);
    assert_eq!(
        listener.receive(&mut offsets, &decider, &mut store, 4, Incoming::Undecodable),
        Ingestion::Skipped
    );
    assert_eq!(offsets.last_kafka_offset_processed("price-changes"), Some(4));
    assert_eq!(
        listener.receive(&mut offsets, &decider, &mut store, 5, Incoming::Empty),
        Ingestion::Skipped
    );
    assert_eq!(offsets.last_kafka_offset_processed("price-changes"), Some(5));
    assert_eq!(store.len(), 0);
}

#[test]
fn a_message_with_a_version_4_product_is_dropped() {
    let mut store = EventStore::new();
    let decider = DecisionMaker::new();
    let mut offsets = TopicOffsets::new();
    let listener = KafkaListener::start("l".to_owned(), InventoryChangedTranslator::new(), &offsets);
    let message = InventoryChangedMessage {
        product_uuid: uuid::Uuid::new_v4().as_u128(),
        inventory: 3,
    };
    assert!(InventoryChangedTranslator::new().translate(message).is_err());
    assert_eq!(
        listener.receive(&mut offsets, &decider, &mut store, 1, Incoming::Message(message)),
        Ingestion::Handled
    );
    assert_eq!(store.len(), 0);
    assert_eq!(offsets.last_kafka_offset_processed("inventories"), Some(1));
}

#[test]
fn a_consumer_joins_the_group_and_starts_at_the_earliest_offset() {
    let offsets = TopicOffsets::new();
    let listener = KafkaListener::start("l".to_owned(), PriceChangeTranslator::new(), &offsets);
    let settings = KafkaSettings {
        bootstrap_servers: "broker:9092".to_owned(),
        group_id: "ignored".to_owned(),
        session_timeout_ms: 6000,
    };
    let consumer = listener.create_consumer(&settings);
    assert_eq!(consumer.group_id, "cart");
    assert_eq!(consumer.topic, "price-changes");
    assert_eq!(consumer.bootstrap_servers, "broker:9092");
    assert_eq!(consumer.session_timeout_ms, 6000);
    assert!(!consumer.enable_partition_eof);
    assert!(consumer.enable_auto_commit);
    assert!(consumer.start_at_earliest_offset);
}

#[test]
fn what_is_done_with_a_message_depends_on_its_offset_and_on_whether_it_can_be_read() {
    assert_eq!(ingestion(None, 0, true), Ingestion::Handled);
    assert_eq!(ingestion(None, 0, false), Ingestion::Skipped);
    assert_eq!(ingestion(Some(5), 5, true), Ingestion::Bypassed);
    assert_eq!(ingestion(Some(5), 4, false), Ingestion::Bypassed);
    assert_eq!(ingestion(Some(5), 6, true), Ingestion::Handled);
    assert_eq!(ingestion(Some(5), 6, false), Ingestion::Skipped);
}

#[test]
fn the_settings_of_a_consumer_name_its_group_and_topic() {
    let settings = KafkaSettings {
        bootstrap_servers: "broker:9092".to_owned(),
        group_id: "ignored".to_owned(),
        session_timeout_ms: 45,
    };
    let consumer = consumer_settings("a-group", "a-topic", &settings);
    assert_eq!(consumer.group_id, "a-group");
    assert_eq!(consumer.topic, "a-topic");
    assert_eq!(consumer.session_timeout_ms, 45);
    assert!(consumer.start_at_earliest_offset);
}
