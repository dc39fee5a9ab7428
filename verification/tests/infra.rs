use cart_server::domain::cart::{CartError, CartId, ExternalPublishCart, UuidNotCompatible};
use cart_server::domain::helpers::device_fingerprint_calculator::calculate_device_fingerprint;
use cart_server::domain::helpers::kafka::create_transactional_producer;
use cart_server::domain::helpers::{message_key, Publication, PublishError, PublishStep};
use cart_server::domain::{default_fingerprint, DecisionError, Money};
use cart_server::infra::{
    ClientError, DatabaseSettings, ErrorResponse, KafkaSettings, ServerSettings, SslMode,
};
use cart_server::subsystems::{routes, Endpoint, Method};

#[test]
fn the_address_is_host_colon_port() {
    let settings = ServerSettings {
        host: "127.0.0.1".to_owned(),
        port: 8080,
        logs_directory: "logs".to_owned(),
    };
    assert_eq!(settings.address(), "127.0.0.1:8080");
    let settings = ServerSettings { host: "".to_owned(), port: 0, logs_directory: "".to_owned() };
    assert_eq!(settings.address(), ":0");
}

#[test]
fn connections_require_or_prefer_encryption() {
    let mut settings = DatabaseSettings {
        username: "user".to_owned(),
        password: "SECRET-REDACTED".to_owned(),
        port: 5432,
        host: "db".to_owned(),
        database_name: "carts".to_owned(),
        require_ssl: true,
    };
    let options = settings.without_db_name();
    assert_eq!(options.ssl_mode, SslMode::Require);
    assert_eq!(options.database, None);
    assert_eq!(options.host, "db");
    assert_eq!(options.username, "user");
    assert_eq!(options.port, 5432);
    settings.require_ssl = false;
    let options = settings.with_db_name();
    assert_eq!(options.ssl_mode, SslMode::Prefer);
    assert_eq!(options.database, Some("carts".to_owned()));
}

#[test]
fn failures_are_answered_with_400_or_500() {
    let cart_id = CartId::new();
    let cases = vec![
        (
            ClientError::Decision(DecisionError::EventStore("detail".to_owned())),
            500,
            "EventStore problem. Please ask your system administrator to check the logs."
                .to_owned(),
        ),
        (
            ClientError::Decision(DecisionError::StateStore("detail".to_owned())),
            500,
            "StateStore problem. Please ask your system administrator to check the logs."
                .to_owned(),
        ),
        (
            ClientError::Decision(DecisionError::Domain(CartError::CannotSubmitEmptyCart)),
            400,
            "Cannot submit an empty cart.".to_owned(),
        ),
        (
            ClientError::Domain(CartError::CartDoesNotExist(cart_id)),
            400,
            format!("Cart with ID {} does not exist.", cart_id.to_string()),
        ),
        (ClientError::Payload("bad".to_owned()), 400, "bad".to_owned()),
        (
            ClientError::Internal("detail".to_owned()),
            500,
            "Please ask your system administrator to check the logs.".to_owned(),
        ),
    ];
    for (error, status, message) in cases {
        assert_eq!(error.into_response(), ErrorResponse { status, message });
    }
}

#[test]
fn errors_convert_into_client_errors() {
    assert!(matches!(
        ClientError::from(CartError::CannotRemoveItem),
        ClientError::Domain(CartError::CannotRemoveItem)
    ));
    assert!(matches!(
        ClientError::from(DecisionError::Domain(CartError::CannotRemoveItem)),
        ClientError::Decision(DecisionError::Domain(CartError::CannotRemoveItem))
    ));
    let v4 = uuid::Uuid::new_v4();
    match ClientError::from_uuid_not_compatible(UuidNotCompatible(v4.as_u128())) {
        ClientError::Payload(message) => assert_eq!(
            message,
            format!("Uuid {} is not compatible. Version 7 Uuid is required.", v4)
        ),
        other => panic!("unexpected {:?}", other),
    }
}

#[test]
fn fingerprints() {
    assert_eq!(default_fingerprint(), "default-fingerprint");
    let fingerprint = calculate_device_fingerprint();
    let parsed = uuid::Uuid::parse_str(&fingerprint).unwrap();
    assert_eq!(parsed.get_version_num(), 4);
    assert_ne!(fingerprint, calculate_device_fingerprint());
}

#[test]
fn a_publication_goes_through_its_steps() {
    let mut publication = Publication::start();
    let mut steps = vec![publication.step];
    while publication.result().is_none() {
        publication.advance(true);
        steps.push(publication.step);
    }
    assert_eq!(
        steps,
        vec![
            PublishStep::CreateProducer,
            PublishStep::Serialize,
            PublishStep::Send,
            PublishStep::Append,
            PublishStep::Commit,
            PublishStep::Finished,
        ]
    );
    assert_eq!(publication.result(), Some(Ok(())));
    publication.advance(false);
    assert_eq!(publication.result(), Some(Ok(())));
}

#[test]
fn a_publication_that_fails_aborts_where_a_transaction_is_open() {
    let run = |outcomes: &[bool]| {
        let mut publication = Publication::start();
        let mut steps = vec![];
        for outcome in outcomes {
            publication.advance(*outcome);
            steps.push(publication.step);
        }
        (steps, publication.result())
    };
    assert_eq!(run(&[false]), (vec![PublishStep::Finished], Some(Err(PublishError::Kafka))));
    assert_eq!(
        run(&[true, false]),
        (vec![PublishStep::Serialize, PublishStep::Finished], Some(Err(PublishError::Serde)))
    );
    assert_eq!(
        run(&[true, true, false, true]).1,
        Some(Err(PublishError::Kafka))
    );
    assert_eq!(run(&[true, true, false]).0.last(), Some(&PublishStep::Abort));
    assert_eq!(
        run(&[true, true, true, false, true]),
        (
            vec![
                PublishStep::Serialize,
                PublishStep::Send,
                PublishStep::Append,
                PublishStep::Abort,
                PublishStep::Finished
            ],
            Some(Err(PublishError::EventStore))
        )
    );
    assert_eq!(run(&[true, true, true, false, false]).1, Some(Err(PublishError::Kafka)));
    assert_eq!(run(&[true, true, true, true, false]).1, Some(Err(PublishError::Kafka)));
    assert_eq!(run(&[true, true, true]).1, None);
}

#[test]
fn a_producer_is_idempotent_and_transactional_on_its_topic() {
    let settings = KafkaSettings {
        bootstrap_servers: "broker:9092".to_owned(),
        group_id: "cart".to_owned(),
        session_timeout_ms: 6000,
    };
    let producer = create_transactional_producer(&settings, "published-carts".to_owned());
    assert_eq!(producer.bootstrap_servers, "broker:9092");
    assert_eq!(producer.message_timeout_ms, 6000);
    assert!(producer.enable_idempotence);
    assert_eq!(producer.transactional_id, "published-carts");
}

#[test]
fn equal_messages_hash_alike() {
    let cart_id = CartId::new();
    let message =
        ExternalPublishCart { cart_id, ordered_product: vec![], total_price: Money::new(1, 0) };
    let other =
        ExternalPublishCart { cart_id, ordered_product: vec![], total_price: Money::new(2, 0) };
    assert_eq!(message_key(&message), message_key(&message.clone()));
    assert_ne!(message_key(&message), message_key(&other));
    assert!(message_key(&message).parse::<u64>().is_ok());
}

#[test]
fn every_endpoint_has_its_route() {
    let routes = routes();
    assert_eq!(routes.len(), 10);
    let find = |endpoint: Endpoint| routes.iter().find(|r| r.endpoint == endpoint).unwrap();
    assert_eq!(find(Endpoint::AddItem).path, "/additem/{cart_id}");
    assert_eq!(find(Endpoint::AddItem).method, Method::Post);
    assert_eq!(find(Endpoint::CartItems).path, "/{cart_id}/cartitems");
    assert_eq!(find(Endpoint::CartItems).method, Method::Get);
    assert_eq!(find(Endpoint::CartItemsFromDb).path, "/{cart_id}/cartitemsfromdb");
    assert_eq!(find(Endpoint::CartsWithProducts).path, "/cartswithproducts/{product_id}");
    assert_eq!(find(Endpoint::ChangePrice).path, "/changeprice/{product_id}");
    assert_eq!(find(Endpoint::ChangePrice).method, Method::Post);
    assert_eq!(find(Endpoint::ClearCart).path, "/clearcart/{cart_id}");
    assert_eq!(find(Endpoint::Inventories).path, "/inventories/{product_id}");
    assert_eq!(find(Endpoint::RemoveItem).path, "/removeitem/{cart_id}");
    assert_eq!(find(Endpoint::SubmitCart).path, "/submitcart/{cart_id}");
    assert_eq!(find(Endpoint::HealthCheck).path, "/healthcheck");
    assert_eq!(find(Endpoint::HealthCheck).method, Method::Get);
}
