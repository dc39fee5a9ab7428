pub mod event_listeners;
pub mod kafka_listeners;
pub mod web_server;
pub mod work_queue;

pub use event_listeners::EventListeners;
pub use kafka_listeners::{KafkaListener, KafkaMessageHandler, TopicOffsets};
pub use web_server::{health_check_endpoint, routes, Endpoint, Method, Route};
pub use work_queue::subsystem::WorkQueueSubsystem;
