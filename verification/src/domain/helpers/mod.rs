pub mod device_fingerprint_calculator;
pub mod id_map;
pub mod kafka;
pub mod rows;
pub mod stateless;
pub mod text;

pub use id_map::IdMap;
pub use kafka::{message_key, Publication, PublishError, PublishStep};
pub use stateless::Stateless;
