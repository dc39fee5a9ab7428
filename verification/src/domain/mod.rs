pub mod cart;
pub mod decision;
pub mod event_store;
pub mod events;
pub mod helpers;
pub mod money;
pub mod streams;

pub use decision::{failures, made_all, Command, DecisionError, DecisionMaker, Snapshot, SNAPSHOT_EVERY};
pub use event_store::{
    ConflictError, EventStore, PersistedEvent, PersistedView, StreamFilter, StreamName, StreamQuery,
};
pub use helpers::device_fingerprint_calculator::default_fingerprint;
pub use events::{DomainEvent, EventView, OrderedProduct};
pub use money::Money;
pub use streams::{
    CartStream, EmptyStream, InventoryStream, PricingStream, PublishedStream, SubmittedStream,
};
