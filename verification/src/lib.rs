//! Shopping-cart domain service: event-sourced cart rules, read-model
//! projections, a durable task queue and the translation of broker messages
//! into commands.

pub mod domain;
pub mod infra;
pub mod subsystems;
