//! An event-sourced bookmark store: an append-only log of timestamped
//! domain events, a read model projected from it, and the command and query
//! handlers that keep the two in step.

pub mod domain;
pub mod event;
pub mod clock;
pub mod event_store;
pub mod read_model;
pub mod command;
pub mod query;
pub mod laws;
