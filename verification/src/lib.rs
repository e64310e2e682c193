//! Event-to-storage-to-fanout pipeline for token-registration records.
//!
//! Raw chain events are validated into [`record::TokenRecord`] values,
//! appended to an ordered store, broadcast to bounded subscriber queues,
//! and acknowledged through a resumption checkpoint.

pub mod broadcast;
pub mod checkpoint;
pub mod config;
pub mod dispatcher;
pub mod mapper;
pub mod payload;
pub mod record;
pub mod store;
