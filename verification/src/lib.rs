//! Core of a message-relay service: a user records an ordered bundle of
//! message references inside a conversation, seals it, and any requester who
//! knows the record's id (and, on the deep-link path, its slug) can have the
//! bundled messages delivered in order.
//!
//! This crate holds the verified logic: the record data model and its
//! invariants, the in-memory record table with its conditional updates, the
//! deep-link token codec, and the per-conversation session state machine.
//! Transport and durable storage are driven by an unverified shell around
//! this library.
pub mod codec;
pub mod engine;
pub mod ext;
pub mod laws;
pub mod record;
pub mod settings;
pub mod store;
