//! Verified core of an event dashboard: a message mapper that turns inbound
//! JSON payloads into domain events, an append-only event store with
//! aggregate queries, and the ingestion consumer's per-message state machine,
//! which advances its cursor only after a successful persist.

pub mod consumer;
pub mod event;
pub mod laws;
pub mod messages;
pub mod store;
