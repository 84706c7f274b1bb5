//! Wire-level core of a Kafka-compatible message broker.
//!
//! The crate is organised bytes-up: `varint` and `wire` hold the primitive
//! integer encodings, `record` and `batch` the record codec, `frame` the
//! request/response framing, and `dispatch` the per-connection engine that
//! turns decoded requests into responses by delegating to a storage backend
//! and a group coordinator.

pub mod body;
pub mod dispatch;
pub mod error;
pub mod frame;
pub mod batch;
pub mod varint;
pub mod record;
pub mod schema;
pub mod telemetry;
pub mod wire;
