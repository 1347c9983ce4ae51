//! Storage-and-ingestion core for blockchain log events: fixed-width sortable
//! keys, namespace routing over an embedded ordered store, log payload
//! decoding and the per-event polling state machine.

pub mod decimal;
pub mod decode;
pub mod engine;
pub mod ingest;
pub mod json;
pub mod keys;
pub mod namespace;
pub mod position;
pub mod read;
pub mod write;
