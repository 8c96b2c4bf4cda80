//! Marshaling layer for a columnar vector-database engine.
//!
//! The crate translates between flat, fixed-layout payloads that a foreign
//! caller can construct and the typed columnar batches the engine works on:
//! type mapping, connection-handle bookkeeping, byte-level column codecs,
//! schema construction, insert decoding and search-result re-encoding.
//! The engine itself is driven from an unverified shell that hands this
//! library plain values and takes plain values back.

pub mod errors;
pub mod kinds;
pub mod codec;
pub mod registry;
pub mod schema;
pub mod payload;
pub mod insert;
pub mod search;
pub mod table;
