//! Verified core of a multi-chain on-chain event ingestion pipeline.
//!
//! The library holds the logic that is worth proving: the log codec that
//! turns base64-framed, discriminator-prefixed binary payloads into typed
//! events, the durable-cursor planning of the block scanner, the signature
//! pagination of the chain-B scanner, the progress store semantics, and the
//! frame-disposition rules of the resilient WebSocket streamers.  The
//! surrounding I/O (RPC transports, database connections, sockets) lives
//! outside the verified library.

pub mod codec;
pub mod errors;
pub mod events;
pub mod evm;
pub mod instruction;
pub mod pagination;
pub mod store;
pub mod stream;
pub mod text;
