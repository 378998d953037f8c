//! The RPC layer: protocol messages, the engine's decisions and the
//! transport-facing error types.

pub mod engine;
pub mod message;
pub mod transport;
