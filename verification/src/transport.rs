//! Transports that carry frames between the engines of two peers.

pub mod websocket;
