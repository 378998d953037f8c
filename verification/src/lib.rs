//! Webwire: a contract-first API system with a small text based RPC
//! protocol. This crate holds the protocol logic: message framing,
//! authentication headers, and the decisions of the RPC engine and its
//! transports.

pub mod buffer;
pub mod text;
pub mod rpc;
pub mod server;
pub mod service;
pub mod amqp;
pub mod redis;
pub mod transport;
pub mod utils;
pub mod client;
