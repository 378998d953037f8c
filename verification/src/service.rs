//! Generic types for services: the errors of providers and consumers.

pub mod consumer;
pub mod provider;
