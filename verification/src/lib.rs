//! Core of a newsletter subscription service: a lazily-initialized,
//! single-flight connection manager with three authentication scopes, a
//! subscription store with an atomic two-record creation and an idempotent
//! confirmation, a Basic-authentication credential codec, and a broadcast
//! coordinator that is gated on administrator credentials.

pub mod broadcast;
pub mod codec;
pub mod domain;
pub mod errors;
pub mod manager;
pub mod store;
pub mod text;
