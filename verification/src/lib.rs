//! A verified core for a transparent forward proxy that injects
//! Basic-auth credentials on behalf of its clients and relays traffic
//! to an authenticating upstream proxy.
//!
//! The library holds the per-connection protocol logic: request
//! classification, CONNECT negotiation, authorization-header rewriting
//! and the acceptor's decisions. The surrounding I/O (sockets, timers,
//! signals) lives outside the library and only feeds it plain bytes.

pub mod acceptor;
pub mod auth;
pub mod bytes;
pub mod classify;
pub mod config;
pub mod error;
pub mod forward;
pub mod relay;
pub mod tunnel;
pub mod wire;
