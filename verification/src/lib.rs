//! Control-plane topology management for a media routing graph.
//!
//! The library tracks devices (nodes), their input/output channels (ports)
//! and the connections (links) between them, as reported asynchronously by a
//! media server, and decides which connections to create or destroy when a
//! caller asks to link or unlink two devices.  All decisions are pure
//! functions over plain values; the surrounding process plumbing (server
//! connection, event loop, threads) lives outside this crate's verified core.

pub mod event;
pub mod link;
pub mod node;
pub mod objects;
pub mod port;
pub mod utils;
