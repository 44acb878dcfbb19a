//! Core of a layer-4 (TCP) load-balancing proxy: target selection,
//! tunnel lifecycle and byte accounting, relay state machine, rolling
//! throughput maintenance, and the read-only admin query logic.
//!
//! All I/O (sockets, timers, the HTTP transport, configuration files)
//! lives outside this crate; the functions here take the outcomes of
//! those operations as plain values and decide everything else.

pub mod api;
pub mod config;
pub mod connection;
pub mod endpoint;
pub mod proxy;
pub mod relay;
pub mod table;
pub mod target;
