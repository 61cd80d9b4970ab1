//! The client side of the WebSocket transport.
pub mod action;
pub mod backoff;
pub mod cmd;
pub mod config;
pub mod connection_loop;
pub mod failover;
pub mod handshake;
pub mod history;
pub mod message_loop;
pub mod pending;
pub mod shared;
pub mod stream;
