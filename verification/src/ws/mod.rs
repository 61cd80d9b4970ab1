//! WebSocket transport — primary, encrypted, binary.
pub mod client;
pub mod keys;
pub mod link;
pub mod outbox;
pub mod server;
pub mod version;

pub use client::backoff::{BackoffStrategy, ConstantBackoff, ExponentialBackoff, LinearBackoff};
pub use client::config::WsClientConfig;
pub use client::shared::WsClient;
pub use server::{ServerSessionHandle, WsServerConfig};
