//! The server side of the WebSocket transport.
pub mod accept;
pub mod config;
pub mod handle;
pub mod session;

pub use config::WsServerConfig;
pub use handle::ServerSessionHandle;
