//! # notifiapp-transport
//!
//! Shared transport layer for notifiapp services.
//!
//! The library holds what the transport decides and computes, with its contracts: frames and their
//! reassembly, Noise sessions, weighted fair scheduling, the client's and the server's connection
//! state machines, endpoint selection, and the event stream format. It performs no I/O: its state
//! machines take events and return actions, which the application crate around it carries out.
//!
//! ```text
//! WS+postcard (primary)            HTTP+JSON+SSE (fallback)
//! ---------------------            ------------------------
//! ws::client   connection loops    http::client  endpoint, status
//! ws::server   accept, session     http::sse     event streams
//! crypto       Noise XX sessions
//! frame        frames, chunks
//! scheduler    WFQ scheduling
//! ```
pub mod address;
pub mod auth;
pub mod crypto;
pub mod endpoint;
pub mod error;
pub mod frame;
pub mod http;
pub mod ids;
pub mod noise;
pub mod runtime;
pub mod scheduler;
pub mod state;
pub mod text;
pub mod utils;
pub mod wire;
pub mod ws;

pub use auth::{AuthHandler, AuthOutcome, NoAuth};
pub use crypto::NoiseSession;
pub use error::{CryptoError, TransportError};
pub use frame::{Frame, FrameKind};
pub use http::{HttpClient, HttpClientConfig};
pub use scheduler::MessagePriority;
pub use state::ConnectionState;
pub use ws::{
    BackoffStrategy, ConstantBackoff, ExponentialBackoff, LinearBackoff, ServerSessionHandle,
    WsClient, WsClientConfig, WsServerConfig,
};
