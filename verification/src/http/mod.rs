//! HTTP+JSON+SSE transport — optional debug/fallback.
pub mod client;
pub mod sse;

pub use client::{HttpClient, HttpClientConfig};
