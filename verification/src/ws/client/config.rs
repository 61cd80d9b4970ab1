//! The configuration of a WebSocket client.
use std::time::Duration;
use vstd::prelude::*;

use crate::noise::MAX_PINNED_KEY_LEN;
use crate::runtime;
use crate::runtime::seconds;
use crate::ws::client::backoff;
use crate::ws::client::backoff::ExponentialBackoff;

verus! {

/// Maximum time to wait for a server response to any single request, in seconds.
pub const DEFAULT_REQUEST_TIMEOUT: u64 = 30;

/// Maximum time to wait for the server's auth response, in seconds.
pub const DEFAULT_AUTH_TIMEOUT: u64 = 15;

/// Ping sent after this interval of incoming silence, in seconds.
pub const DEFAULT_HEARTBEAT_INTERVAL: u64 = 30;

/// Connection considered dead if no Pong arrives within this window after Ping, in seconds.
pub const DEFAULT_HEARTBEAT_TIMEOUT: u64 = 10;

/// Default maximum payload size (4 MiB).
pub const DEFAULT_MAX_PAYLOAD: usize = 4194304;

/// Default number of commands that can wait for the connection loop.
pub const DEFAULT_BUFFER_SIZE: usize = 100;

/// Default delay before the first reconnect attempt, in seconds; it doubles with each attempt.
pub const DEFAULT_RECONNECT_DELAY: u64 = 2;

/// Default limit of the delay before a reconnect attempt, in seconds.
pub const DEFAULT_RECONNECT_LIMIT: u64 = 60;

/// Configuration for a WebSocket client.
#[derive(Debug)]
pub struct WsClientConfig {
    /// Human-readable protocol name sent during the version handshake.
    /// Example: `"NOTIFI_APP"`, `"CAMERA_SERVICE"`.
    pub protocol_name: String,
    /// Protocol version string (e.g., `"1.0.0"`).
    pub protocol_version: String,
    /// How long between heartbeat Pings.
    pub heartbeat_interval: Duration,
    /// How long to wait for a Pong before declaring the connection dead.
    pub heartbeat_timeout: Duration,
    /// Timeout for individual application-level request/response pairs.
    pub request_timeout: Duration,
    /// Timeout for the initial auth exchange after Noise handshake.
    pub auth_timeout: Duration,
    /// Maximum accepted incoming payload size.
    pub max_payload_bytes: usize,
    /// Maximum number of commands buffered for the connection loop.
    pub buffer_size: usize,
    /// Optional pinned server Noise public key: a server that shows another key is rejected. If it
    /// is `None` or all zero, any server key is accepted (trust-on-first-use).
    pub noise_server_key: Option<Vec<u8>>,
}

/// What a configuration says to the connection loop.
#[verifier::ext_equal]
pub struct ConfigModel {
    pub name: Seq<char>,
    pub version: Seq<char>,
    pub interval: nat,
    pub timeout: nat,
    pub auth_timeout: nat,
    pub max: usize,
    pub server_key: Option<Seq<u8>>,
}

impl View for WsClientConfig {
    type V = ConfigModel;

    open spec fn view(&self) -> ConfigModel {
        ConfigModel {
            name: self.protocol_name@,
            version: self.protocol_version@,
            interval: runtime::nanos(self.heartbeat_interval),
            timeout: runtime::nanos(self.heartbeat_timeout),
            auth_timeout: runtime::nanos(self.auth_timeout),
            max: self.max_payload_bytes,
            server_key: match self.noise_server_key {
                Some(key) => Some(key@),
                None => None,
            },
        }
    }
}

impl ConfigModel {
    /// A pinned key is no longer than the key exchange has room for.
    pub open spec fn wf(self) -> bool {
        self.server_key matches Some(key) ==> key.len() <= MAX_PINNED_KEY_LEN
    }
}

impl WsClientConfig {
    /// The default configuration for a protocol.
    pub fn new(protocol_name: &str, protocol_version: &str) -> (r: Self)
        ensures
            r@ == (ConfigModel {
                name: protocol_name@,
                version: protocol_version@,
                interval: 30_000_000_000,
                timeout: 10_000_000_000,
                auth_timeout: 15_000_000_000,
                max: 4194304,
                server_key: None,
            }),
            r@.wf(),
            runtime::nanos(r.request_timeout) == 30_000_000_000,
            r.buffer_size == 100,
    {
        WsClientConfig {
            protocol_name: protocol_name.to_owned(),
            protocol_version: protocol_version.to_owned(),
            heartbeat_interval: seconds(DEFAULT_HEARTBEAT_INTERVAL),
            heartbeat_timeout: seconds(DEFAULT_HEARTBEAT_TIMEOUT),
            request_timeout: seconds(DEFAULT_REQUEST_TIMEOUT),
            auth_timeout: seconds(DEFAULT_AUTH_TIMEOUT),
            max_payload_bytes: DEFAULT_MAX_PAYLOAD,
            buffer_size: DEFAULT_BUFFER_SIZE,
            noise_server_key: None,
        }
    }
}

/// The default strategy for reconnecting: 2 seconds, doubling up to a minute.
pub fn default_backoff() -> (r: ExponentialBackoff)
    ensures
        runtime::nanos(r.initial) == 2_000_000_000,
        r.multiplier == 2,
        runtime::nanos(r.max) == 60_000_000_000,
{
    ExponentialBackoff::new(
        seconds(DEFAULT_RECONNECT_DELAY),
        2,
        seconds(DEFAULT_RECONNECT_LIMIT),
    )
}

/// By default a client waits 2 seconds after the first failed attempt, twice as long after each
/// further one, and never more than a minute.
pub proof fn law_default_delays_double_up_to_a_minute(b: ExponentialBackoff, attempt: nat)
    requires
        default_backoff.ensures((), b),
        attempt > 0,
    ensures
        b.delay(0) == 0,
        b.delay(1) == 2_000_000_000,
        b.delay(attempt) <= 30_000_000_000 ==> b.delay(attempt + 1) == 2 * b.delay(attempt),
        b.delay(attempt) > 30_000_000_000 ==> b.delay(attempt + 1) == 60_000_000_000,
        b.delay(attempt) <= 60_000_000_000,
{
    backoff::law_exponential_delays_grow_by_the_factor(b, attempt);
    backoff::law_exponential_delays_grow_to_a_limit(b, attempt);
}

/// By default a client asks for no certain server key, takes payloads of 4 MiB, looks after the
/// connection every 30 seconds, and gives a pong 10 and the response to the credentials 15 seconds.
pub proof fn law_default_client_settings(name: &str, version: &str, r: WsClientConfig)
    requires
        WsClientConfig::new.ensures((name, version), r),
    ensures
        r.protocol_name@ == name@,
        r.protocol_version@ == version@,
        r.noise_server_key is None,
        r.max_payload_bytes == 4 * 1024 * 1024,
        runtime::nanos(r.heartbeat_interval) == 30 * 1_000_000_000,
        runtime::nanos(r.heartbeat_timeout) == 10 * 1_000_000_000,
        runtime::nanos(r.auth_timeout) == 15 * 1_000_000_000,
        runtime::nanos(r.request_timeout) == 30 * 1_000_000_000,
        r.buffer_size == 100,
{
}

} // verus!
