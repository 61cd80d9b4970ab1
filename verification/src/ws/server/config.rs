//! The configuration of a WebSocket server.
use std::time::Duration;
use vstd::prelude::*;

use crate::noise::KEY_LEN;
use crate::runtime;
use crate::runtime::seconds;
use crate::utils;
use crate::utils::validate_protocol_string;

verus! {

/// Configuration for accepting incoming WS sessions.
#[derive(Debug)]
pub struct WsServerConfig {
    /// Protocol name this server expects from connecting clients.
    pub protocol_name: String,
    /// Server protocol version. Clients not matching receive PROTOCOL_REJECTED.
    pub protocol_version: String,
    /// Server Noise private key (32 bytes, X25519).
    pub noise_private_key: Vec<u8>,
    /// Maximum accepted payload size in bytes.
    pub max_payload_bytes: usize,
    /// How often the server sends heartbeat Pings.
    pub heartbeat_interval: Duration,
    /// How long to wait for a Pong before closing the connection.
    pub heartbeat_timeout: Duration,
    /// Maximum number of commands/messages buffered for sending.
    pub buffer_size: usize,
}

/// What a configuration says to a session.
#[verifier::ext_equal]
pub struct ServerConfigModel {
    pub name: Seq<char>,
    pub version: Seq<char>,
    pub key: Seq<u8>,
    pub max: usize,
    pub interval: nat,
    pub timeout: nat,
    pub buffer: usize,
}

impl View for WsServerConfig {
    type V = ServerConfigModel;

    open spec fn view(&self) -> ServerConfigModel {
        ServerConfigModel {
            name: self.protocol_name@,
            version: self.protocol_version@,
            key: self.noise_private_key@,
            max: self.max_payload_bytes,
            interval: runtime::nanos(self.heartbeat_interval),
            timeout: runtime::nanos(self.heartbeat_timeout),
            buffer: self.buffer_size,
        }
    }
}

impl ServerConfigModel {
    /// The private key is no longer than a key.
    pub open spec fn wf(self) -> bool {
        self.key.len() <= KEY_LEN
    }
}

impl WsServerConfig {
    /// The default configuration for a protocol.
    pub fn new(protocol_name: &str, protocol_version: &str, noise_private_key: Vec<u8>) -> (r: Self)
        requires
            utils::is_protocol_string(protocol_name@),
            utils::is_protocol_string(protocol_version@),
        ensures
            r@ == (ServerConfigModel {
                name: protocol_name@,
                version: protocol_version@,
                key: noise_private_key@,
                max: 4194304,
                interval: 30_000_000_000,
                timeout: 10_000_000_000,
                buffer: 100,
            }),
    {
        validate_protocol_string(protocol_name);
        validate_protocol_string(protocol_version);
        WsServerConfig {
            protocol_name: protocol_name.to_owned(),
            protocol_version: protocol_version.to_owned(),
            noise_private_key,
            max_payload_bytes: 4194304,
            heartbeat_interval: seconds(30),
            heartbeat_timeout: seconds(10),
            buffer_size: 100,
        }
    }
}

/// By default a server takes payloads of 4 MiB, looks after a connection every 30 seconds and gives
/// a pong 10; name, version and key are those that it was given.
pub proof fn law_default_server_settings(
    name: &str,
    version: &str,
    key: Vec<u8>,
    r: WsServerConfig,
)
    requires
        WsServerConfig::new.ensures((name, version, key), r),
    ensures
        r.protocol_name@ == name@,
        r.protocol_version@ == version@,
        r.noise_private_key@ == key@,
        r.max_payload_bytes == 4 * 1024 * 1024,
        runtime::nanos(r.heartbeat_interval) == 30 * 1_000_000_000,
        runtime::nanos(r.heartbeat_timeout) == 10 * 1_000_000_000,
        r.buffer_size == 100,
{
}

} // verus!
