//! The lifecycle of a connection.
use std::time::Duration;
use vstd::prelude::*;

use crate::runtime;

verus! {

/// Lifecycle state of a transport connection.
#[derive(Debug, Clone, PartialEq, Eq)]
pub enum ConnectionState {
    /// No active connection. No endpoints set, or all endpoints failed.
    Disconnected,
    /// Resolving DNS / opening TCP / TLS.
    Connecting,
    /// Automatically attempting to restore a previously active connection.
    Reconnecting {
        /// Number of failed reconnect attempts in the current sequence.
        attempt: u32,
        /// How long to wait before the next connection attempt.
        delay: Duration,
    },
    /// WS connection open; exchanging protocol version string.
    Handshaking,
    /// Performing Noise XX key exchange.
    Authenticating,
    /// Connection established; waiting for auth confirmation from server.
    /// This state is used when an `AuthHandler` is provided.
    WaitingForAuth,
    /// Fully established and ready for normal message exchange.
    Online,
    /// Server rejected credentials. Will NOT retry without new credentials.
    Unauthorized,
    /// Server and client speak different protocol versions.
    VersionMismatch { client: String, server: String },
    /// Transient network / protocol error. Will retry with backoff.
    Error(String),
}

/// What a state says.
#[verifier::ext_equal]
pub enum StateModel {
    Disconnected,
    Connecting,
    Reconnecting { attempt: u32, nanos: nat },
    Handshaking,
    Authenticating,
    WaitingForAuth,
    Online,
    Unauthorized,
    VersionMismatch { client: Seq<char>, server: Seq<char> },
    Error(Seq<char>),
}

impl View for ConnectionState {
    type V = StateModel;

    open spec fn view(&self) -> StateModel {
        match *self {
            ConnectionState::Disconnected => StateModel::Disconnected,
            ConnectionState::Connecting => StateModel::Connecting,
            ConnectionState::Reconnecting { attempt, delay } => StateModel::Reconnecting {
                attempt,
                nanos: runtime::nanos(delay),
            },
            ConnectionState::Handshaking => StateModel::Handshaking,
            ConnectionState::Authenticating => StateModel::Authenticating,
            ConnectionState::WaitingForAuth => StateModel::WaitingForAuth,
            ConnectionState::Online => StateModel::Online,
            ConnectionState::Unauthorized => StateModel::Unauthorized,
            ConnectionState::VersionMismatch { client, server } => StateModel::VersionMismatch {
                client: client@,
                server: server@,
            },
            ConnectionState::Error(text) => StateModel::Error(text@),
        }
    }
}

impl ConnectionState {
    /// Returns `true` if the connection can accept outgoing messages.
    pub fn is_online(&self) -> (r: bool)
        ensures
            r == (self@ is Online),
    {
        match self {
            ConnectionState::Online => true,
            _ => false,
        }
    }

    /// Returns `true` if the connection is in any transitional state.
    pub fn is_connecting(&self) -> (r: bool)
        ensures
            r == (self@ is Connecting || self@ is Reconnecting || self@ is Handshaking
                || self@ is Authenticating || self@ is WaitingForAuth),
    {
        match self {
            ConnectionState::Connecting
            | ConnectionState::Reconnecting { .. }
            | ConnectionState::Handshaking
            | ConnectionState::Authenticating
            | ConnectionState::WaitingForAuth => true,
            _ => false,
        }
    }

    /// Returns `true` if reconnect attempts should stop (terminal states).
    pub fn is_terminal(&self) -> (r: bool)
        ensures
            r == (self@ is Unauthorized || self@ is VersionMismatch),
    {
        match self {
            ConnectionState::Unauthorized | ConnectionState::VersionMismatch { .. } => true,
            _ => false,
        }
    }
}

/// A connection is online, on its way or stopped for good, and never two of these at once; only
/// what is disconnected or has failed for now is none of them.
pub proof fn law_states_are_told_apart(
    s: &ConnectionState,
    online: bool,
    connecting: bool,
    terminal: bool,
)
    requires
        ConnectionState::is_online.ensures((s,), online),
        ConnectionState::is_connecting.ensures((s,), connecting),
        ConnectionState::is_terminal.ensures((s,), terminal),
    ensures
        !(online && connecting) && !(online && terminal) && !(connecting && terminal),
        online <==> *s is Online,
        terminal <==> *s is Unauthorized || *s is VersionMismatch,
        !online && !connecting && !terminal <==> *s is Disconnected || *s is Error,
{
}

} // verus!
