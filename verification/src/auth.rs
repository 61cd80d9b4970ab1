//! Authentication: what an application decides, and what follows for the connection.
use vstd::prelude::*;

use crate::error::TransportError;

verus! {

/// Outcome returned by [`AuthHandler::process_auth_response`].
#[derive(Debug)]
pub enum AuthOutcome {
    /// Credentials accepted — connection moves to `Online`.
    Success,
    /// Server explicitly rejected credentials (wrong password, banned, etc.).
    /// The connection loop will stop retrying without new credentials.
    Unauthorized,
    /// Network or protocol error — try the next endpoint.
    Failed,
    /// Session token expired; new credentials provided in the returned bytes.
    /// The transport will send them as a fresh auth request on the next attempt.
    RetryWithNewPayload(Vec<u8>),
}

/// Protocol-agnostic authentication hook.
///
/// The transport calls these methods at the right moments during connection
/// setup — the implementor does not need to know about Noise or WS framing.
///
/// ## How auth is integrated into the connection lifecycle
///
/// 1. After the Noise XX handshake completes the transport calls
///    [`auth_payload`]. If it returns `Some(bytes)`, those bytes are sent
///    to the server as the first [`Frame`] (kind = `Message`, `id > 0`).
/// 2. The transport waits for the server's response frame.
/// 3. The response payload bytes are forwarded to [`process_auth_response`].
/// 4. Based on the returned [`AuthOutcome`] the transport either moves to
///    `Online`, stops reconnecting, or tries the next endpoint.
///
/// If [`auth_payload`] returns `None`, auth is skipped and the connection
/// goes directly to `Online` after the Noise handshake.
pub trait AuthHandler: Send + Sync {
    /// Returns the serialized auth request payload to send to the server.
    ///
    /// Called once after each successful Noise handshake.
    /// Return `None` to skip authentication (anonymous connection).
    fn auth_payload(&self) -> Option<Vec<u8>>;

    /// Process the server's raw response to the auth request.
    ///
    /// The implementor deserialises `response` according to the application
    /// protocol and returns the appropriate [`AuthOutcome`].
    fn process_auth_response(&self, response: &[u8]) -> AuthOutcome;

    /// Called when the server sends a session-expired signal during normal
    /// operation (after the connection was previously `Online`).
    ///
    /// The implementor should clear any cached session tokens so the next
    /// reconnect attempt starts with fresh credentials.
    fn on_session_expired(&self);
}

/// A no-op [`AuthHandler`] for services that do not require authentication.
pub struct NoAuth;

impl AuthHandler for NoAuth {
    fn auth_payload(&self) -> (r: Option<Vec<u8>>)
        ensures
            r is None,
    {
        None
    }

    fn process_auth_response(&self, _response: &[u8]) -> (r: AuthOutcome)
        ensures
            r is Success,
    {
        AuthOutcome::Success
    }

    fn on_session_expired(&self) {
    }
}

/// The result that an outcome stands for.
pub open spec fn outcome_result(outcome: AuthOutcome) -> Result<(), TransportError> {
    match outcome {
        AuthOutcome::Success => Ok(()),
        AuthOutcome::Unauthorized => Err(TransportError::Unauthorized),
        AuthOutcome::Failed => Err(TransportError::AuthTimeout),
        AuthOutcome::RetryWithNewPayload(_) => Err(TransportError::AuthTimeout),
    }
}

impl From<AuthOutcome> for Result<(), TransportError> {
    fn from(outcome: AuthOutcome) -> (r: Result<(), TransportError>) {
        match outcome {
            AuthOutcome::Success => Ok(()),
            AuthOutcome::Unauthorized => Err(TransportError::Unauthorized),
            AuthOutcome::Failed => Err(TransportError::AuthTimeout),
            AuthOutcome::RetryWithNewPayload(_) => Err(TransportError::AuthTimeout),
        }
    }
}

impl vstd::std_specs::convert::FromSpecImpl<AuthOutcome> for Result<(), TransportError> {
    open spec fn obeys_from_spec() -> bool {
        true
    }

    open spec fn from_spec(outcome: AuthOutcome) -> Result<(), TransportError> {
        outcome_result(outcome)
    }
}

/// Only an accepted authentication is a success, and only a rejected one stops the client; the
/// others can be tried again.
pub proof fn law_only_acceptance_is_success(outcome: AuthOutcome)
    ensures
        outcome_result(outcome) is Ok <==> outcome is Success,
        outcome_result(outcome) matches Err(TransportError::Unauthorized) <==> outcome
            is Unauthorized,
        outcome_result(outcome) matches Err(TransportError::AuthTimeout) <==> outcome is Failed
            || outcome is RetryWithNewPayload,
{
}

} // verus!
