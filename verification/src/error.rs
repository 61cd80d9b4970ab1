//! The errors of the library, and the texts that describe them.
use vstd::prelude::*;
use vstd::string::*;

use crate::text;
use crate::text::{decimal_text, joined};
use crate::wire;
use crate::wire::error_text;

verus! {

/// Top-level error type for all transport operations.
#[derive(Debug, Clone)]
pub enum TransportError {
    /// The connection could not be opened.
    ConnectionFailed(String),
    /// The connection was closed.
    ConnectionClosed,
    /// No endpoint is registered.
    NoEndpoints,
    /// The endpoint is no URL.
    InvalidUrl(String),
    /// The Noise key exchange failed.
    NoiseHandshakeFailed(String),
    /// A message could not be encrypted.
    NoiseEncryptFailed(String),
    /// A message could not be decrypted.
    NoiseDecryptFailed(String),
    /// The server rejected the credentials.
    Unauthorized,
    /// No answer to the credentials came in time.
    AuthTimeout,
    /// The session has expired.
    SessionExpired,
    /// Client and server speak different protocol versions.
    VersionMismatch { client: String, server: String },
    /// The version handshake broke off.
    ProtocolHandshakeFailed,
    /// A payload is longer than the limit.
    PayloadTooLarge { max: usize },
    /// A frame could not be encoded.
    EncodeError(String),
    /// A frame could not be decoded.
    DecodeError(String),
    /// No response came in time.
    RequestTimeout,
    /// The task on the other end of a channel is gone.
    ChannelError,
    /// The queue of outgoing frames is full.
    BufferFull,
    /// An HTTP request failed.
    HttpError(String),
    /// The event stream ended.
    SseStreamClosed,
}

impl TransportError {
    /// The text that describes the error.
    pub open spec fn text(self) -> Seq<char> {
        match self {
            TransportError::ConnectionFailed(s) => "connection failed: "@ + s@,
            TransportError::ConnectionClosed => "connection closed"@,
            TransportError::NoEndpoints => "endpoint list is empty"@,
            TransportError::InvalidUrl(s) => "invalid endpoint URL: "@ + s@,
            TransportError::NoiseHandshakeFailed(s) => "noise handshake failed: "@ + s@,
            TransportError::NoiseEncryptFailed(s) => "noise encryption failed: "@ + s@,
            TransportError::NoiseDecryptFailed(s) => "noise decryption failed: "@ + s@,
            TransportError::Unauthorized => "authentication failed: unauthorized"@,
            TransportError::AuthTimeout => "authentication timed out"@,
            TransportError::SessionExpired => "session expired"@,
            TransportError::VersionMismatch { client, server } => "version mismatch: client="@
                + client@ + ", server="@ + server@,
            TransportError::ProtocolHandshakeFailed => "protocol handshake failed"@,
            TransportError::PayloadTooLarge { max } => "payload exceeds maximum size of "@
                + text::decimal(max as nat) + " bytes"@,
            TransportError::EncodeError(s) => "frame encoding failed: "@ + s@,
            TransportError::DecodeError(s) => "frame decoding failed: "@ + s@,
            TransportError::RequestTimeout => "request timed out"@,
            TransportError::ChannelError => "internal channel error"@,
            TransportError::BufferFull => "buffer is full, cannot enqueue frame"@,
            TransportError::HttpError(s) => "http error: "@ + s@,
            TransportError::SseStreamClosed => "sse stream closed"@,
        }
    }

    /// Describes the error in words.
    pub fn message(&self) -> (r: String)
        ensures
            r@ == self.text(),
    {
        match self {
            TransportError::ConnectionFailed(s) => joined("connection failed: ", s.as_str()),
            TransportError::ConnectionClosed => "connection closed".to_owned(),
            TransportError::NoEndpoints => "endpoint list is empty".to_owned(),
            TransportError::InvalidUrl(s) => joined("invalid endpoint URL: ", s.as_str()),
            TransportError::NoiseHandshakeFailed(s) => joined(
                "noise handshake failed: ",
                s.as_str(),
            ),
            TransportError::NoiseEncryptFailed(s) => joined(
                "noise encryption failed: ",
                s.as_str(),
            ),
            TransportError::NoiseDecryptFailed(s) => joined(
                "noise decryption failed: ",
                s.as_str(),
            ),
            TransportError::Unauthorized => "authentication failed: unauthorized".to_owned(),
            TransportError::AuthTimeout => "authentication timed out".to_owned(),
            TransportError::SessionExpired => "session expired".to_owned(),
            TransportError::VersionMismatch { client, server } => {
                let mut text = joined("version mismatch: client=", client.as_str());
                text.append(", server=");
                text.append(server.as_str());
                text
            },
            TransportError::ProtocolHandshakeFailed => "protocol handshake failed".to_owned(),
            TransportError::PayloadTooLarge { max } => {
                let number = decimal_text(*max as u64);
                let mut text = joined("payload exceeds maximum size of ", number.as_str());
                text.append(" bytes");
                text
            },
            TransportError::EncodeError(s) => joined("frame encoding failed: ", s.as_str()),
            TransportError::DecodeError(s) => joined("frame decoding failed: ", s.as_str()),
            TransportError::RequestTimeout => "request timed out".to_owned(),
            TransportError::ChannelError => "internal channel error".to_owned(),
            TransportError::BufferFull => "buffer is full, cannot enqueue frame".to_owned(),
            TransportError::HttpError(s) => joined("http error: ", s.as_str()),
            TransportError::SseStreamClosed => "sse stream closed".to_owned(),
        }
    }
}

impl From<postcard::Error> for TransportError {
    fn from(e: postcard::Error) -> (r: TransportError)
        ensures
            r matches TransportError::DecodeError(s) && s@ == wire::codec_text(e),
    {
        TransportError::DecodeError(error_text(&e))
    }
}

impl vstd::std_specs::convert::FromSpecImpl<postcard::Error> for TransportError {
    open spec fn obeys_from_spec() -> bool {
        false
    }

    open spec fn from_spec(e: postcard::Error) -> TransportError {
        TransportError::ConnectionClosed
    }
}

/// Cryptographic error type for Noise protocol implementation.
#[derive(Debug, Clone)]
pub enum CryptoError {
    /// The name of the Noise protocol is not understood.
    PatternParse(String),
    /// The key exchange failed.
    HandshakeFailed(String),
    /// A message could not be encrypted.
    EncryptFailed(String),
    /// A message could not be decrypted.
    DecryptFailed(String),
    /// The session has failed before and holds no state any more.
    InvalidState,
    /// A key does not have 32 bytes.
    InvalidKeyLength,
}

impl CryptoError {
    /// The text that describes the error.
    pub open spec fn text(self) -> Seq<char> {
        match self {
            CryptoError::PatternParse(s) => "noise pattern parse error: "@ + s@,
            CryptoError::HandshakeFailed(s) => "noise handshake failed: "@ + s@,
            CryptoError::EncryptFailed(s) => "noise encryption failed: "@ + s@,
            CryptoError::DecryptFailed(s) => "noise decryption failed: "@ + s@,
            CryptoError::InvalidState => "invalid noise state"@,
            CryptoError::InvalidKeyLength => "unexpected key length"@,
        }
    }

    /// Describes the error in words.
    pub fn message(&self) -> (r: String)
        ensures
            r@ == self.text(),
    {
        match self {
            CryptoError::PatternParse(s) => joined("noise pattern parse error: ", s.as_str()),
            CryptoError::HandshakeFailed(s) => joined("noise handshake failed: ", s.as_str()),
            CryptoError::EncryptFailed(s) => joined("noise encryption failed: ", s.as_str()),
            CryptoError::DecryptFailed(s) => joined("noise decryption failed: ", s.as_str()),
            CryptoError::InvalidState => "invalid noise state".to_owned(),
            CryptoError::InvalidKeyLength => "unexpected key length".to_owned(),
        }
    }
}

/// What a cryptographic error is to the transport: the three Noise failures keep their text, the
/// others become a failed connection.
pub open spec fn crypto_as_transport(e: CryptoError, r: TransportError) -> bool {
    match e {
        CryptoError::HandshakeFailed(s) => r == TransportError::NoiseHandshakeFailed(s),
        CryptoError::EncryptFailed(s) => r == TransportError::NoiseEncryptFailed(s),
        CryptoError::DecryptFailed(s) => r == TransportError::NoiseDecryptFailed(s),
        other => r matches TransportError::ConnectionFailed(s) && s@ == other.text(),
    }
}

impl From<CryptoError> for TransportError {
    fn from(e: CryptoError) -> (r: TransportError)
        ensures
            crypto_as_transport(e, r),
    {
        match e {
            CryptoError::HandshakeFailed(s) => TransportError::NoiseHandshakeFailed(s),
            CryptoError::EncryptFailed(s) => TransportError::NoiseEncryptFailed(s),
            CryptoError::DecryptFailed(s) => TransportError::NoiseDecryptFailed(s),
            other => TransportError::ConnectionFailed(other.message()),
        }
    }
}

impl vstd::std_specs::convert::FromSpecImpl<CryptoError> for TransportError {
    open spec fn obeys_from_spec() -> bool {
        false
    }

    open spec fn from_spec(e: CryptoError) -> TransportError {
        TransportError::ConnectionClosed
    }
}

/// An error that carries a detail shows all of it, behind words that say what failed.
pub proof fn law_detail_is_shown_whole(s: String, t: String, max: usize)
    ensures
        TransportError::ConnectionFailed(s).text() == "connection failed: "@ + s@,
        TransportError::InvalidUrl(s).text() == "invalid endpoint URL: "@ + s@,
        TransportError::NoiseHandshakeFailed(s).text() == "noise handshake failed: "@ + s@,
        TransportError::NoiseEncryptFailed(s).text() == "noise encryption failed: "@ + s@,
        TransportError::NoiseDecryptFailed(s).text() == "noise decryption failed: "@ + s@,
        TransportError::EncodeError(s).text() == "frame encoding failed: "@ + s@,
        TransportError::DecodeError(s).text() == "frame decoding failed: "@ + s@,
        TransportError::HttpError(s).text() == "http error: "@ + s@,
        (TransportError::VersionMismatch { client: s, server: t }).text()
            == "version mismatch: client="@ + s@ + ", server="@ + t@,
        (TransportError::PayloadTooLarge { max }).text() == "payload exceeds maximum size of "@
            + text::decimal(max as nat) + " bytes"@,
        CryptoError::PatternParse(s).text() == "noise pattern parse error: "@ + s@,
        CryptoError::HandshakeFailed(s).text() == "noise handshake failed: "@ + s@,
        CryptoError::EncryptFailed(s).text() == "noise encryption failed: "@ + s@,
        CryptoError::DecryptFailed(s).text() == "noise decryption failed: "@ + s@,
{
}

/// A failure of the encryption reads the same whether it is shown as such or as a failure of the
/// transport; any other cryptographic error is shown behind that the connection failed.
pub proof fn law_crypto_errors_keep_their_text(e: CryptoError, r: TransportError)
    requires
        crypto_as_transport(e, r),
    ensures
        e is HandshakeFailed || e is EncryptFailed || e is DecryptFailed ==> r.text() == e.text(),
        !(e is HandshakeFailed || e is EncryptFailed || e is DecryptFailed) ==> r.text()
            == "connection failed: "@ + e.text(),
        e is HandshakeFailed <==> r is NoiseHandshakeFailed,
        e is EncryptFailed <==> r is NoiseEncryptFailed,
        e is DecryptFailed <==> r is NoiseDecryptFailed,
{
}

} // verus!
