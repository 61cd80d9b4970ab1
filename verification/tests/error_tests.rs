use notifiapp_transport::auth::{AuthHandler, AuthOutcome, NoAuth};
use notifiapp_transport::error::{CryptoError, TransportError};
use notifiapp_transport::runtime::{duration_of, seconds};
use notifiapp_transport::state::ConnectionState;
use notifiapp_transport::text::{
    contains, decimal_text, joined, strip_prefix, strip_prefixes, trim,
};
use notifiapp_transport::utils::{protocol_string_fault, validate_protocol_string};
use std::time::Duration;

#[test]
fn errors_are_described() {
    let s = || "x".to_string();
    let cases = [
        (TransportError::ConnectionFailed(s()), "connection failed: x"),
        (TransportError::ConnectionClosed, "connection closed"),
        (TransportError::NoEndpoints, "endpoint list is empty"),
        (TransportError::InvalidUrl(s()), "invalid endpoint URL: x"),
        (TransportError::NoiseHandshakeFailed(s()), "noise handshake failed: x"),
        (TransportError::NoiseEncryptFailed(s()), "noise encryption failed: x"),
        (TransportError::NoiseDecryptFailed(s()), "noise decryption failed: x"),
        (TransportError::Unauthorized, "authentication failed: unauthorized"),
        (TransportError::AuthTimeout, "authentication timed out"),
        (TransportError::SessionExpired, "session expired"),
        (
            TransportError::VersionMismatch { client: "1".to_string(), server: "2".to_string() },
            "version mismatch: client=1, server=2",
        ),
        (TransportError::ProtocolHandshakeFailed, "protocol handshake failed"),
        (
            TransportError::PayloadTooLarge { max: 4194304 },
            "payload exceeds maximum size of 4194304 bytes",
        ),
        (TransportError::EncodeError(s()), "frame encoding failed: x"),
        (TransportError::DecodeError(s()), "frame decoding failed: x"),
        (TransportError::RequestTimeout, "request timed out"),
        (TransportError::ChannelError, "internal channel error"),
        (TransportError::BufferFull, "buffer is full, cannot enqueue frame"),
        (TransportError::HttpError(s()), "http error: x"),
        (TransportError::SseStreamClosed, "sse stream closed"),
    ];
    for (e, text) in cases {
        assert_eq!(e.message(), text);
    }
    assert_eq!(CryptoError::InvalidState.message(), "invalid noise state");
    assert_eq!(CryptoError::PatternParse(s()).message(), "noise pattern parse error: x");
    assert_eq!(CryptoError::HandshakeFailed(s()).message(), "noise handshake failed: x");
}

#[test]
fn codec_errors_are_decode_errors() {
    let e = TransportError::from(postcard::Error::DeserializeBadUtf8);
    assert_eq!(e.message(), "frame decoding failed: Tried to parse invalid utf-8");
}

#[test]
fn outcomes_are_results() {
    let to = |o: AuthOutcome| -> Result<(), TransportError> { o.into() };
    assert!(to(AuthOutcome::Success).is_ok());
    assert!(matches!(to(AuthOutcome::Unauthorized), Err(TransportError::Unauthorized)));
    assert!(matches!(to(AuthOutcome::Failed), Err(TransportError::AuthTimeout)));
    assert!(matches!(
        to(AuthOutcome::RetryWithNewPayload(vec![1])),
        Err(TransportError::AuthTimeout)
    ));
}

#[test]
fn no_auth_asks_for_nothing() {
    assert_eq!(NoAuth.auth_payload(), None);
    assert!(matches!(NoAuth.process_auth_response(b"NO"), AuthOutcome::Success));
    NoAuth.on_session_expired();
}

#[test]
fn states_are_told_apart() {
    let online = ConnectionState::Online;
    assert!(online.is_online() && !online.is_connecting() && !online.is_terminal());
    let connecting = [
        ConnectionState::Connecting,
        ConnectionState::Reconnecting { attempt: 1, delay: Duration::from_secs(2) },
        ConnectionState::Handshaking,
        ConnectionState::Authenticating,
        ConnectionState::WaitingForAuth,
    ];
    for state in connecting {
        assert!(!state.is_online() && state.is_connecting() && !state.is_terminal());
    }
    let terminal = [
        ConnectionState::Unauthorized,
        ConnectionState::VersionMismatch { client: "1".to_string(), server: "2".to_string() },
    ];
    for state in terminal {
        assert!(!state.is_online() && !state.is_connecting() && state.is_terminal());
    }
    for state in [ConnectionState::Disconnected, ConnectionState::Error("e".to_string())] {
        assert!(!state.is_online() && !state.is_connecting() && !state.is_terminal());
    }
}

#[test]
fn protocol_strings_are_checked() {
    for s in ["", "MY_SERVICE", "1.0.0", "a-b_c.D9"] {
        validate_protocol_string(s);
        assert_eq!(protocol_string_fault(s), None);
    }
    for s in ["my service", "1.0\n", "naïve", "a/b", "a:b", "[", "`", "@", "{"] {
        assert_eq!(
            protocol_string_fault(s),
            Some(format!(
                "Invalid character in protocol string (only alphanumeric, '.', '-', '_' are allowed): {}",
                s
            ))
        );
    }
}

#[test]
fn text_is_trimmed() {
    for s in ["", "  ", " a b ", "\t\r\n x\u{b}", "\u{a0}nb\u{3000}", "é ", "plain"] {
        assert_eq!(trim(s), s.trim());
    }
    assert_eq!(strip_prefixes("A A B", "A "), "B");
    assert_eq!(strip_prefixes("B A ", "A "), "B A ");
    assert_eq!(strip_prefixes("B", ""), "B");
    assert_eq!(joined("ab", "cd"), "abcd");
}

#[test]
fn white_space_is_what_unicode_says() {
    for c in '\u{0}'..='\u{ffff}' {
        let white = matches!(
            c,
            '\u{9}'..='\u{d}'
                | ' '
                | '\u{85}'
                | '\u{a0}'
                | '\u{1680}'
                | '\u{2000}'..='\u{200a}'
                | '\u{2028}'
                | '\u{2029}'
                | '\u{202f}'
                | '\u{205f}'
                | '\u{3000}'
        );
        assert_eq!(trim(&c.to_string()).is_empty(), white);
    }
}

#[test]
fn patterns_are_found() {
    for s in ["", "a", "ab", "aab", "xaabé", "éaab", "PROTOCOL_ACCEPTED"] {
        for pattern in ["", "a", "ab", "b", "é", "aab", "ACCEPTED", "PROTOCOL_", "aabaab"] {
            assert_eq!(contains(s, pattern), s.contains(pattern));
            assert_eq!(strip_prefix(s, pattern), s.strip_prefix(pattern));
        }
    }
}

#[test]
fn numbers_are_written_in_decimal() {
    for n in [0u64, 7, 10, 99, 100, 4194304, u64::MAX] {
        assert_eq!(decimal_text(n), n.to_string());
    }
}

#[test]
fn durations_are_made_of_nanoseconds() {
    assert_eq!(seconds(2), Duration::from_secs(2));
    assert_eq!(duration_of(1_500_000_000), Duration::from_millis(1500));
    assert_eq!(duration_of(u128::MAX), Duration::MAX);
    assert_eq!(duration_of(0), Duration::ZERO);
}
