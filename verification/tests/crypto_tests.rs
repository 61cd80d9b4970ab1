use notifiapp_transport::crypto::{generate_keypair, to_key, NoiseSession, NOISE_PATTERN};
use notifiapp_transport::error::{CryptoError, TransportError};

fn perform_handshake(client: &mut NoiseSession, server: &mut NoiseSession) {
    let mut buf = vec![0u8; 65535];
    // -> E
    let n = client.write_message(&[], &mut buf).unwrap();
    assert_eq!(n, 32);
    let _ = server.read_message(&buf[..n], &mut buf.clone()).unwrap();
    // <- E, EE, S, ES
    let n = server.write_message(&[], &mut buf).unwrap();
    assert_eq!(n, 96);
    let _ = client.read_message(&buf[..n], &mut buf.clone()).unwrap();
    // -> S, SE
    let n = client.write_message(&[], &mut buf).unwrap();
    assert_eq!(n, 64);
    let _ = server.read_message(&buf[..n], &mut buf.clone()).unwrap();
    assert!(client.is_finished());
    assert!(server.is_finished());
}

fn connected() -> (NoiseSession, NoiseSession) {
    let (server_priv, _) = generate_keypair().unwrap();
    let mut client = NoiseSession::client(None).unwrap();
    let mut server = NoiseSession::server(&server_priv).unwrap();
    perform_handshake(&mut client, &mut server);
    (client, server)
}

#[test]
fn round_trip_small_payload() {
    let (server_priv, _server_pub) = generate_keypair().unwrap();
    let mut client = NoiseSession::client(None).unwrap();
    let mut server = NoiseSession::server(&server_priv).unwrap();
    perform_handshake(&mut client, &mut server);

    let plain = b"hello noise world";
    let chunks = client.encrypt_chunked(plain).unwrap();
    let decrypted = server.decrypt_chunked(&chunks).unwrap();
    assert_eq!(decrypted, plain);
}

#[test]
fn round_trip_large_payload() {
    let (server_priv, _) = generate_keypair().unwrap();
    let mut client = NoiseSession::client(None).unwrap();
    let mut server = NoiseSession::server(&server_priv).unwrap();
    perform_handshake(&mut client, &mut server);

    let plain = vec![0x42u8; 200_000]; // 200 KB — requires ≥4 chunks
    let chunks = client.encrypt_chunked(&plain).unwrap();
    let decrypted = server.decrypt_chunked(&chunks).unwrap();
    assert_eq!(decrypted, plain);
}

#[test]
fn pattern_is_noise_xx() {
    assert_eq!(NOISE_PATTERN, "Noise_XX_25519_ChaChaPoly_BLAKE2b");
}

#[test]
fn chunks_are_cut_at_the_noise_limit() {
    let (mut client, mut server) = connected();
    let chunks = client.encrypt_chunked(&vec![1u8; 65519 * 2 + 1]).unwrap();
    let lens: Vec<usize> = chunks.iter().map(|c| c.len()).collect();
    assert_eq!(lens, vec![65535, 65535, 17]);
    assert_eq!(server.decrypt_chunked(&chunks).unwrap(), vec![1u8; 65519 * 2 + 1]);
    assert_eq!(client.encrypt_chunked(&[]).unwrap().len(), 0);
    assert_eq!(server.decrypt_chunked(&[]).unwrap(), Vec::<u8>::new());
}

#[test]
fn encryption_hides_and_numbers_messages() {
    let (mut client, mut server) = connected();
    let first = client.encrypt_chunked(b"same bytes").unwrap();
    let second = client.encrypt_chunked(b"same bytes").unwrap();
    assert_ne!(first[0][..10], b"same bytes"[..]);
    assert_ne!(first, second);
    assert_eq!(server.decrypt_chunked(&first).unwrap(), b"same bytes");
    assert_eq!(server.decrypt_chunked(&second).unwrap(), b"same bytes");
    // The other direction has its own key and numbers.
    let back = server.encrypt_chunked(b"back").unwrap();
    assert_eq!(client.decrypt_chunked(&back).unwrap(), b"back");
}

#[test]
fn a_message_out_of_turn_fails_for_good() {
    let (mut client, mut server) = connected();
    let _lost = client.encrypt_chunked(b"lost").unwrap();
    let next = client.encrypt_chunked(b"next").unwrap();
    match server.decrypt_chunked(&next) {
        Err(CryptoError::DecryptFailed(text)) => assert_eq!(text, "Noise transport read: Decrypt"),
        other => panic!("unexpected result {:?}", other),
    }
    assert!(!server.is_finished());
    match server.decrypt_chunked(&next) {
        Err(CryptoError::InvalidState) => {}
        other => panic!("unexpected result {:?}", other),
    }
    match server.encrypt_chunked(b"x") {
        Err(e) => assert_eq!(e.detail(), "NoiseSession: invalid state"),
        other => panic!("unexpected result {:?}", other),
    }
}

#[test]
fn a_changed_byte_is_noticed() {
    let (mut client, mut server) = connected();
    let mut chunks = client.encrypt_chunked(b"payload").unwrap();
    chunks[0][3] ^= 1;
    assert!(matches!(server.decrypt_chunked(&chunks), Err(CryptoError::DecryptFailed(_))));
}

#[test]
fn the_first_message_carries_its_payload_in_the_clear() {
    let (server_priv, _) = generate_keypair().unwrap();
    let mut client = NoiseSession::client(None).unwrap();
    let mut server = NoiseSession::server(&server_priv).unwrap();
    let mut packet = vec![0u8; 200];
    let n = client.write_message(b"hi", &mut packet).unwrap();
    assert_eq!(n, 34);
    let mut payload = vec![9u8; 10];
    assert_eq!(server.read_message(&packet[..n], &mut payload).unwrap(), 2);
    assert_eq!(payload, vec![b'h', b'i', 9, 9, 9, 9, 9, 9, 9, 9]);
}

#[test]
fn handshake_messages_can_be_decrypted_as_chunks() {
    let (server_priv, _) = generate_keypair().unwrap();
    let mut client = NoiseSession::client(None).unwrap();
    let mut server = NoiseSession::server(&server_priv).unwrap();
    let mut buf = vec![0u8; 65535];
    let n = client.write_message(b"one", &mut buf).unwrap();
    assert_eq!(server.decrypt_chunked(&[buf[..n].to_vec()]).unwrap(), b"one");
    let n = server.write_message(b"two", &mut buf).unwrap();
    assert_eq!(client.decrypt_chunked(&[buf[..n].to_vec()]).unwrap(), b"two");
    let n = client.write_message(b"three", &mut buf).unwrap();
    let last = buf[..n].to_vec();
    let sealed = client.encrypt_chunked(b"four").unwrap().remove(0);
    // The last message of the handshake and the first of the channel behind it.
    assert_eq!(server.decrypt_chunked(&[last, sealed]).unwrap(), b"threefour");
    // Out of turn, nothing is accepted.
    let mut early = NoiseSession::client(None).unwrap();
    assert!(matches!(
        early.decrypt_chunked(&[vec![0u8; 32]]),
        Err(CryptoError::HandshakeFailed(_))
    ));
}

#[test]
fn a_changed_handshake_message_is_refused() {
    let (server_priv, _) = generate_keypair().unwrap();
    let mut client = NoiseSession::client(None).unwrap();
    let mut server = NoiseSession::server(&server_priv).unwrap();
    let mut buf = vec![0u8; 65535];
    let mut payload = vec![0u8; 65535];
    let n = client.write_message(&[], &mut buf).unwrap();
    server.read_message(&buf[..n], &mut payload).unwrap();
    let n = server.write_message(&[], &mut buf).unwrap();
    buf[n - 1] ^= 1;
    assert!(matches!(
        client.read_message(&buf[..n], &mut payload),
        Err(CryptoError::HandshakeFailed(_))
    ));
}

#[test]
fn a_short_handshake_message_is_refused() {
    let (server_priv, _) = generate_keypair().unwrap();
    let mut server = NoiseSession::server(&server_priv).unwrap();
    let mut payload = vec![0u8; 100];
    match server.read_message(&[1u8; 31], &mut payload) {
        Err(CryptoError::HandshakeFailed(text)) => {
            assert_eq!(text, "Noise handshake read: Input")
        }
        other => panic!("unexpected result {:?}", other),
    }
}

#[test]
fn writing_out_of_turn_is_refused() {
    let (server_priv, _) = generate_keypair().unwrap();
    let mut server = NoiseSession::server(&server_priv).unwrap();
    let mut packet = vec![0u8; 65535];
    match server.write_message(&[], &mut packet) {
        Err(CryptoError::HandshakeFailed(text)) => {
            assert_eq!(text, "Noise handshake write: State(NotTurnToWrite)")
        }
        other => panic!("unexpected result {:?}", other),
    }
}

#[test]
fn encrypting_before_the_handshake_fails() {
    let mut client = NoiseSession::client(None).unwrap();
    match client.encrypt_chunked(b"early") {
        Err(CryptoError::HandshakeFailed(text)) => {
            assert_eq!(text, "Noise handshake write: Input")
        }
        other => panic!("unexpected result {:?}", other),
    }
}

#[test]
fn a_pinned_client_connects() {
    let (server_priv, server_pub) = generate_keypair().unwrap();
    let mut client = NoiseSession::client(Some(&server_pub)).unwrap();
    let mut server = NoiseSession::server(&server_priv).unwrap();
    perform_handshake(&mut client, &mut server);
    let chunks = server.encrypt_chunked(b"pinned").unwrap();
    assert_eq!(client.decrypt_chunked(&chunks).unwrap(), b"pinned");
}

#[test]
fn a_pinned_key_rejects_other_servers() {
    let (server_priv, server_pub) = generate_keypair().unwrap();
    let (_, other_pub) = generate_keypair().unwrap();
    let (client_priv, _) = generate_keypair().unwrap();
    let mut buf = vec![0u8; 65535];
    let mut payload = vec![0u8; 65535];
    let short = &server_pub[..31];
    let mut long = server_pub.to_vec();
    long.push(0);
    for pinned in [&other_pub[..], short, &long[..], &[1u8; 56]] {
        let mut client = NoiseSession::client_with_key(&client_priv, Some(pinned)).unwrap();
        let mut server = NoiseSession::server(&server_priv).unwrap();
        let n = client.write_message(&[], &mut buf).unwrap();
        server.read_message(&buf[..n], &mut payload).unwrap();
        let n = server.write_message(&[], &mut buf).unwrap();
        match client.read_message(&buf[..n], &mut payload) {
            Err(CryptoError::HandshakeFailed(text)) => {
                assert_eq!(text, "server key is not the pinned one")
            }
            other => panic!("unexpected result {:?}", other),
        }
        // The session has failed for good.
        assert!(matches!(
            client.write_message(&[], &mut buf),
            Err(CryptoError::InvalidState)
        ));
    }
}

#[test]
fn a_blank_pin_accepts_any_server() {
    let (server_priv, _) = generate_keypair().unwrap();
    let (client_priv, _) = generate_keypair().unwrap();
    for pinned in [None, Some(&[0u8; 32][..]), Some(&[][..])] {
        let mut client = NoiseSession::client_with_key(&client_priv, pinned).unwrap();
        let mut server = NoiseSession::server(&server_priv).unwrap();
        perform_handshake(&mut client, &mut server);
    }
}

#[test]
fn key_pairs_are_fresh() {
    let (a, b) = generate_keypair().unwrap();
    let (c, d) = generate_keypair().unwrap();
    assert_ne!(a, c);
    assert_ne!(b, d);
    assert_ne!(a, b);
}

#[test]
fn the_public_key_belongs_to_the_private_one() {
    let (server_priv, server_pub) = generate_keypair().unwrap();
    let (client_priv, _) = generate_keypair().unwrap();
    let builder = snow::Builder::new(NOISE_PATTERN.parse().unwrap());
    let mut client =
        builder.local_private_key(&client_priv).unwrap().build_initiator().unwrap();
    let mut server = NoiseSession::server(&server_priv).unwrap();
    let mut packet = vec![0u8; 65535];
    let mut payload = vec![0u8; 65535];
    let n = client.write_message(&[], &mut packet).unwrap();
    server.read_message(&packet[..n], &mut payload).unwrap();
    let n = server.write_message(&[], &mut packet).unwrap();
    client.read_message(&packet[..n], &mut payload).unwrap();
    assert_eq!(client.get_remote_static(), Some(&server_pub[..]));
}

#[test]
fn keys_have_32_bytes() {
    assert_eq!(to_key(&vec![5u8; 32]), Some([5u8; 32]));
    assert_eq!(to_key(&vec![5u8; 31]), None);
    assert_eq!(to_key(&vec![5u8; 33]), None);
}

#[test]
fn crypto_errors_become_transport_errors() {
    let cases = [
        (CryptoError::HandshakeFailed("a".to_string()), "noise handshake failed: a"),
        (CryptoError::EncryptFailed("b".to_string()), "noise encryption failed: b"),
        (CryptoError::DecryptFailed("c".to_string()), "noise decryption failed: c"),
        (CryptoError::InvalidState, "connection failed: invalid noise state"),
        (CryptoError::InvalidKeyLength, "connection failed: unexpected key length"),
        (
            CryptoError::PatternParse("d".to_string()),
            "connection failed: noise pattern parse error: d",
        ),
    ];
    for (e, text) in cases {
        assert_eq!(TransportError::from(e).message(), text);
    }
}
