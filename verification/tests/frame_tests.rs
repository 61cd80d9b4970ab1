use notifiapp_transport::error::TransportError;
use notifiapp_transport::frame::{
    decode_frame, encode_frame, Frame, FrameAccumulator, FrameKind,
};

#[test]
fn test_frame_encode_decode_round_trip() {
    let frame = Frame {
        id: 42,
        kind: FrameKind::Message,
        data: b"hello world".to_vec(),
    };

    let encoded = encode_frame(&frame).unwrap();
    // The first 4 bytes are the length of the payload
    let len_bytes: [u8; 4] = encoded[0..4].try_into().unwrap();
    let payload_len = u32::from_le_bytes(len_bytes) as usize;
    assert_eq!(payload_len, encoded.len() - 4);

    // Decode from raw bytes (excluding the 4-byte length prefix as FrameAccumulator does)
    let decoded = decode_frame(&encoded[4..]).unwrap();
    assert_eq!(decoded.id, frame.id);
    assert_eq!(decoded.kind, frame.kind);
    assert_eq!(decoded.data, frame.data);
}

#[test]
fn test_frame_accumulator_single_chunk() {
    let frame = Frame {
        id: 1,
        kind: FrameKind::Event,
        data: vec![0xAA; 100],
    };
    let encoded = encode_frame(&frame).unwrap();

    let mut accumulator = FrameAccumulator::new();
    let res = accumulator.feed(&encoded, 1024).unwrap();
    assert!(res.is_some());
    let decoded = decode_frame(&res.unwrap()).unwrap();
    assert_eq!(decoded.id, 1);
    assert_eq!(decoded.data.len(), 100);
}

#[test]
fn test_frame_accumulator_multiple_chunks() {
    let frame = Frame {
        id: 2,
        kind: FrameKind::Message,
        data: vec![0xBB; 200],
    };
    let encoded = encode_frame(&frame).unwrap();

    let mut accumulator = FrameAccumulator::new();

    // Split the encoded buffer into 3 chunks
    let chunk1 = &encoded[..50];
    let chunk2 = &encoded[50..150];
    let chunk3 = &encoded[150..];

    assert_eq!(accumulator.feed(chunk1, 1024).unwrap(), None);
    assert_eq!(accumulator.feed(chunk2, 1024).unwrap(), None);

    let final_res = accumulator.feed(chunk3, 1024).unwrap();
    assert!(final_res.is_some());
    let decoded = decode_frame(&final_res.unwrap()).unwrap();
    assert_eq!(decoded.id, 2);
    assert_eq!(decoded.data.len(), 200);
}

#[test]
fn test_frame_accumulator_payload_too_large() {
    let mut accumulator = FrameAccumulator::new();

    // Declare a length of 5000 bytes (longer than max_bytes = 1000)
    let mut invalid_chunk = vec![0u8; 10];
    let bad_len = 5000u32;
    invalid_chunk[0..4].copy_from_slice(&bad_len.to_le_bytes());

    let res = accumulator.feed(&invalid_chunk, 1000);
    assert!(res.is_err());
}

#[test]
fn test_frame_accumulator_too_short() {
    let mut accumulator = FrameAccumulator::new();
    let res = accumulator.feed(&[0, 1], 1000);
    assert!(res.is_err());
}

#[test]
fn encoding_is_length_id_kind_and_data() {
    let frame = Frame { id: 300, kind: FrameKind::Ping, data: vec![7, 8] };
    // 300 takes two bytes, 0xAC 0x02; the kind is 2; the data has two bytes.
    assert_eq!(
        encode_frame(&frame).unwrap(),
        vec![6, 0, 0, 0, 0xAC, 0x02, 2, 2, 7, 8]
    );
}

#[test]
fn every_kind_is_read_back() {
    let kinds = [FrameKind::Message, FrameKind::Event, FrameKind::Ping, FrameKind::Pong];
    for kind in kinds {
        for id in [0u32, 1, 127, 128, 16384, u32::MAX] {
            let frame = Frame { id, kind, data: vec![1; 130] };
            let encoded = encode_frame(&frame).unwrap();
            let back = decode_frame(&encoded[4..]).unwrap();
            assert_eq!((back.id, back.kind, back.data), (id, kind, vec![1; 130]));
        }
    }
}

#[test]
fn trailing_bytes_are_ignored() {
    let back = decode_frame(&[5, 1, 2, 9, 9, 77, 78]).unwrap();
    assert_eq!((back.id, back.kind, back.data), (5, FrameKind::Event, vec![9, 9]));
}

fn decode_error(bytes: &[u8]) -> String {
    match decode_frame(bytes) {
        Err(TransportError::DecodeError(text)) => text,
        other => panic!("unexpected result {:?}", other),
    }
}

#[test]
fn decoding_fails_with_a_text() {
    let short = "Hit the end of buffer, expected more data";
    let bad = "Found a varint that didn't terminate. Is the usize too big for this platform?";
    assert_eq!(decode_error(&[]), short);
    assert_eq!(decode_error(&[0x80]), short);
    assert_eq!(decode_error(&[1]), short);
    assert_eq!(decode_error(&[1, 0]), short);
    assert_eq!(decode_error(&[1, 0, 3, 1, 2]), short);
    // Five bytes whose last one does not fit 32 bits.
    assert_eq!(decode_error(&[0xff, 0xff, 0xff, 0xff, 0x10, 0, 0]), bad);
    assert_eq!(decode_error(&[0xff, 0xff, 0xff, 0xff, 0xff, 0, 0]), bad);
    assert_eq!(decode_error(&[1, 4, 0]), "Serde Deserialization Error");
    // The largest ID fits.
    assert_eq!(decode_frame(&[0xff, 0xff, 0xff, 0xff, 0x0f, 0, 0]).unwrap().id, u32::MAX);
}

#[test]
fn accumulator_errors_have_their_variants() {
    let mut accumulator = FrameAccumulator::new();
    match accumulator.feed(&[1, 2, 3], 100) {
        Err(TransportError::DecodeError(text)) => {
            assert_eq!(text, "frame too short for length prefix")
        }
        other => panic!("unexpected result {:?}", other),
    }
    match accumulator.feed(&[101, 0, 0, 0], 100) {
        Err(TransportError::PayloadTooLarge { max }) => assert_eq!(max, 100),
        other => panic!("unexpected result {:?}", other),
    }
}

#[test]
fn accumulator_limits_what_follows_the_first_chunk() {
    let mut accumulator = FrameAccumulator::new();
    assert_eq!(accumulator.feed(&[10, 0, 0, 0, 1], 10).unwrap(), None);
    assert!(matches!(
        accumulator.feed(&[2; 10], 10),
        Err(TransportError::PayloadTooLarge { max: 10 })
    ));
}

#[test]
fn accumulator_drops_what_exceeds_the_frame_and_starts_anew() {
    let mut accumulator = FrameAccumulator::default();
    assert_eq!(accumulator.feed(&[2, 0, 0, 0, 1, 2, 3], 10).unwrap(), Some(vec![1, 2]));
    assert_eq!(accumulator.feed(&[1, 0, 0, 0], 10).unwrap(), None);
    assert_eq!(accumulator.feed(&[9], 10).unwrap(), Some(vec![9]));
    assert_eq!(accumulator.feed(&[0, 0, 0, 0], 10).unwrap(), Some(vec![]));
}

#[test]
fn every_cut_reassembles() {
    let frame = Frame { id: 7, kind: FrameKind::Message, data: (0..50).collect() };
    let encoded = encode_frame(&frame).unwrap();
    for cut in 4..encoded.len() {
        let mut accumulator = FrameAccumulator::new();
        assert_eq!(accumulator.feed(&encoded[..cut], 1024).unwrap(), None);
        let bytes = accumulator.feed(&encoded[cut..], 1024).unwrap().unwrap();
        let back = decode_frame(&bytes).unwrap();
        assert_eq!((back.id, back.kind, back.data), (7, FrameKind::Message, (0..50).collect()));
    }
}
