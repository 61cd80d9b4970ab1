//! Frames, the lowest-level message unit, and their reassembly from chunks.
use vstd::prelude::*;
use vstd::slice::*;

use crate::error::TransportError;
use crate::wire;
use crate::wire::{error_text, read_bytes, take_u32, write_parts, BytesRead, VarintRead};

verus! {

/// Internal binary frame used by the transport layer.
/// Serialized with postcard, optionally encrypted with Noise.
///
/// Wire format (per WS message):
///   [4-byte LE u32 total_payload_length] [postcard(Frame) bytes]
///
/// For large payloads the Noise layer splits encrypted output into multiple
/// WS binary messages; the receiver accumulates them using the length prefix.
#[derive(Debug)]
pub struct Frame {
    /// Request/response correlation ID.
    /// - `0` → server-push event (no response expected).
    /// - `>0` → request; server responds with the same `id`.
    pub id: u32,
    /// Frame kind — controls routing in the connection loop.
    pub kind: FrameKind,
    /// Opaque application-level payload (postcard / JSON / binary).
    pub data: Vec<u8>,
}

/// Discriminator for the frame routing logic.
#[derive(Debug, Clone, Copy, PartialEq, Eq, Structural)]
pub enum FrameKind {
    /// Application request or response (matched by `id`).
    Message,
    /// Server-pushed event (broadcast to event callbacks, `id = 0`).
    Event,
    /// Transport-level heartbeat ping.
    Ping,
    /// Transport-level heartbeat pong (response to Ping).
    Pong,
}

/// What a frame says.
#[verifier::ext_equal]
pub struct FrameModel {
    pub id: u32,
    pub kind: FrameKind,
    pub data: Seq<u8>,
}

impl View for Frame {
    type V = FrameModel;

    open spec fn view(&self) -> FrameModel {
        FrameModel { id: self.id, kind: self.kind, data: self.data@ }
    }
}

impl FrameKind {
    /// The number that stands for the kind on the wire.
    pub open spec fn index(self) -> u32 {
        match self {
            FrameKind::Message => 0,
            FrameKind::Event => 1,
            FrameKind::Ping => 2,
            FrameKind::Pong => 3,
        }
    }

    /// The kind that a number on the wire stands for.
    pub open spec fn of_index(n: nat) -> Option<FrameKind> {
        if n == 0 {
            Some(FrameKind::Message)
        } else if n == 1 {
            Some(FrameKind::Event)
        } else if n == 2 {
            Some(FrameKind::Ping)
        } else if n == 3 {
            Some(FrameKind::Pong)
        } else {
            None
        }
    }

    fn to_index(self) -> (r: u32)
        ensures
            r == self.index(),
    {
        match self {
            FrameKind::Message => 0,
            FrameKind::Event => 1,
            FrameKind::Ping => 2,
            FrameKind::Pong => 3,
        }
    }

    fn from_index(n: u32) -> (r: Option<FrameKind>)
        ensures
            r == FrameKind::of_index(n as nat),
    {
        match n {
            0 => Some(FrameKind::Message),
            1 => Some(FrameKind::Event),
            2 => Some(FrameKind::Ping),
            3 => Some(FrameKind::Pong),
            _ => None,
        }
    }
}

/// The frame of a heartbeat.
pub open spec fn heartbeat_frame(kind: FrameKind) -> FrameModel {
    FrameModel { id: 0, kind, data: Seq::empty() }
}

/// The four bytes of a length, the lowest first.
pub open spec fn length_prefix(n: nat) -> Seq<u8> {
    seq![
        (n % 256) as u8,
        (n / 256 % 256) as u8,
        (n / 65536 % 256) as u8,
        (n / 16777216 % 256) as u8,
    ]
}

/// The length that four bytes give.
pub open spec fn prefixed_length(bytes: Seq<u8>) -> nat {
    (bytes[0] + 256 * bytes[1] + 65536 * bytes[2] + 16777216 * bytes[3]) as nat
}

/// The bytes of a frame without the length prefix.
pub open spec fn frame_payload(f: FrameModel) -> Seq<u8> {
    wire::varint(f.id as nat) + wire::varint(f.kind.index() as nat)
        + wire::varint(f.data.len()) + f.data
}

/// The bytes of a frame: its payload behind the payload's length. Of a length beyond 32 bits only
/// the lower 32 bits are written.
pub open spec fn frame_bytes(f: FrameModel) -> Seq<u8> {
    length_prefix(frame_payload(f).len()) + frame_payload(f)
}

/// Encode a frame into a length-prefixed byte buffer ready for Noise/WS.
pub fn encode_frame(frame: &Frame) -> (r: Result<Vec<u8>, TransportError>)
    ensures
        r matches Ok(bytes) && bytes@ == frame_bytes(frame@),
{
    match write_parts(frame.id, frame.kind.to_index(), frame.data.as_slice()) {
        Err(e) => Err(TransportError::EncodeError(error_text(&e))),
        Ok(payload) => {
            let len: usize = payload.len();
            let mut out: Vec<u8> = Vec::new();
            out.push((len % 256) as u8);
            out.push((len / 256 % 256) as u8);
            out.push((len / 65536 % 256) as u8);
            out.push((len / 16777216 % 256) as u8);
            out.extend_from_slice(payload.as_slice());
            assert(out@ =~= frame_bytes(frame@));
            Ok(out)
        },
    }
}

/// What decoding bytes gives: a frame, or the text of the failure.
pub open spec fn decoded(bytes: Seq<u8>) -> Result<FrameModel, Seq<char>> {
    match wire::read_varint_u32(bytes) {
        VarintRead::Short => Err(wire::short_text()),
        VarintRead::Bad => Err(wire::bad_varint_text()),
        VarintRead::Value { value: id, used } => decoded_behind_id(
            id,
            bytes.skip(used as int),
        ),
    }
}

/// What decoding the bytes behind a frame's ID gives.
pub open spec fn decoded_behind_id(id: nat, bytes: Seq<u8>) -> Result<FrameModel, Seq<char>> {
    match wire::read_varint_u32(bytes) {
        VarintRead::Short => Err(wire::short_text()),
        VarintRead::Bad => Err(wire::bad_varint_text()),
        VarintRead::Value { value, used } => match FrameKind::of_index(value) {
            None => Err("Serde Deserialization Error"@),
            Some(kind) => match wire::read_byte_string(bytes.skip(used as int)) {
                BytesRead::Value(data) => Ok(FrameModel { id: id as u32, kind, data }),
                BytesRead::Short => Err(wire::short_text()),
                BytesRead::Bad => Err(wire::bad_varint_text()),
            },
        },
    }
}

/// Attempt to decode a frame from a raw decrypted byte slice.
pub fn decode_frame(data: &[u8]) -> (r: Result<Frame, TransportError>)
    ensures
        match decoded(data@) {
            Ok(f) => r matches Ok(frame) && frame@ == f,
            Err(text) => r matches Err(TransportError::DecodeError(s)) && s@ == text,
        },
{
    match take_u32(data) {
        Err(e) => Err(TransportError::DecodeError(error_text(&e))),
        Ok((id, behind_id)) => match take_u32(behind_id) {
            Err(e) => Err(TransportError::DecodeError(error_text(&e))),
            Ok((index, behind_kind)) => match FrameKind::from_index(index) {
                None => Err(TransportError::DecodeError("Serde Deserialization Error".to_owned())),
                Some(kind) => match read_bytes(behind_kind) {
                    Err(e) => Err(TransportError::DecodeError(error_text(&e))),
                    Ok(data) => Ok(Frame { id, kind, data }),
                },
            },
        },
    }
}

/// Stateful accumulator for reassembling multi-WS-message frames.
///
/// The transport layer sends large payloads across multiple WS binary
/// messages. This struct accumulates bytes until a complete frame arrives.
pub struct FrameAccumulator {
    expected_len: usize,
    buffer: Vec<u8>,
}

/// What an accumulator holds: the announced length, 0 between two frames, and the bytes so far.
#[verifier::ext_equal]
pub struct Accumulated {
    pub expected: nat,
    pub buffer: Seq<u8>,
}

/// What feeding one chunk gives.
pub enum Fed {
    /// The frame is not complete.
    More,
    /// The payload of a complete frame.
    Complete(Seq<u8>),
    /// A frame begins with fewer than four bytes.
    TooShort,
    /// The frame is longer than the limit.
    TooLarge,
}

impl View for FrameAccumulator {
    type V = Accumulated;

    closed spec fn view(&self) -> Accumulated {
        Accumulated { expected: self.expected_len as nat, buffer: self.buffer@ }
    }
}

/// The state and the result once `buffer` holds the bytes of a frame of `expected` bytes.
pub open spec fn settled(expected: nat, buffer: Seq<u8>) -> (Accumulated, Fed) {
    if buffer.len() >= expected {
        (
            Accumulated { expected: 0, buffer: Seq::empty() },
            Fed::Complete(buffer.take(expected as int)),
        )
    } else {
        (Accumulated { expected, buffer }, Fed::More)
    }
}

/// The state and the result after one chunk.
pub open spec fn fed(a: Accumulated, chunk: Seq<u8>, max: nat) -> (Accumulated, Fed) {
    if a.expected == 0 {
        if chunk.len() < 4 {
            (a, Fed::TooShort)
        } else if prefixed_length(chunk) > max {
            (Accumulated { expected: prefixed_length(chunk), ..a }, Fed::TooLarge)
        } else {
            settled(prefixed_length(chunk), chunk.skip(4))
        }
    } else if (a.buffer + chunk).len() > max {
        (Accumulated { buffer: a.buffer + chunk, ..a }, Fed::TooLarge)
    } else {
        settled(a.expected, a.buffer + chunk)
    }
}

/// Whether `r` is what `feed` returns for the result `f` under the limit `max`.
pub open spec fn fed_returned(
    f: Fed,
    max: usize,
    r: Result<Option<Vec<u8>>, TransportError>,
) -> bool {
    match f {
        Fed::More => r matches Ok(None),
        Fed::Complete(bytes) => r matches Ok(Some(v)) && v@ == bytes,
        Fed::TooShort => r matches Err(TransportError::DecodeError(s)) && s@
            == "frame too short for length prefix"@,
        Fed::TooLarge => r == Err::<Option<Vec<u8>>, TransportError>(
            TransportError::PayloadTooLarge { max },
        ),
    }
}

impl FrameAccumulator {
    /// An accumulator that waits for the first chunk of a frame.
    pub fn new() -> (r: Self)
        ensures
            r@ == (Accumulated { expected: 0, buffer: Seq::empty() }),
    {
        FrameAccumulator { expected_len: 0, buffer: Vec::new() }
    }

    /// Feed a decrypted chunk. Returns `Some(frame_bytes)` when a complete
    /// frame has been assembled, or `None` if more data is needed.
    ///
    /// Returns an error if the declared length exceeds `max_bytes`.
    pub fn feed(&mut self, chunk: &[u8], max_bytes: usize) -> (r: Result<
        Option<Vec<u8>>,
        TransportError,
    >)
        ensures
            final(self)@ == fed(old(self)@, chunk@, max_bytes as nat).0,
            fed_returned(fed(old(self)@, chunk@, max_bytes as nat).1, max_bytes, r),
    {
        if self.expected_len == 0 {
            if chunk.len() < 4 {
                return Err(
                    TransportError::DecodeError("frame too short for length prefix".to_owned()),
                );
            }
            let declared: u32 = chunk[0] as u32 + 256 * chunk[1] as u32 + 65536 * chunk[2] as u32
                + 16777216 * chunk[3] as u32;
            self.expected_len = declared as usize;
            if self.expected_len > max_bytes {
                return Err(TransportError::PayloadTooLarge { max: max_bytes });
            }
            self.buffer = slice_to_vec(slice_subrange(chunk, 4, chunk.len()));
            assert(self.buffer@ =~= chunk@.skip(4));
        } else {
            self.buffer.extend_from_slice(chunk);
            assert(self.buffer@ =~= old(self).buffer@ + chunk@);
            if self.buffer.len() > max_bytes {
                return Err(TransportError::PayloadTooLarge { max: max_bytes });
            }
        }
        if self.buffer.len() >= self.expected_len {
            let complete = slice_to_vec(
                slice_subrange(self.buffer.as_slice(), 0, self.expected_len),
            );
            assert(complete@ =~= self.buffer@.take(self.expected_len as int));
            self.expected_len = 0;
            self.buffer = Vec::new();
            return Ok(Some(complete));
        }
        Ok(None)
    }
}

impl Default for FrameAccumulator {
    fn default() -> (r: Self)
        ensures
            r@ == (Accumulated { expected: 0, buffer: Seq::empty() }),
    {
        FrameAccumulator::new()
    }
}

/// A length below 2^32 is read back from its prefix.
pub proof fn lemma_length_read_back(n: nat, rest: Seq<u8>)
    requires
        n < 0x1_0000_0000,
    ensures
        prefixed_length(length_prefix(n) + rest) == n,
{
    let bytes = length_prefix(n) + rest;
    assert(bytes[0] == (n % 256) as u8);
    assert(bytes[1] == (n / 256 % 256) as u8);
    assert(bytes[2] == (n / 65536 % 256) as u8);
    assert(bytes[3] == (n / 16777216 % 256) as u8);
}

/// Decoding gives back the frame that was encoded, whatever bytes follow its payload.
pub proof fn law_decode_reads_back(f: FrameModel, rest: Seq<u8>)
    requires
        f.data.len() <= usize::MAX,
    ensures
        decoded(frame_payload(f) + rest) == Ok::<FrameModel, Seq<char>>(f),
{
    let id = wire::varint(f.id as nat);
    let kind = wire::varint(f.kind.index() as nat);
    let len = wire::varint(f.data.len());
    let bytes = frame_payload(f) + rest;
    let behind_id = kind + (len + f.data + rest);
    assert(bytes =~= id + behind_id);
    wire::lemma_varint_u32_read_back(f.id, behind_id);
    assert(bytes.skip(id.len() as int) =~= behind_id);
    wire::lemma_varint_u32_read_back(f.kind.index(), len + f.data + rest);
    assert(behind_id.skip(kind.len() as int) =~= len + f.data + rest);
    wire::lemma_byte_string_read_back(f.data, rest);
}

/// The concatenation of chunks.
pub open spec fn concatenated(chunks: Seq<Seq<u8>>) -> Seq<u8>
    decreases chunks.len(),
{
    if chunks.len() == 0 {
        Seq::empty()
    } else {
        concatenated(chunks.drop_last()) + chunks.last()
    }
}

/// The state after feeding chunks one after the other.
pub open spec fn state_after(a: Accumulated, chunks: Seq<Seq<u8>>, max: nat) -> Accumulated
    decreases chunks.len(),
{
    if chunks.len() == 0 {
        a
    } else {
        fed(state_after(a, chunks.drop_last(), max), chunks.last(), max).0
    }
}

/// The result of feeding the last of some chunks.
pub open spec fn last_result(a: Accumulated, chunks: Seq<Seq<u8>>, max: nat) -> Fed
    recommends
        chunks.len() > 0,
{
    fed(state_after(a, chunks.drop_last(), max), chunks.last(), max).1
}

/// Chunks that hold a proper beginning of a frame, the first of them at least the length prefix,
/// are kept, and none of them completes the frame.
pub proof fn law_beginning_is_kept(
    a: Accumulated,
    payload: Seq<u8>,
    chunks: Seq<Seq<u8>>,
    max: nat,
)
    requires
        a.expected == 0,
        payload.len() <= max,
        payload.len() < 0x1_0000_0000,
        chunks.len() > 0,
        chunks[0].len() >= 4,
        concatenated(chunks).is_prefix_of(length_prefix(payload.len()) + payload),
        concatenated(chunks).len() < 4 + payload.len(),
    ensures
        state_after(a, chunks, max) == (Accumulated {
            expected: payload.len(),
            buffer: concatenated(chunks).skip(4),
        }),
        last_result(a, chunks, max) is More,
    decreases chunks.len(),
{
    let wire = length_prefix(payload.len()) + payload;
    let before = chunks.drop_last();
    let bytes = concatenated(chunks);
    if before.len() == 0 {
        assert(bytes =~= chunks[0]);
        lemma_length_read_back(payload.len(), payload);
        assert(forall|i: int| 0 <= i < 4 ==> bytes[i] == wire[i]);
        assert(prefixed_length(bytes) == prefixed_length(wire));
    } else {
        assert(before[0] == chunks[0]);
        assert(concatenated(before).is_prefix_of(wire));
        law_beginning_is_kept(a, payload, before, max);
        lemma_first_within(before);
        assert(concatenated(before).skip(4) + chunks.last() =~= bytes.skip(4));
    }
}

proof fn lemma_first_within(chunks: Seq<Seq<u8>>)
    requires
        chunks.len() > 0,
    ensures
        concatenated(chunks).len() >= chunks[0].len(),
    decreases chunks.len(),
{
    if chunks.len() > 1 {
        lemma_first_within(chunks.drop_last());
        assert(chunks.drop_last()[0] == chunks[0]);
    }
}

/// However the bytes of a frame are cut into chunks, as long as the first holds the length prefix
/// and only the last completes them, the last chunk gives the frame's payload, and the accumulator
/// is ready for the next frame.
pub proof fn law_chunks_reassemble(
    a: Accumulated,
    payload: Seq<u8>,
    chunks: Seq<Seq<u8>>,
    max: nat,
)
    requires
        a.expected == 0,
        payload.len() <= max,
        payload.len() < 0x1_0000_0000,
        chunks.len() > 0,
        chunks[0].len() >= 4,
        concatenated(chunks) == length_prefix(payload.len()) + payload,
        chunks.len() > 1 ==> chunks.last().len() > 0,
    ensures
        last_result(a, chunks, max) == Fed::Complete(payload),
        state_after(a, chunks, max) == (Accumulated { expected: 0, buffer: Seq::empty() }),
{
    let wire = length_prefix(payload.len()) + payload;
    let before = chunks.drop_last();
    if before.len() == 0 {
        reveal_with_fuel(concatenated, 2);
        assert(concatenated(chunks) =~= chunks[0]);
        lemma_length_read_back(payload.len(), payload);
        assert(wire.skip(4) =~= payload);
        assert(payload.take(payload.len() as int) =~= payload);
    } else {
        assert(before[0] == chunks[0]);
        assert(concatenated(before).is_prefix_of(wire));
        law_beginning_is_kept(a, payload, before, max);
        lemma_first_within(before);
        assert(wire == concatenated(before) + chunks.last());
        assert(wire.skip(4) =~= concatenated(before).skip(4) + chunks.last());
        assert(wire.skip(4) =~= payload);
        assert(payload.take(payload.len() as int) =~= payload);
    }
}

/// A frame that is encoded, cut into chunks, reassembled and decoded is the frame that was sent.
pub proof fn law_frame_survives_chunking(
    a: Accumulated,
    f: FrameModel,
    chunks: Seq<Seq<u8>>,
    max: nat,
)
    requires
        a.expected == 0,
        frame_payload(f).len() <= max,
        frame_payload(f).len() < 0x1_0000_0000,
        chunks.len() > 0,
        chunks[0].len() >= 4,
        concatenated(chunks) == frame_bytes(f),
        chunks.len() > 1 ==> chunks.last().len() > 0,
    ensures
        last_result(a, chunks, max) matches Fed::Complete(bytes) && decoded(bytes) == Ok::<
            FrameModel,
            Seq<char>,
        >(f),
{
    law_chunks_reassemble(a, frame_payload(f), chunks, max);
    law_decode_reads_back(f, Seq::empty());
    assert(frame_payload(f) + Seq::<u8>::empty() =~= frame_payload(f));
}

/// The bytes of a frame begin with the length of the rest, in four bytes of which the lowest comes
/// first; then come the ID, the number of the kind, the length of the data, and the data.
pub proof fn law_frame_layout(f: FrameModel)
    requires
        frame_payload(f).len() < 0x1_0000_0000,
    ensures
        ({
            let bytes = frame_bytes(f);
            let n = bytes.len() - 4;
            &&& n >= 0
            &&& bytes[0] + 256 * bytes[1] + 256 * 256 * bytes[2] + 256 * 256 * 256 * bytes[3] == n
            &&& bytes.skip(4) == wire::varint(f.id as nat) + wire::varint(
                match f.kind {
                    FrameKind::Message => 0,
                    FrameKind::Event => 1,
                    FrameKind::Ping => 2,
                    FrameKind::Pong => 3,
                },
            ) + wire::varint(f.data.len()) + f.data
        }),
{
    lemma_length_read_back(frame_payload(f).len(), frame_payload(f));
    assert(frame_bytes(f).skip(4) =~= frame_payload(f));
}

/// Each kind of frame has its own number, and the other numbers stand for none.
pub proof fn law_kinds_are_told_apart(kind: FrameKind, other: FrameKind, n: nat)
    ensures
        FrameKind::of_index(kind.index() as nat) == Some(kind),
        kind != other ==> kind.index() != other.index(),
        n > 3 ==> FrameKind::of_index(n) is None,
{
}

/// A frame that is cut short is not decoded.
pub proof fn law_cut_frame_is_not_decoded(f: FrameModel, k: int)
    requires
        f.data.len() <= usize::MAX,
        0 <= k < frame_payload(f).len(),
    ensures
        decoded(frame_payload(f).take(k)) == Err::<FrameModel, Seq<char>>(
            "Hit the end of buffer, expected more data"@,
        ),
{
    reveal_with_fuel(wire::varint_bound, 6);
    let id = wire::varint(f.id as nat);
    let kind = wire::varint(f.kind.index() as nat);
    let tail = wire::varint(f.data.len()) + f.data;
    let bytes = frame_payload(f).take(k);
    if k < id.len() {
        assert(bytes =~= id.take(k));
        wire::lemma_cut_varint(f.id as nat, k, 5, 15);
    } else {
        let behind_id = (kind + tail).take(k - id.len());
        assert(bytes =~= id + behind_id);
        wire::lemma_varint_u32_read_back(f.id, behind_id);
        assert(bytes.skip(id.len() as int) =~= behind_id);
        if k < id.len() + kind.len() {
            assert(behind_id =~= kind.take(k - id.len()));
            wire::lemma_cut_varint(f.kind.index() as nat, k - id.len(), 5, 15);
        } else {
            let rest = tail.take(k - id.len() - kind.len());
            assert(behind_id =~= kind + rest);
            wire::lemma_varint_u32_read_back(f.kind.index(), rest);
            assert(behind_id.skip(kind.len() as int) =~= rest);
            wire::lemma_cut_byte_string(f.data, k - id.len() - kind.len());
        }
    }
}

/// A frame of an unknown kind is not decoded.
pub proof fn law_unknown_kind_is_not_decoded(id: u32, kind: u32, rest: Seq<u8>)
    requires
        kind > 3,
    ensures
        decoded(wire::varint(id as nat) + wire::varint(kind as nat) + rest) is Err,
{
    let head = wire::varint(id as nat);
    let number = wire::varint(kind as nat);
    let bytes = head + number + rest;
    assert(bytes =~= head + (number + rest));
    wire::lemma_varint_u32_read_back(id, number + rest);
    assert(bytes.skip(head.len() as int) =~= number + rest);
    wire::lemma_varint_u32_read_back(kind, rest);
}

/// A frame whose announced length exceeds the limit is refused at its first chunk, and no more than
/// the limit is ever gathered; a frame within the limit is never refused for its announced length.
pub proof fn law_limit_is_kept(a: Accumulated, chunk: Seq<u8>, max: nat)
    ensures
        a.expected == 0 && chunk.len() >= 4 ==> (fed(a, chunk, max).1 is TooLarge <==> chunk[0]
            + 256 * chunk[1] + 65536 * chunk[2] + 16777216 * chunk[3] > max),
        a.expected > 0 ==> (fed(a, chunk, max).1 is TooLarge <==> a.buffer.len() + chunk.len()
            > max),
        fed(a, chunk, max).1 matches Fed::Complete(payload) ==> payload.len() <= max,
        fed(a, chunk, max).1 is TooShort <==> a.expected == 0 && chunk.len() < 4,
        fed(a, chunk, max).1 is TooShort ==> fed(a, chunk, max).0 == a,
{
}

/// A frame ends where its announced length says: bytes behind it in the same chunk are dropped.
pub proof fn law_frame_takes_only_its_length(
    a: Accumulated,
    payload: Seq<u8>,
    extra: Seq<u8>,
    max: nat,
)
    requires
        a.expected == 0,
        payload.len() <= max,
        payload.len() < 0x1_0000_0000,
    ensures
        fed(a, length_prefix(payload.len()) + payload + extra, max) == (
            Accumulated { expected: 0, buffer: Seq::<u8>::empty() },
            Fed::Complete(payload),
        ),
{
    let chunk = length_prefix(payload.len()) + payload + extra;
    assert(chunk =~= length_prefix(payload.len()) + (payload + extra));
    lemma_length_read_back(payload.len(), payload + extra);
    assert(chunk.skip(4) =~= payload + extra);
    assert((payload + extra).take(payload.len() as int) =~= payload);
}

/// What the caller of `feed` is told: nothing before the frame is complete, then its payload, and
/// each fault as its own error, a payload that is too large with the limit.
pub proof fn law_feed_tells_what_came(
    f: Fed,
    max: usize,
    r: Result<Option<Vec<u8>>, TransportError>,
)
    requires
        fed_returned(f, max, r),
    ensures
        f is More <==> r matches Ok(None),
        f is Complete <==> r matches Ok(Some(_)),
        f matches Fed::Complete(payload) ==> r->Ok_0->Some_0@ == payload,
        f is TooLarge <==> r matches Err(TransportError::PayloadTooLarge { .. }),
        r matches Err(TransportError::PayloadTooLarge { max: told }) ==> told == max,
        f is TooShort <==> r matches Err(TransportError::DecodeError(_)),
        f is TooLarge || f is TooShort <==> r is Err,
{
}

} // verus!
