//! The encrypted link: frames to packets and back.
use vstd::prelude::*;

use crate::crypto;
use crate::crypto::{MAX_CHUNK_PLAIN, NoiseSession, SessionModel};
use crate::error;
use crate::error::{CryptoError, TransportError};
use crate::frame;
use crate::frame::{
    decode_frame, encode_frame, Accumulated, Fed, Frame, FrameAccumulator, FrameModel,
};
use crate::noise::{KEY_LEN, TAG_LEN, TransportModel};
use crate::ws::keys;
use crate::ws::keys::KeyModel;

verus! {

/// One end of a link whose key exchange is done: seals frames into packets, and reassembles frames
/// from packets.
pub struct Link {
    noise: NoiseSession,
    accumulator: FrameAccumulator,
    max_payload: usize,
}

/// What a link holds.
pub struct LinkModel {
    /// The encrypted channel, or nothing once it has failed.
    pub session: SessionModel,
    /// The frame that is being reassembled.
    pub accumulated: Accumulated,
    /// The longest payload that is taken.
    pub max: usize,
}

impl LinkModel {
    /// The key exchange is done.
    pub open spec fn wf(self) -> bool {
        self.session.wf() && !(self.session is Handshake)
    }
}

impl View for Link {
    type V = LinkModel;

    closed spec fn view(&self) -> LinkModel {
        LinkModel {
            session: self.noise@,
            accumulated: self.accumulator@,
            max: self.max_payload,
        }
    }
}

/// What an incoming packet brings.
pub enum Arrival {
    /// No complete frame.
    Nothing,
    /// A frame.
    Frame(FrameModel),
    /// A payload that is no frame, with the text of the failure.
    Undecodable(Seq<char>),
    /// A frame begins with fewer than four bytes.
    TooShort,
    /// The frame is longer than the limit.
    TooLarge,
    /// Nothing: the channel does not open it.
    Refused,
}

/// What a decrypted packet brings.
pub open spec fn arrival(a: Accumulated, plain: Seq<u8>, max: usize) -> Arrival {
    match frame::fed(a, plain, max as nat).1 {
        Fed::More => Arrival::Nothing,
        Fed::Complete(bytes) => match frame::decoded(bytes) {
            Ok(f) => Arrival::Frame(f),
            Err(text) => Arrival::Undecodable(text),
        },
        Fed::TooShort => Arrival::TooShort,
        Fed::TooLarge => Arrival::TooLarge,
    }
}

/// What a packet brings, and what becomes of the link.
pub open spec fn receiving(link: LinkModel, packet: Seq<u8>) -> (Arrival, LinkModel) {
    match link.session {
        SessionModel::Transport(t) => match crypto::opened(t, packet) {
            Some(plain) => (
                arrival(link.accumulated, plain, link.max),
                LinkModel {
                    session: crypto::received_more(t, 1),
                    accumulated: frame::fed(link.accumulated, plain, link.max as nat).0,
                    ..link
                },
            ),
            None => (
                Arrival::Refused,
                LinkModel { session: SessionModel::Failed, ..link },
            ),
        },
        _ => (Arrival::Refused, link),
    }
}

/// Whether `r` is what `receive` returns for an arrival.
pub open spec fn arrival_returned(
    a: Arrival,
    max: usize,
    r: Result<Option<Frame>, TransportError>,
) -> bool {
    match a {
        Arrival::Nothing => r matches Ok(None),
        Arrival::Frame(f) => r matches Ok(Some(frame)) && frame@ == f,
        Arrival::Undecodable(text) => r matches Err(TransportError::DecodeError(s)) && s@ == text,
        Arrival::TooShort => r matches Err(TransportError::DecodeError(s)) && s@
            == "frame too short for length prefix"@,
        Arrival::TooLarge => r == Err::<Option<Frame>, TransportError>(
            TransportError::PayloadTooLarge { max },
        ),
        Arrival::Refused => r matches Err(TransportError::NoiseDecryptFailed(_)),
    }
}

/// The packets that a link seals a frame into, if it can, and what becomes of the link.
pub open spec fn sealing(link: LinkModel, f: FrameModel) -> (
    Option<Seq<Seq<u8>>>,
    LinkModel,
) {
    match link.session {
        SessionModel::Transport(t) => {
            let (packets, session) = crypto::sealing(t, frame::frame_bytes(f));
            (packets, LinkModel { session, ..link })
        },
        _ => (None, link),
    }
}

impl Link {
    /// The link over a session whose key exchange is done.
    pub fn new(noise: NoiseSession, max_payload: usize) -> (r: Link)
        requires
            noise@.wf(),
            !(noise@ is Handshake),
        ensures
            r@.wf(),
            r@ == (LinkModel {
                session: noise@,
                accumulated: Accumulated { expected: 0, buffer: Seq::empty() },
                max: max_payload,
            }),
    {
        Link { noise, accumulator: FrameAccumulator::new(), max_payload }
    }

    /// Forgets a half received frame.
    pub fn reset(&mut self)
        requires
            old(self)@.wf(),
        ensures
            final(self)@.wf(),
            final(self)@ == (LinkModel {
                accumulated: Accumulated { expected: 0, buffer: Seq::empty() },
                ..old(self)@
            }),
    {
        self.accumulator = FrameAccumulator::new();
    }

    /// Encodes and encrypts a frame into packets, to be sent as one binary message each.
    pub fn seal(&mut self, frame: &Frame) -> (r: Result<Vec<Vec<u8>>, TransportError>)
        requires
            old(self)@.wf(),
        ensures
            final(self)@.wf(),
            final(self)@ == sealing(old(self)@, frame@).1,
            match sealing(old(self)@, frame@).0 {
                Some(packets) => {
                    &&& r matches Ok(v) && crypto::contents(v@) == packets
                    &&& crypto::faithful(
                        old(self)@.session->Transport_0,
                        frame::frame_bytes(frame@),
                    )
                },
                None => r matches Err(e) && exists|cause: CryptoError| #[trigger]
                    crypto::write_error(old(self)@.session, cause)
                        && error::crypto_as_transport(cause, e),
            },
    {
        match encode_frame(frame) {
            Err(e) => Err(e),
            Ok(bytes) => {
                assert(bytes@.len() > 0);
                match self.noise.encrypt_chunked(bytes.as_slice()) {
                    Err(e) => Err(TransportError::from(e)),
                    Ok(packets) => Ok(packets),
                }
            },
        }
    }

    /// Decrypts a packet; returns the frame that it completes, if any.
    pub fn receive(&mut self, packet: &[u8]) -> (r: Result<Option<Frame>, TransportError>)
        requires
            old(self)@.wf(),
        ensures
            final(self)@.wf(),
            final(self)@ == receiving(old(self)@, packet@).1,
            arrival_returned(receiving(old(self)@, packet@).0, old(self)@.max, r),
            r matches Err(TransportError::NoiseDecryptFailed(text)) ==> exists|
                cause: CryptoError,
            | #[trigger]
                crypto::read_error(old(self)@.session, packet@, packet@.len(), cause) && text@
                    == cause.detail_text(),
    {
        let mut buf: Vec<u8> = vec![0u8; packet.len()];
        match self.noise.read_message(packet, buf.as_mut_slice()) {
            Err(e) => Err(TransportError::NoiseDecryptFailed(e.detail())),
            Ok(len) => {
                buf.truncate(len);
                match self.accumulator.feed(buf.as_slice(), self.max_payload) {
                    Err(e) => Err(e),
                    Ok(None) => Ok(None),
                    Ok(Some(bytes)) => match decode_frame(bytes.as_slice()) {
                        Err(e) => Err(e),
                        Ok(frame) => Ok(Some(frame)),
                    },
                }
            },
        }
    }
}

/// What some packets bring, one after the other, and what becomes of the link.
pub open spec fn receiving_all(link: LinkModel, packets: Seq<Seq<u8>>) -> (Seq<Arrival>, LinkModel)
    decreases packets.len(),
{
    if packets.len() == 0 {
        (Seq::empty(), link)
    } else {
        let (arrivals, before) = receiving_all(link, packets.drop_last());
        let (arrival, after) = receiving(before, packets.last());
        (arrivals.push(arrival), after)
    }
}

/// Whether two channels are the two ends of one connection in the direction from the first to the
/// second: the second receives under the key that the first sends under, and has taken in all
/// that the first has sealed.
pub open spec fn in_step(
    sender: TransportModel,
    receiver: TransportModel,
) -> bool {
    receiver.receiving == sender.sending && receiver.received == sender.sent
}

/// A key exchange between a client and a server that it trusts completes, and puts them in step in
/// either direction: once the client has begun it and the server has answered, the client finishes
/// on the answer, and the server accepts the client's last message.
pub proof fn law_key_exchange_completes(
    begun: SessionModel,
    waiting: SessionModel,
    answered: SessionModel,
    pinned: Option<Seq<u8>>,
    first: Seq<u8>,
    answer: Seq<u8>,
    finished: KeyModel,
)
    requires
        keys::keys_begun(begun, pinned, first),
        waiting matches SessionModel::Handshake(h) && !h.initiator && h.transcript.len() == 0
            && crypto::trusts_owner(pinned, h.local),
        keys::may_answer(waiting, first, KeyModel::Done { session: answered, packet: answer }),
        keys::may_finish(begun, answer, finished),
    ensures
        finished matches KeyModel::Done { session, packet } && keys::accepts(answered, packet) && (
        session matches SessionModel::Transport(c) && (keys::keys_from(
            answered,
            seq![packet],
        ) matches SessionModel::Transport(s) && in_step(c, s) && in_step(s, c))),
{
    let both = seq![first, answer];
    assert(begun->Handshake_0.transcript.push(answer) =~= both);
    assert(waiting->Handshake_0.transcript + both =~= both);
    assert(keys::accepts(begun, answer));
    let last = finished->packet;
    assert(begun->Handshake_0.transcript + seq![answer, last] =~= both.push(last));
    assert(both + seq![last] =~= both.push(last));
    assert(answered->Handshake_0.transcript.push(last) =~= both.push(last));
}

/// A client with a pinned key does not finish a key exchange with a server that has another key.
pub proof fn law_key_exchange_fails_with_another_server(
    begun: SessionModel,
    waiting: SessionModel,
    answered: SessionModel,
    pinned: Option<Seq<u8>>,
    first: Seq<u8>,
    answer: Seq<u8>,
    finished: KeyModel,
)
    requires
        keys::keys_begun(begun, pinned, first),
        waiting matches SessionModel::Handshake(h) && !h.initiator && h.transcript.len() == 0
            && h.local.len() == KEY_LEN && !crypto::trusts_owner(pinned, h.local),
        keys::may_answer(waiting, first, KeyModel::Done { session: answered, packet: answer }),
        keys::may_finish(begun, answer, finished),
    ensures
        finished is Failed,
{
    let both = seq![first, answer];
    assert(begun->Handshake_0.transcript.push(answer) =~= both);
    assert(waiting->Handshake_0.transcript + both =~= both);
    assert(!keys::accepts(begun, answer));
}

/// A frame is delivered: if a link receives, in order, the packets that the other end sealed a
/// frame into, none but the last brings anything, and the last brings the frame that was sent. The
/// two ends are then in step again, and the link is ready for the next frame.
pub proof fn law_frame_is_delivered(
    sender: TransportModel,
    link: LinkModel,
    f: FrameModel,
)
    requires
        link.session matches SessionModel::Transport(receiver) && in_step(
            sender,
            receiver,
        ),
        link.accumulated.expected == 0,
        frame::frame_payload(f).len() <= link.max,
        frame::frame_payload(f).len() < 0x1_0000_0000,
        crypto::sealing(sender, frame::frame_bytes(f)).0 is Some,
        crypto::faithful(sender, frame::frame_bytes(f)),
    ensures
        ({
            let packets = crypto::sealed_chunks(sender, frame::frame_bytes(f));
            let (arrivals, after) = receiving_all(link, packets);
            &&& arrivals.len() == packets.len() > 0
            &&& forall|i: int|
                0 <= i < arrivals.len() - 1 ==> #[trigger] arrivals[i] is Nothing
            &&& arrivals.last() == Arrival::Frame(f)
            &&& after.accumulated.expected == 0
            &&& after.max == link.max
            &&& crypto::sealing(sender, frame::frame_bytes(f)).1 matches
                SessionModel::Transport(s) && (after.session matches
                SessionModel::Transport(r) && in_step(s, r))
        }),
{
    let bytes = frame::frame_bytes(f);
    let chunks = crypto::plain_chunks(bytes);
    let packets = crypto::sealed_chunks(sender, bytes);
    let n = chunks.len() as int;
    crypto::lemma_plain_chunks_make_up(bytes);
    assert(chunks.len() > 0);
    assert(chunks[0].len() >= 4);
    assert(chunks.last().len() > 0);
    frame::law_chunks_reassemble(
        link.accumulated,
        frame::frame_payload(f),
        chunks,
        link.max as nat,
    );
    frame::law_decode_reads_back(f, Seq::empty());
    assert(frame::frame_payload(f) + Seq::<u8>::empty() =~= frame::frame_payload(f));
    lemma_delivery_under_way(sender, link, f, n - 1);
    assert(packets.drop_last() =~= packets.take(n - 1));
    assert(chunks.drop_last() =~= chunks.take(n - 1));
    assert(packets[n - 1].len() == chunks[n - 1].len() + TAG_LEN);
    assert(chunks[n - 1].len() <= MAX_CHUNK_PLAIN);
}

/// What holds of a delivery after all packets but the last.
proof fn lemma_delivery_under_way(
    sender: TransportModel,
    link: LinkModel,
    f: FrameModel,
    n: int,
)
    requires
        link.session matches SessionModel::Transport(receiver) && in_step(
            sender,
            receiver,
        ),
        link.accumulated.expected == 0,
        frame::frame_payload(f).len() <= link.max,
        frame::frame_payload(f).len() < 0x1_0000_0000,
        crypto::sealing(sender, frame::frame_bytes(f)).0 is Some,
        crypto::faithful(sender, frame::frame_bytes(f)),
        0 <= n < crypto::plain_chunks(frame::frame_bytes(f)).len(),
    ensures
        ({
            let bytes = frame::frame_bytes(f);
            let packets = crypto::sealed_chunks(sender, bytes).take(n);
            let chunks = crypto::plain_chunks(bytes).take(n);
            let (arrivals, after) = receiving_all(link, packets);
            &&& arrivals.len() == n
            &&& forall|i: int| 0 <= i < n ==> #[trigger] arrivals[i] is Nothing
            &&& after == (LinkModel {
                session: crypto::received_more(link.session->Transport_0, n as nat),
                accumulated: frame::state_after(link.accumulated, chunks, link.max as nat),
                ..link
            })
        }),
    decreases n,
{
    let bytes = frame::frame_bytes(f);
    let all = crypto::plain_chunks(bytes);
    let packets = crypto::sealed_chunks(sender, bytes);
    if n > 0 {
        lemma_delivery_under_way(sender, link, f, n - 1);
        crypto::lemma_plain_chunks_make_up(bytes);
        assert(packets.take(n).drop_last() =~= packets.take(n - 1));
        let chunks = all.take(n);
        assert(chunks.drop_last() =~= all.take(n - 1));
        assert(packets[n - 1].len() == all[n - 1].len() + TAG_LEN);
        assert(all[n - 1].len() <= MAX_CHUNK_PLAIN);
        assert(all[0].len() >= 4);
        lemma_beginning_is_prefix(all, n);
        frame::law_beginning_is_kept(
            link.accumulated,
            frame::frame_payload(f),
            chunks,
            link.max as nat,
        );
    }
}

/// The first of some nonempty chunks make up a proper beginning of what all of them make up.
proof fn lemma_beginning_is_prefix(chunks: Seq<Seq<u8>>, n: int)
    requires
        0 <= n < chunks.len(),
        forall|i: int| 0 <= i < chunks.len() ==> 0 < #[trigger] chunks[i].len(),
    ensures
        frame::concatenated(chunks.take(n)).is_prefix_of(frame::concatenated(chunks)),
        frame::concatenated(chunks.take(n)).len() < frame::concatenated(chunks).len(),
    decreases chunks.len(),
{
    let before = chunks.drop_last();
    assert(chunks.last().len() > 0);
    if n == before.len() {
        assert(chunks.take(n) =~= before);
    } else {
        assert forall|i: int| 0 <= i < before.len() implies 0 < #[trigger] before[i].len() by {
            assert(before[i] == chunks[i]);
        }
        lemma_beginning_is_prefix(before, n);
        assert(before.take(n) =~= chunks.take(n));
    }
}

/// A packet that the channel does not open ends the link: it takes and sends nothing any more.
pub proof fn law_refused_packet_ends_the_link(
    link: LinkModel,
    packet: Seq<u8>,
    next: Seq<u8>,
    f: FrameModel,
)
    requires
        link.wf(),
    ensures
        ({
            let (arrival, after) = receiving(link, packet);
            &&& arrival is Refused ==> receiving(after, next).0 is Refused && sealing(after, f).0
                is None
            &&& arrival is Refused <==> !(link.session matches SessionModel::Transport(t)
                && crypto::opened(t, packet) is Some)
            &&& after.max == link.max
        }),
{
}

/// What an opened packet brings is decided by the frame's length and the link's limit: a frame that
/// is announced longer than the limit, or that grows beyond it, is refused as too large; one that
/// begins with less than its length is refused as too short; a complete one is decoded.
pub proof fn law_link_keeps_its_limit(link: LinkModel, packet: Seq<u8>, plain: Seq<u8>)
    requires
        link.session matches SessionModel::Transport(t) && crypto::opened(t, packet) == Some(plain),
    ensures
        ({
            let (arrival, after) = receiving(link, packet);
            let a = link.accumulated;
            &&& after.session == SessionModel::Transport(
                TransportModel {
                    received: link.session->Transport_0.received + 1,
                    ..link.session->Transport_0
                },
            )
            &&& arrival is TooShort <==> a.expected == 0 && plain.len() < 4
            &&& a.expected == 0 && plain.len() >= 4 ==> (arrival is TooLarge <==> plain[0] + 256
                * plain[1] + 65536 * plain[2] + 16777216 * plain[3] > link.max)
            &&& a.expected > 0 ==> (arrival is TooLarge <==> a.buffer.len() + plain.len()
                > link.max)
            &&& frame::fed(a, plain, link.max as nat).1 is More <==> arrival is Nothing
            &&& frame::fed(a, plain, link.max as nat).1 matches Fed::Complete(bytes) ==> (arrival
                is Frame <==> frame::decoded(bytes) is Ok) && (arrival matches Arrival::Frame(f)
                ==> frame::decoded(bytes) == Ok::<FrameModel, Seq<char>>(f)) && (arrival is Frame
                || arrival is Undecodable)
            &&& !(arrival is Refused)
        }),
{
    frame::law_limit_is_kept(link.accumulated, plain, link.max as nat);
}

/// What the caller of `receive` is told: nothing before a frame is complete, then the frame, and
/// every fault as an error.
pub proof fn law_receive_tells_what_came(
    a: Arrival,
    max: usize,
    r: Result<Option<Frame>, TransportError>,
)
    requires
        arrival_returned(a, max, r),
    ensures
        a is Nothing <==> r matches Ok(None),
        a is Frame <==> r matches Ok(Some(_)),
        a matches Arrival::Frame(f) ==> r->Ok_0->Some_0@ == f,
        a is TooLarge <==> r matches Err(TransportError::PayloadTooLarge { .. }),
        r matches Err(TransportError::PayloadTooLarge { max: told }) ==> told == max,
        a is Refused <==> r matches Err(TransportError::NoiseDecryptFailed(_)),
        a is TooShort || a is Undecodable <==> r matches Err(TransportError::DecodeError(_)),
{
}

/// Sealing a frame does not touch what is being received, and needs a working channel.
pub proof fn law_sealing_leaves_the_reception_alone(link: LinkModel, f: FrameModel)
    ensures
        sealing(link, f).1.accumulated == link.accumulated,
        sealing(link, f).1.max == link.max,
        sealing(link, f).0 is Some ==> link.session is Transport,
        link.session matches SessionModel::Transport(t) ==> sealing(link, f).0 == crypto::sealing(
            t,
            frame::frame_bytes(f),
        ).0,
{
}

} // verus!
