//! The Noise protocol engine: what this library relies on from the `snow` crate.
//!
//! A handshake state and a transport state are opaque; `handshake_model` and `transport_model`
//! name what they hold, and each function below says what one call does to it.
use vstd::prelude::*;

verus! {

/// Noise_XX_25519_ChaChaPoly_BLAKE2b
/// XX = mutual authentication (both sides exchange static keys).
pub const NOISE_PATTERN: &'static str = "Noise_XX_25519_ChaChaPoly_BLAKE2b";

/// The longest message that Noise allows.
pub const MAX_NOISE_MESSAGE: usize = 65535;

/// The length of the authentication tag that encryption appends.
pub const TAG_LEN: usize = 16;

/// The length of a public or private X25519 key.
pub const KEY_LEN: usize = 32;

/// The longest pinned key that a handshake has room for.
pub const MAX_PINNED_KEY_LEN: usize = 56;

/// A handshake in progress.
#[verifier::external_type_specification]
#[verifier::external_body]
pub struct ExHandshakeState(snow::HandshakeState);

/// The encrypted channel that a finished handshake becomes.
#[verifier::external_type_specification]
#[verifier::external_body]
pub struct ExTransportState(snow::TransportState);

/// A failure of the engine.
#[verifier::external_type_specification]
#[verifier::external_body]
pub struct ExError(snow::Error);

/// What a handshake holds.
pub struct HandshakeModel {
    /// The name of the protocol that it follows.
    pub pattern: Seq<char>,
    /// How many messages are still to be exchanged.
    pub left: nat,
    /// Whether the next message is ours to write.
    pub my_turn: bool,
    /// The private key of this side.
    pub local: Seq<u8>,
    /// The key that the other side was said to have, as given when the handshake was built.
    pub pinned: Option<Seq<u8>>,
    /// Whether this side writes the first message.
    pub initiator: bool,
    /// The messages exchanged so far, by either side.
    pub transcript: Seq<Seq<u8>>,
}

/// What an encrypted channel holds.
pub struct TransportModel {
    /// The name of the protocol whose handshake it comes from.
    pub pattern: Seq<char>,
    /// Whether this side wrote the first message of the handshake.
    pub initiator: bool,
    /// The messages of the handshake.
    pub transcript: Seq<Seq<u8>>,
    /// The key that outgoing messages are sealed under.
    pub sending: Seq<u8>,
    /// How many messages were sealed.
    pub sent: nat,
    /// The key that incoming messages are opened under.
    pub receiving: Seq<u8>,
    /// How many messages were opened.
    pub received: nat,
}

/// What `h` holds.
pub uninterp spec fn handshake_model(h: snow::HandshakeState) -> HandshakeModel;

/// What `t` holds.
pub uninterp spec fn transport_model(t: snow::TransportState) -> TransportModel;

/// The public key that `snow` computes from a private key of 32 bytes, whether it has drawn that
/// key or was given it: the base point of X25519, multiplied by the private key as a clamped scalar.
pub uninterp spec fn public_key(private: Seq<u8>) -> Seq<u8>;

/// The key that a finished handshake of `NOISE_PATTERN` gives for the messages to the responder, or
/// else for those to the initiator. The handshake messages carry the public keys that it is
/// computed from, each side using its private keys and the other's public ones.
pub uninterp spec fn agreed_key(transcript: Seq<Seq<u8>>, to_responder: bool) -> Seq<u8>;

/// The payload that `HandshakeState::read_message` gives for the last of some handshake messages of
/// `NOISE_PATTERN`, or nothing where it does not accept that message behind the others. The
/// messages before it carry the public keys that its encryption is computed from.
pub uninterp spec fn carried(transcript: Seq<Seq<u8>>) -> Option<Seq<u8>>;

/// The static public key that `HandshakeState::get_remote_static` gives the initiator behind the
/// responder's message: that message shows it, under an encryption that is computed from the
/// public keys in both messages.
pub uninterp spec fn shown_key(transcript: Seq<Seq<u8>>) -> Seq<u8>;

/// The message that `TransportState::write_message` makes of `plain` as the message number
/// `number` under `key`, with the cipher of `NOISE_PATTERN`.
pub uninterp spec fn sealed(key: Seq<u8>, number: nat, plain: Seq<u8>) -> Seq<u8>;

/// The text that `Debug` gives of a failure.
pub uninterp spec fn failure_debug(e: snow::Error) -> Seq<char>;

/// The text that `Display` gives of a failure.
pub uninterp spec fn failure_display(e: snow::Error) -> Seq<char>;

/// No messages.
pub open spec fn no_messages() -> Seq<Seq<u8>> {
    Seq::empty()
}

/// How many bytes the handshake message with `left` messages to go (itself one of them) adds to
/// its payload: a fresh public key, then a fresh key, an encrypted static key and a tag, then an
/// encrypted static key and a tag.
pub open spec fn handshake_overhead(left: nat) -> nat {
    if left == 3 {
        32
    } else if left == 2 {
        96
    } else {
        64
    }
}

/// How many bytes the packet must have room for: the first message asks for the room of a tag
/// that it does not carry.
pub open spec fn handshake_room(left: nat) -> nat {
    if left == 3 {
        48
    } else {
        handshake_overhead(left)
    }
}

/// The packet lengths at which writing the static key would run past the packet's end: there is
/// room for the key but not for its tag.
pub open spec fn write_overruns(h: HandshakeModel, room: nat) -> bool {
    h.my_turn && ((h.left == 2 && 64 <= room < 80) || (h.left == 1 && 32 <= room < 48))
}

/// Whether a handshake message with `payload` bytes can be written into `room` bytes.
pub open spec fn can_write_handshake(h: HandshakeModel, payload: nat, room: nat) -> bool {
    &&& h.my_turn
    &&& h.left > 0
    &&& handshake_room(h.left) + payload <= room
    &&& handshake_overhead(h.left) + payload <= MAX_NOISE_MESSAGE
}

/// Whether the next message is the responder's, and its private key has its full length.
pub open spec fn shows_own_key(h: HandshakeModel) -> bool {
    !h.initiator && h.left == 2 && h.local.len() == KEY_LEN
}

/// The handshake after one more message, written by us (`mine`) or by the other side.
pub open spec fn advanced(h: HandshakeModel, mine: bool, message: Seq<u8>) -> HandshakeModel {
    HandshakeModel {
        left: (h.left - 1) as nat,
        my_turn: !mine,
        transcript: h.transcript.push(message),
        ..h
    }
}

/// What a handshake takes a message of the other side for: the payload that it carries, or nothing
/// where it is not accepted.
pub open spec fn taken(h: HandshakeModel, message: Seq<u8>) -> Option<Seq<u8>> {
    match carried(h.transcript.push(message)) {
        Some(p) if !h.my_turn && h.left > 0 && message.len() <= MAX_NOISE_MESSAGE && message.len()
            == handshake_overhead(h.left) + p.len() => Some(p),
        _ => None,
    }
}

/// Whether an encrypted message of `len` bytes can be read into `room` bytes.
pub open spec fn can_read_transport(t: TransportModel, len: nat, room: nat) -> bool {
    &&& TAG_LEN <= len <= MAX_NOISE_MESSAGE
    &&& len - TAG_LEN <= room
    &&& t.received < u64::MAX
}

/// Whether `plain` bytes can be sealed into `room` bytes.
pub open spec fn can_write_transport(t: TransportModel, plain: nat, room: nat) -> bool {
    &&& plain + TAG_LEN <= MAX_NOISE_MESSAGE
    &&& plain + TAG_LEN <= room
    &&& t.sent < u64::MAX
}

/// `Builder::generate_keypair` of `snow`, for the named protocol: a fresh pair of a private and a
/// public key, each 32 bytes for X25519, the public key computed from the private one. It fails
/// only where the system gives no random bytes. Nothing more holds of the private key, which is
/// random.
#[verifier::external_body]
pub(crate) fn fresh_keypair(pattern: &str) -> (r: Result<(Vec<u8>, Vec<u8>), snow::Error>)
    requires
        pattern@ == NOISE_PATTERN@,
    ensures
        r matches Ok(pair) ==> pair.0@.len() == KEY_LEN && pair.1@.len() == KEY_LEN,
        r matches Ok(pair) ==> pair.1@ == public_key(pair.0@),
{
    let pair = snow::Builder::new(pattern.parse()?).generate_keypair()?;
    Ok((pair.private, pair.public))
}

/// `Builder::build_initiator` of `snow` with a local private key: a handshake of the named protocol
/// with three messages to go, of which this side writes the first. A longer key than 32 bytes
/// would panic.
#[verifier::external_body]
pub(crate) fn initiator(pattern: &str, private_key: &[u8]) -> (r: Result<
    snow::HandshakeState,
    snow::Error,
>)
    requires
        pattern@ == NOISE_PATTERN@,
        private_key@.len() <= KEY_LEN,
    ensures
        r is Ok,
        handshake_model(r->Ok_0).pattern == pattern@,
        handshake_model(r->Ok_0).left == 3,
        handshake_model(r->Ok_0).my_turn,
        handshake_model(r->Ok_0).initiator,
        handshake_model(r->Ok_0).transcript == no_messages(),
        handshake_model(r->Ok_0).local == private_key@,
        handshake_model(r->Ok_0).pinned is None,
{
    snow::Builder::new(pattern.parse()?).local_private_key(private_key)?.build_initiator()
}

/// `Builder::remote_public_key` of `snow`: an initiator's handshake that also holds the key that
/// the other side is said to have. A longer pinned key than 56 bytes would panic.
#[verifier::external_body]
pub(crate) fn pinned_initiator(pattern: &str, private_key: &[u8], pinned: &[u8]) -> (r: Result<
    snow::HandshakeState,
    snow::Error,
>)
    requires
        pattern@ == NOISE_PATTERN@,
        private_key@.len() <= KEY_LEN,
        pinned@.len() <= MAX_PINNED_KEY_LEN,
    ensures
        r is Ok,
        handshake_model(r->Ok_0).pattern == pattern@,
        handshake_model(r->Ok_0).left == 3,
        handshake_model(r->Ok_0).my_turn,
        handshake_model(r->Ok_0).initiator,
        handshake_model(r->Ok_0).transcript == no_messages(),
        handshake_model(r->Ok_0).local == private_key@,
        handshake_model(r->Ok_0).pinned == Some(pinned@),
{
    let builder = snow::Builder::new(pattern.parse()?).local_private_key(private_key)?;
    builder.remote_public_key(pinned)?.build_initiator()
}

/// `Builder::build_responder` of `snow` with a local private key: a handshake of the named protocol
/// with three messages to go, of which the other side writes the first. A longer key than 32
/// bytes would panic.
#[verifier::external_body]
pub(crate) fn responder(pattern: &str, private_key: &[u8]) -> (r: Result<
    snow::HandshakeState,
    snow::Error,
>)
    requires
        pattern@ == NOISE_PATTERN@,
        private_key@.len() <= KEY_LEN,
    ensures
        r is Ok,
        handshake_model(r->Ok_0).pattern == pattern@,
        handshake_model(r->Ok_0).left == 3,
        !handshake_model(r->Ok_0).my_turn,
        !handshake_model(r->Ok_0).initiator,
        handshake_model(r->Ok_0).transcript == no_messages(),
        handshake_model(r->Ok_0).local == private_key@,
        handshake_model(r->Ok_0).pinned is None,
{
    snow::Builder::new(pattern.parse()?).local_private_key(private_key)?.build_responder()
}

/// `HandshakeState::write_message` of `snow`: writes the next handshake message, when it is ours to
/// write and fits. The message's bytes are not stated: they carry fresh random keys. The other
/// side can read from them the payload that was written, and the responder's message shows the
/// public key that belongs to its private key. The first two messages also fail where the system
/// gives no random bytes.
#[verifier::external_body]
pub(crate) fn handshake_write(
    h: &mut snow::HandshakeState,
    payload: &[u8],
    packet: &mut [u8],
) -> (r: Result<usize, snow::Error>)
    requires
        handshake_model(*old(h)).pattern == NOISE_PATTERN@,
        !write_overruns(handshake_model(*old(h)), old(packet)@.len()),
    ensures
        final(packet)@.len() == old(packet)@.len(),
        r matches Ok(n) ==> {
            &&& can_write_handshake(handshake_model(*old(h)), payload@.len(), old(packet)@.len())
            &&& n == handshake_overhead(handshake_model(*old(h)).left) + payload@.len()
            &&& handshake_model(*final(h)) == advanced(
                handshake_model(*old(h)),
                true,
                final(packet)@.take(n as int),
            )
            &&& carried(handshake_model(*final(h)).transcript) == Some(payload@)
            &&& shows_own_key(handshake_model(*old(h))) ==> shown_key(
                handshake_model(*final(h)).transcript,
            ) == public_key(handshake_model(*old(h)).local)
        },
        can_write_handshake(handshake_model(*old(h)), payload@.len(), old(packet)@.len())
            && handshake_model(*old(h)).left == 1 ==> r is Ok,
{
    h.write_message(payload, packet)
}

/// `HandshakeState::read_message` of `snow`: takes in the next handshake message, when it is the
/// other side's turn, the message carries a payload behind the messages before it, and there is
/// room for that payload. The first message carries it in the clear behind a public key; what a
/// later one carries rests on its encryption and is left to the name `carried`.
#[verifier::external_body]
pub(crate) fn handshake_read(
    h: &mut snow::HandshakeState,
    packet: &[u8],
    payload: &mut [u8],
) -> (r: Result<usize, snow::Error>)
    requires
        handshake_model(*old(h)).pattern == NOISE_PATTERN@,
    ensures
        final(payload)@.len() == old(payload)@.len(),
        r matches Ok(n) ==> {
            &&& n <= old(payload)@.len()
            &&& taken(handshake_model(*old(h)), packet@) == Some(final(payload)@.take(n as int))
            &&& final(payload)@.skip(n as int) == old(payload)@.skip(n as int)
            &&& handshake_model(*final(h)) == advanced(handshake_model(*old(h)), false, packet@)
        },
        r is Ok <==> (taken(handshake_model(*old(h)), packet@) matches Some(p) && p.len()
            <= old(payload)@.len()),
        !handshake_model(*old(h)).my_turn && handshake_model(*old(h)).left == 3 ==> (r is Ok <==> {
            &&& 32 <= packet@.len() <= MAX_NOISE_MESSAGE
            &&& packet@.len() - 32 <= old(payload)@.len()
        }),
        r is Ok && handshake_model(*old(h)).left == 3 ==> final(payload)@ == packet@.skip(32)
            + old(payload)@.skip(packet@.len() - 32),
{
    h.read_message(packet, payload)
}

/// `HandshakeState::get_remote_static` of `snow`, for an initiator that has taken in the
/// responder's message: the static public key that the message showed.
#[verifier::external_body]
pub(crate) fn remote_static(h: &snow::HandshakeState) -> (r: Option<Vec<u8>>)
    requires
        handshake_model(*h).pattern == NOISE_PATTERN@,
        handshake_model(*h).initiator,
        handshake_model(*h).left == 1,
    ensures
        r is Some,
        r->Some_0@ == shown_key(handshake_model(*h).transcript),
{
    h.get_remote_static().map(|key| key.to_vec())
}

/// `HandshakeState::is_handshake_finished` of `snow`: whether every message was exchanged.
#[verifier::external_body]
pub(crate) fn handshake_finished(h: &snow::HandshakeState) -> (r: bool)
    ensures
        r == (handshake_model(*h).left == 0),
{
    h.is_handshake_finished()
}

/// `HandshakeState::into_transport_mode` of `snow`: turns a finished handshake into the channel
/// with the keys that it agreed on, and fails on an unfinished one. Of the two keys, the initiator
/// sends under the one that the responder receives under, and the other way round.
#[verifier::external_body]
pub(crate) fn into_transport(h: snow::HandshakeState) -> (r: Result<
    snow::TransportState,
    snow::Error,
>)
    requires
        handshake_model(h).pattern == NOISE_PATTERN@,
    ensures
        r is Ok <==> handshake_model(h).left == 0,
        r matches Ok(t) ==> transport_model(t) == (TransportModel {
            pattern: handshake_model(h).pattern,
            initiator: handshake_model(h).initiator,
            transcript: handshake_model(h).transcript,
            sending: agreed_key(handshake_model(h).transcript, handshake_model(h).initiator),
            sent: 0,
            receiving: agreed_key(handshake_model(h).transcript, !handshake_model(h).initiator),
            received: 0,
        }),
{
    h.into_transport_mode()
}

/// `TransportState::write_message` of `snow`: seals a payload as the next outgoing message. What is
/// sealed can be opened, so no other payload gives the same message under the same key and number.
/// It fails where the message would be too long for Noise or for the packet, or where the message
/// numbers are used up; the channel then stays as it was.
#[verifier::external_body]
pub(crate) fn transport_write(
    t: &mut snow::TransportState,
    payload: &[u8],
    packet: &mut [u8],
) -> (r: Result<usize, snow::Error>)
    requires
        transport_model(*old(t)).pattern == NOISE_PATTERN@,
    ensures
        r is Ok <==> can_write_transport(
            transport_model(*old(t)),
            payload@.len(),
            old(packet)@.len(),
        ),
        r matches Ok(n) ==> {
            let m = transport_model(*old(t));
            &&& n == payload@.len() + TAG_LEN
            &&& final(packet)@ == sealed(m.sending, m.sent, payload@) + old(packet)@.skip(n as int)
            &&& sealed(m.sending, m.sent, payload@).len() == n
            &&& forall|other: Seq<u8>| #[trigger]
                sealed(m.sending, m.sent, other) == sealed(m.sending, m.sent, payload@) ==> other
                    == payload@
            &&& transport_model(*final(t)) == (TransportModel { sent: m.sent + 1, ..m })
        },
        r is Err ==> final(packet)@ == old(packet)@ && transport_model(*final(t))
            == transport_model(*old(t)),
{
    t.write_message(payload, packet)
}

/// `TransportState::read_message` of `snow`: opens the next incoming message. It is accepted only
/// if it is what sealing some payload under the receiving key, with the number that is due, gives;
/// the payload is then handed back. Otherwise the channel stays as it was.
#[verifier::external_body]
pub(crate) fn transport_read(
    t: &mut snow::TransportState,
    packet: &[u8],
    payload: &mut [u8],
) -> (r: Result<usize, snow::Error>)
    requires
        transport_model(*old(t)).pattern == NOISE_PATTERN@,
    ensures
        final(payload)@.len() == old(payload)@.len(),
        r is Ok <==> {
            let m = transport_model(*old(t));
            &&& can_read_transport(m, packet@.len(), old(payload)@.len())
            &&& exists|p: Seq<u8>| packet@ == #[trigger] sealed(m.receiving, m.received, p)
        },
        r matches Ok(n) ==> {
            let m = transport_model(*old(t));
            &&& packet@.len() == n + TAG_LEN
            &&& packet@ == sealed(m.receiving, m.received, final(payload)@.take(n as int))
            &&& forall|p: Seq<u8>|
                packet@ == #[trigger] sealed(m.receiving, m.received, p) ==> p
                    == final(payload)@.take(n as int)
            &&& final(payload)@.skip(n as int) == old(payload)@.skip(n as int)
            &&& transport_model(*final(t)) == (TransportModel { received: m.received + 1, ..m })
        },
        r is Err ==> transport_model(*final(t)) == transport_model(*old(t)),
{
    t.read_message(packet, payload)
}

/// The `Debug` text of a `snow::Error`.
#[verifier::external_body]
pub(crate) fn error_debug(e: &snow::Error) -> (r: String)
    ensures
        r@ == failure_debug(*e),
{
    format!("{:?}", e)
}

/// The `Display` text of a `snow::Error`.
#[verifier::external_body]
pub(crate) fn error_display(e: &snow::Error) -> (r: String)
    ensures
        r@ == failure_display(*e),
{
    format!("{}", e)
}

} // verus!
