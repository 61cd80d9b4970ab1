//! Noise XX crypto session.
use vstd::prelude::*;
use vstd::slice::*;
use vstd::string::*;

use crate::error::CryptoError;
use crate::frame;
use crate::noise;
use crate::noise::{
    error_debug, error_display, fresh_keypair, handshake_finished, handshake_read, handshake_write,
    initiator, into_transport, pinned_initiator, remote_static, responder, transport_read,
    transport_write, HandshakeModel, KEY_LEN, MAX_NOISE_MESSAGE, MAX_PINNED_KEY_LEN, TAG_LEN,
    TransportModel,
};
use crate::text::joined;

pub use crate::noise::NOISE_PATTERN;

verus! {

/// Maximum Noise plaintext chunk size (65535 - 16 bytes AEAD tag).
pub const MAX_CHUNK_PLAIN: usize = 65519;

/// One side of an encrypted connection: first the key exchange, then the encrypted channel. A
/// failed call leaves it without a state.
pub struct NoiseSession {
    /// The handshake or the channel; `None` once a call has failed.
    pub state: Option<NoiseState>,
    /// The key that the server has to show.
    pub pinned: Option<Vec<u8>>,
}

/// What a session is in the middle of.
pub enum NoiseState {
    /// The key exchange.
    Handshake(Box<snow::HandshakeState>),
    /// The encrypted channel.
    Transport(snow::TransportState),
}

/// What a session holds.
pub enum SessionModel {
    /// The key exchange.
    Handshake(HandshakeModel),
    /// The encrypted channel.
    Transport(TransportModel),
    /// Nothing: a call has failed.
    Failed,
}

impl SessionModel {
    /// Whether the session follows `NOISE_PATTERN`, its message counts fit, and only a client has a
    /// pinned key, as in every session of this library.
    pub open spec fn wf(self) -> bool {
        match self {
            SessionModel::Handshake(h) => {
                &&& h.pattern == NOISE_PATTERN@
                &&& 0 < h.left <= 3
                &&& h.my_turn == (h.initiator == (h.left != 2))
                &&& h.pinned is Some ==> h.initiator
            },
            SessionModel::Transport(t) => t.pattern == NOISE_PATTERN@ && t.sent <= u64::MAX
                && t.received <= u64::MAX,
            SessionModel::Failed => true,
        }
    }
}

impl View for NoiseSession {
    type V = SessionModel;

    open spec fn view(&self) -> SessionModel {
        match self.state {
            Some(NoiseState::Handshake(h)) => SessionModel::Handshake(
                HandshakeModel {
                    pinned: match self.pinned {
                        Some(key) => Some(key@),
                        None => None,
                    },
                    ..noise::handshake_model(*h)
                },
            ),
            Some(NoiseState::Transport(t)) => SessionModel::Transport(noise::transport_model(t)),
            None => SessionModel::Failed,
        }
    }
}

/// Whether a key is all zero, and so none.
pub open spec fn is_blank(key: Seq<u8>) -> bool {
    forall|i: int| 0 <= i < key.len() ==> #[trigger] key[i] == 0
}

/// Whether a client trusts the key that the server shows: any key where none is pinned, else the
/// pinned one alone.
pub open spec fn trusts(pinned: Option<Seq<u8>>, shown: Seq<u8>) -> bool {
    pinned matches Some(key) ==> is_blank(key) || key == shown
}

/// Whether a message is the server's and shows a key that the client does not trust.
pub open spec fn mistrusted(h: HandshakeModel, message: Seq<u8>) -> bool {
    h.initiator && h.left == 2 && !trusts(h.pinned, noise::shown_key(h.transcript.push(message)))
}

/// What a session in its handshake takes a message for: the payload that it carries, or nothing
/// where it is not accepted or not trusted.
pub open spec fn accepted(h: HandshakeModel, message: Seq<u8>) -> Option<Seq<u8>> {
    if mistrusted(h, message) {
        None
    } else {
        noise::taken(h, message)
    }
}

/// The session one handshake message later, written by us (`mine`) or by the other side; with the
/// last message it becomes the channel, with both message counts at zero.
pub open spec fn handshake_step(
    h: HandshakeModel,
    mine: bool,
    message: Seq<u8>,
) -> SessionModel {
    if h.left > 1 {
        SessionModel::Handshake(noise::advanced(h, mine, message))
    } else {
        SessionModel::Transport(channel(h.pattern, h.initiator, h.transcript.push(message)))
    }
}

/// The channel at its start: its keys follow from the messages of the handshake.
pub open spec fn channel(
    pattern: Seq<char>,
    initiator: bool,
    transcript: Seq<Seq<u8>>,
) -> TransportModel {
    TransportModel {
        pattern,
        initiator,
        transcript,
        sending: noise::agreed_key(transcript, initiator),
        sent: 0,
        receiving: noise::agreed_key(transcript, !initiator),
        received: 0,
    }
}

/// What a message opens to under a key and as the message of a number: the payload that it was
/// sealed from, if there is one.
pub open spec fn unseal(key: Seq<u8>, number: nat, packet: Seq<u8>) -> Option<Seq<u8>> {
    if exists|p: Seq<u8>| packet == #[trigger] noise::sealed(key, number, p) {
        Some(choose|p: Seq<u8>| packet == #[trigger] noise::sealed(key, number, p))
    } else {
        None
    }
}

/// What a channel opens the next incoming message to.
pub open spec fn opened(t: TransportModel, packet: Seq<u8>) -> Option<Seq<u8>> {
    if TAG_LEN <= packet.len() <= MAX_NOISE_MESSAGE && t.received
        < u64::MAX {
        unseal(t.receiving, t.received, packet)
    } else {
        None
    }
}

/// A channel that has opened `n` more messages.
pub open spec fn received_more(t: TransportModel, n: nat) -> SessionModel {
    SessionModel::Transport(TransportModel { received: t.received + n, ..t })
}

/// A channel that has sealed `n` more messages.
pub open spec fn sent_more(t: TransportModel, n: nat) -> SessionModel {
    SessionModel::Transport(TransportModel { sent: t.sent + n, ..t })
}

/// Whether a session `s` takes in `packet` as `plain`, and is `after` then.
pub open spec fn reads(
    s: SessionModel,
    packet: Seq<u8>,
    plain: Seq<u8>,
    after: SessionModel,
) -> bool {
    match s {
        SessionModel::Failed => false,
        SessionModel::Handshake(h) => {
            &&& accepted(h, packet) == Some(plain)
            &&& packet.len() == noise::handshake_overhead(h.left) + plain.len()
            &&& h.left == 3 ==> plain == packet.skip(32)
            &&& after == handshake_step(h, false, packet)
        },
        SessionModel::Transport(t) => {
            &&& packet.len() == plain.len() + TAG_LEN
            &&& opened(t, packet) == Some(plain)
            &&& after == received_more(t, 1)
        },
    }
}

/// Whether a session `s` turns `plain` into `packet`, and is `after` then.
pub open spec fn writes(
    s: SessionModel,
    plain: Seq<u8>,
    packet: Seq<u8>,
    after: SessionModel,
) -> bool {
    match s {
        SessionModel::Failed => false,
        SessionModel::Handshake(h) => {
            &&& h.my_turn
            &&& packet.len() <= MAX_NOISE_MESSAGE
            &&& packet.len() == noise::handshake_overhead(h.left) + plain.len()
            &&& noise::carried(h.transcript.push(packet)) == Some(plain)
            &&& noise::shows_own_key(h) ==> noise::shown_key(h.transcript.push(packet))
                == noise::public_key(h.local)
            &&& after == handshake_step(h, true, packet)
        },
        SessionModel::Transport(t) => {
            &&& packet.len() == plain.len() + TAG_LEN
            &&& packet.len() <= MAX_NOISE_MESSAGE
            &&& t.sent < u64::MAX
            &&& packet == noise::sealed(t.sending, t.sent, plain)
            &&& unseal(t.sending, t.sent, packet) == Some(plain)
            &&& after == sent_more(t, 1)
        },
    }
}

/// The text of a failure on a server key that is not the pinned one.
pub open spec fn mistrust_text() -> Seq<char> {
    "server key is not the pinned one"@
}

/// The error that a failed read of `packet` into `room` bytes is reported as: that of the engine,
/// or that the server is not trusted, where the engine has nothing against the message.
pub open spec fn read_error(s: SessionModel, packet: Seq<u8>, room: nat, e: CryptoError) -> bool {
    match s {
        SessionModel::Failed => e is InvalidState,
        SessionModel::Handshake(h) => e matches CryptoError::HandshakeFailed(text) && if (
        noise::taken(h, packet) matches Some(p) && p.len() <= room) {
            text@ == mistrust_text()
        } else {
            exists|cause: snow::Error|
                text@ == "Noise handshake read: "@ + #[trigger] noise::failure_debug(cause)
        },
        SessionModel::Transport(_) => e matches CryptoError::DecryptFailed(text) && exists|
            cause: snow::Error,
        |
            text@ == "Noise transport read: "@ + #[trigger] noise::failure_debug(cause),
    }
}

/// The error that a failed write is reported as.
pub open spec fn write_error(s: SessionModel, e: CryptoError) -> bool {
    match s {
        SessionModel::Failed => e is InvalidState,
        SessionModel::Handshake(_) => e matches CryptoError::HandshakeFailed(text) && exists|
            cause: snow::Error,
        |
            text@ == "Noise handshake write: "@ + #[trigger] noise::failure_debug(cause),
        SessionModel::Transport(_) => e matches CryptoError::EncryptFailed(text) && exists|
            cause: snow::Error,
        |
            text@ == "Noise transport write: "@ + #[trigger] noise::failure_debug(cause),
    }
}

/// A plaintext cut into pieces of `MAX_CHUNK_PLAIN` bytes, the last of which may be shorter.
pub open spec fn plain_chunks(plain: Seq<u8>) -> Seq<Seq<u8>>
    decreases plain.len(),
{
    if plain.len() == 0 {
        Seq::empty()
    } else if plain.len() <= MAX_CHUNK_PLAIN {
        seq![plain]
    } else {
        seq![plain.take(MAX_CHUNK_PLAIN as int)] + plain_chunks(plain.skip(MAX_CHUNK_PLAIN as int))
    }
}

/// Whether encrypting in the middle of a key exchange would hit the packet lengths that
/// `write_overruns` tells.
pub open spec fn encrypt_overruns(s: SessionModel, plain: Seq<u8>) -> bool {
    s matches SessionModel::Handshake(h) && plain.len() > 0 && noise::write_overruns(
        h,
        plain_chunks(plain)[0].len() + 16,
    )
}

/// What a session takes a message for, and what becomes of the session.
pub open spec fn reading(s: SessionModel, packet: Seq<u8>) -> (Option<Seq<u8>>, SessionModel) {
    let plain = match s {
        SessionModel::Failed => None,
        SessionModel::Handshake(h) => accepted(h, packet),
        SessionModel::Transport(t) => opened(t, packet),
    };
    let after = match s {
        SessionModel::Handshake(h) if plain is Some => handshake_step(h, false, packet),
        SessionModel::Transport(t) if plain is Some => received_more(t, 1),
        _ => SessionModel::Failed,
    };
    (plain, after)
}

/// What a session takes some messages for, one after the other, and what becomes of the session.
pub open spec fn opening(s: SessionModel, packets: Seq<Seq<u8>>) -> (
    Option<Seq<u8>>,
    SessionModel,
)
    decreases packets.len(),
{
    if packets.len() == 0 {
        (Some(Seq::empty()), s)
    } else {
        match opening(s, packets.drop_last()) {
            (Some(head), now) => match reading(now, packets.last()) {
                (Some(piece), after) => (Some(head + piece), after),
                _ => (None, SessionModel::Failed),
            },
            _ => (None, SessionModel::Failed),
        }
    }
}

/// The messages that a channel seals a plaintext into, chunk by chunk.
pub open spec fn sealed_chunks(t: TransportModel, plain: Seq<u8>) -> Seq<Seq<u8>> {
    Seq::new(
        plain_chunks(plain).len(),
        |i: int| noise::sealed(t.sending, (t.sent + i) as nat, plain_chunks(plain)[i]),
    )
}

/// What a channel seals a plaintext into, and what becomes of the session.
pub open spec fn sealing(
    t: TransportModel,
    plain: Seq<u8>,
) -> (Option<Seq<Seq<u8>>>, SessionModel) {
    if t.sent + plain_chunks(plain).len() <= u64::MAX {
        (Some(sealed_chunks(t, plain)), sent_more(t, plain_chunks(plain).len()))
    } else {
        (None, SessionModel::Failed)
    }
}

/// The messages that a plaintext is sealed into open to its chunks, and are longer than these by a
/// tag.
pub open spec fn faithful(t: TransportModel, plain: Seq<u8>) -> bool {
    forall|i: int|
        0 <= i < plain_chunks(plain).len() ==> {
            &&& #[trigger] sealed_chunks(t, plain)[i].len() == plain_chunks(plain)[i].len()
                + TAG_LEN
            &&& unseal(t.sending, (t.sent + i) as nat, sealed_chunks(t, plain)[i]) == Some(
                plain_chunks(plain)[i],
            )
        }
}

/// The contents of some byte vectors.
pub open spec fn contents(v: Seq<Vec<u8>>) -> Seq<Seq<u8>> {
    Seq::new(v.len(), |i: int| v[i]@)
}

impl CryptoError {
    /// The text that describes what a session reports: the detail of a Noise failure alone.
    pub open spec fn detail_text(self) -> Seq<char> {
        match self {
            CryptoError::PatternParse(s) => s@,
            CryptoError::HandshakeFailed(s) => s@,
            CryptoError::EncryptFailed(s) => s@,
            CryptoError::DecryptFailed(s) => s@,
            CryptoError::InvalidState => "NoiseSession: invalid state"@,
            CryptoError::InvalidKeyLength => "unexpected key length"@,
        }
    }

    /// Describes what a session reports, without naming the kind of failure.
    pub fn detail(&self) -> (r: String)
        ensures
            r@ == self.detail_text(),
    {
        match self {
            CryptoError::PatternParse(s) => s.clone(),
            CryptoError::HandshakeFailed(s) => s.clone(),
            CryptoError::EncryptFailed(s) => s.clone(),
            CryptoError::DecryptFailed(s) => s.clone(),
            CryptoError::InvalidState => "NoiseSession: invalid state".to_owned(),
            CryptoError::InvalidKeyLength => "unexpected key length".to_owned(),
        }
    }
}

/// A failure of the engine, with what was being done.
fn failure(doing: &str, cause: &snow::Error) -> (r: String)
    ensures
        r@ == doing@ + noise::failure_debug(*cause),
{
    let text = error_debug(cause);
    joined(doing, text.as_str())
}

/// Whether the key that the server has shown is the pinned one, if there is one.
fn pin_holds(pinned: &Option<Vec<u8>>, handshake: &snow::HandshakeState) -> (r: bool)
    requires
        pinned is Some ==> noise::handshake_model(*handshake).pattern == NOISE_PATTERN@
            && noise::handshake_model(*handshake).initiator && noise::handshake_model(
            *handshake,
        ).left == 1,
    ensures
        r == trusts(
            match *pinned {
                Some(key) => Some(key@),
                None => None,
            },
            noise::shown_key(noise::handshake_model(*handshake).transcript),
        ),
{
    match pinned {
        None => true,
        Some(key) => blank(key) || match remote_static(handshake) {
            Some(shown) => same_bytes(key, &shown),
            None => false,
        },
    }
}

/// Whether a key is all zero.
fn blank(key: &Vec<u8>) -> (r: bool)
    ensures
        r == is_blank(key@),
{
    let mut i: usize = 0;
    while i < key.len()
        invariant
            i <= key@.len(),
            forall|j: int| 0 <= j < i ==> #[trigger] key@[j] == 0,
        decreases key@.len() - i,
    {
        if key[i] != 0 {
            return false;
        }
        i = i + 1;
    }
    true
}

/// Whether two keys are the same.
fn same_bytes(a: &Vec<u8>, b: &Vec<u8>) -> (r: bool)
    ensures
        r == (a@ == b@),
{
    if a.len() != b.len() {
        return false;
    }
    let mut i: usize = 0;
    while i < a.len()
        invariant
            i <= a@.len() == b@.len(),
            forall|j: int| 0 <= j < i ==> #[trigger] a@[j] == b@[j],
        decreases a@.len() - i,
    {
        if a[i] != b[i] {
            return false;
        }
        i = i + 1;
    }
    assert(a@ =~= b@);
    true
}

impl NoiseSession {
    /// Create a client-side (initiator) session.
    /// `server_static_key` — optional pinned server public key: a server that shows another key is
    /// rejected. If it is `None` or all zero, any server key is accepted (trust-on-first-use).
    pub fn client(server_static_key: Option<&[u8]>) -> (r: Result<NoiseSession, CryptoError>)
        requires
            server_static_key matches Some(key) ==> key@.len()
                <= MAX_PINNED_KEY_LEN,
        ensures
            r matches Ok(session) ==> {
                &&& session@.wf()
                &&& session@ matches SessionModel::Handshake(h) && {
                    &&& h.left == 3
                    &&& h.my_turn
                    &&& h.initiator
                    &&& h.transcript.len() == 0
                    &&& h.local.len() == KEY_LEN
                    &&& match server_static_key {
                        Some(key) => h.pinned == Some(key@),
                        None => h.pinned is None,
                    }
                }
            },
            r matches Err(e) ==> e matches CryptoError::HandshakeFailed(text) && exists|
                cause: snow::Error,
            |
                text@ == #[trigger] noise::failure_display(cause),
    {
        let keypair = match fresh_keypair(NOISE_PATTERN) {
            Ok(keypair) => keypair,
            Err(e) => {
                return Err(CryptoError::HandshakeFailed(error_display(&e)));
            },
        };
        NoiseSession::client_with_key(keypair.0.as_slice(), server_static_key)
    }

    /// Create a client-side (initiator) session with the client's own private key.
    pub fn client_with_key(private: &[u8], server_static_key: Option<&[u8]>) -> (r: Result<
        NoiseSession,
        CryptoError,
    >)
        requires
            private@.len() <= KEY_LEN,
            server_static_key matches Some(key) ==> key@.len() <= MAX_PINNED_KEY_LEN,
        ensures
            r matches Ok(session) && session@.wf() && (session@ matches SessionModel::Handshake(h)
                && h.left == 3 && h.my_turn && h.initiator && h.transcript.len() == 0 && h.local
                == private@ && h.pinned == (match server_static_key {
                Some(key) => Some(key@),
                None => None,
            })),
    {
        let built = match server_static_key {
            Some(key) => pinned_initiator(NOISE_PATTERN, private, key),
            None => initiator(NOISE_PATTERN, private),
        };
        let pinned = match server_static_key {
            Some(key) => Some(slice_to_vec(key)),
            None => None,
        };
        match built {
            Ok(handshake) => Ok(
                NoiseSession { state: Some(NoiseState::Handshake(Box::new(handshake))), pinned },
            ),
            Err(e) => Err(CryptoError::HandshakeFailed(error_display(&e))),
        }
    }

    /// Create a server-side (responder) session.
    /// `static_key` — server's own private key (32 bytes for X25519).
    pub fn server(static_key: &[u8]) -> (r: Result<NoiseSession, CryptoError>)
        requires
            static_key@.len() <= KEY_LEN,
        ensures
            r matches Ok(session) && session@.wf() && (session@ matches SessionModel::Handshake(h)
                && h.left == 3 && !h.my_turn && h.pinned is None && !h.initiator
                && h.transcript.len() == 0 && h.local == static_key@),
    {
        match responder(NOISE_PATTERN, static_key) {
            Ok(handshake) => Ok(
                NoiseSession {
                    state: Some(NoiseState::Handshake(Box::new(handshake))),
                    pinned: None,
                },
            ),
            Err(e) => Err(CryptoError::HandshakeFailed(error_display(&e))),
        }
    }

    /// Process an incoming handshake or transport message.
    /// Returns the number of bytes written to `payload`.
    pub fn read_message(&mut self, packet: &[u8], payload: &mut [u8]) -> (r: Result<
        usize,
        CryptoError,
    >)
        requires
            old(self)@.wf(),
        ensures
            final(self)@.wf(),
            final(payload)@.len() == old(payload)@.len(),
            r matches Ok(n) ==> {
                &&& n <= final(payload)@.len()
                &&& reads(old(self)@, packet@, final(payload)@.take(n as int), final(self)@)
            },
            r matches Err(e) ==> read_error(old(self)@, packet@, old(payload)@.len(), e),
            r is Err ==> final(self)@ is Failed,
            old(self)@ matches SessionModel::Transport(t) ==> {
                r is Ok <==> opened(t, packet@) is Some && packet@.len() - TAG_LEN
                    <= old(payload)@.len()
            },
            old(self)@ matches SessionModel::Handshake(h) ==> (r is Ok <==> (accepted(
                h,
                packet@,
            ) matches Some(p) && p.len() <= old(payload)@.len())),
            r matches Ok(n) ==> final(payload)@.skip(n as int) == old(payload)@.skip(n as int),
            old(self)@ matches SessionModel::Handshake(h) && h.left == 3 && !h.my_turn ==> (r is Ok
                <==> 32 <= packet@.len() <= MAX_NOISE_MESSAGE && packet@.len() - 32
                <= old(payload)@.len()),
    {
        match self.state.take() {
            None => Err(CryptoError::InvalidState),
            Some(NoiseState::Handshake(boxed)) => {
                let mut handshake = *boxed;
                match handshake_read(&mut handshake, packet, payload) {
                    Err(e) => Err(
                        CryptoError::HandshakeFailed(failure("Noise handshake read: ", &e)),
                    ),
                    Ok(len) => {
                        assert(old(self)@->Handshake_0.left == 3 ==> payload@.take(len as int)
                            =~= packet@.skip(32));
                        if !pin_holds(&self.pinned, &handshake) {
                            return Err(
                                CryptoError::HandshakeFailed(
                                    "server key is not the pinned one".to_owned(),
                                ),
                            );
                        }
                        if handshake_finished(&handshake) {
                            match into_transport(handshake) {
                                Err(e) => Err(
                                    CryptoError::HandshakeFailed(
                                        failure("Noise into_transport_mode: ", &e),
                                    ),
                                ),
                                Ok(transport) => {
                                    self.state = Some(NoiseState::Transport(transport));
                                    Ok(len)
                                },
                            }
                        } else {
                            self.state = Some(NoiseState::Handshake(Box::new(handshake)));
                            Ok(len)
                        }
                    },
                }
            },
            Some(NoiseState::Transport(transport)) => {
                let mut transport = transport;
                match transport_read(&mut transport, packet, payload) {
                    Err(e) => Err(
                        CryptoError::DecryptFailed(failure("Noise transport read: ", &e)),
                    ),
                    Ok(len) => {
                        self.state = Some(NoiseState::Transport(transport));
                        Ok(len)
                    },
                }
            },
        }
    }

    /// Produce an outgoing handshake or transport message.
    /// Returns the number of bytes written to `packet`.
    pub fn write_message(&mut self, payload: &[u8], packet: &mut [u8]) -> (r: Result<
        usize,
        CryptoError,
    >)
        requires
            old(self)@.wf(),
            old(self)@ matches SessionModel::Handshake(h) ==> !noise::write_overruns(
                h,
                old(packet)@.len(),
            ),
        ensures
            final(self)@.wf(),
            final(packet)@.len() == old(packet)@.len(),
            r matches Ok(n) ==> {
                &&& n <= final(packet)@.len()
                &&& writes(old(self)@, payload@, final(packet)@.take(n as int), final(self)@)
            },
            r matches Err(e) ==> write_error(old(self)@, e) && final(self)@ is Failed,
            old(self)@ matches SessionModel::Transport(t) ==> (r is Ok
                <==> noise::can_write_transport(t, payload@.len(), old(packet)@.len())),
            old(self)@ matches SessionModel::Handshake(h) ==> {
                &&& r is Ok ==> noise::can_write_handshake(
                    h,
                    payload@.len(),
                    old(packet)@.len(),
                )
                &&& h.left == 1 && noise::can_write_handshake(
                    h,
                    payload@.len(),
                    old(packet)@.len(),
                ) ==> r is Ok
            },
    {
        match self.state.take() {
            None => Err(CryptoError::InvalidState),
            Some(NoiseState::Handshake(boxed)) => {
                let mut handshake = *boxed;
                match handshake_write(&mut handshake, payload, packet) {
                    Err(e) => Err(
                        CryptoError::HandshakeFailed(failure("Noise handshake write: ", &e)),
                    ),
                    Ok(len) => {
                        if handshake_finished(&handshake) {
                            match into_transport(handshake) {
                                Err(e) => Err(
                                    CryptoError::HandshakeFailed(
                                        failure("Noise into_transport_mode: ", &e),
                                    ),
                                ),
                                Ok(transport) => {
                                    self.state = Some(NoiseState::Transport(transport));
                                    Ok(len)
                                },
                            }
                        } else {
                            self.state = Some(NoiseState::Handshake(Box::new(handshake)));
                            Ok(len)
                        }
                    },
                }
            },
            Some(NoiseState::Transport(transport)) => {
                let mut transport = transport;
                match transport_write(&mut transport, payload, packet) {
                    Err(e) => Err(
                        CryptoError::EncryptFailed(failure("Noise transport write: ", &e)),
                    ),
                    Ok(len) => {
                        self.state = Some(NoiseState::Transport(transport));
                        assert(packet@.take(len as int) =~= noise::sealed(
                            noise::transport_model(old(self).state->Some_0->Transport_0).sending,
                            noise::transport_model(old(self).state->Some_0->Transport_0).sent,
                            payload@,
                        ));
                        Ok(len)
                    },
                }
            },
        }
    }

    /// Returns `true` after the 3-step XX handshake is complete.
    pub fn is_finished(&self) -> (r: bool)
        ensures
            r == (self@ is Transport),
    {
        match &self.state {
            Some(NoiseState::Transport(_)) => true,
            _ => false,
        }
    }

    /// Encrypt `payload` into one or more chunks, each ≤ 65535 bytes.
    /// Each chunk should be sent as a separate WS binary message.
    pub fn encrypt_chunked(&mut self, payload: &[u8]) -> (r: Result<Vec<Vec<u8>>, CryptoError>)
        requires
            old(self)@.wf(),
            !encrypt_overruns(old(self)@, payload@),
        ensures
            final(self)@.wf(),
            payload@.len() == 0 ==> (r matches Ok(v) && v@.len() == 0) && final(self)@
                == old(self)@,
            old(self)@ matches SessionModel::Transport(t) ==> {
                &&& final(self)@ == sealing(t, payload@).1
                &&& match sealing(t, payload@).0 {
                    Some(packets) => r matches Ok(v) && contents(v@) == packets && faithful(
                        t,
                        payload@,
                    ),
                    None => r is Err,
                }
            },
            !(old(self)@ is Transport) && payload@.len() > 0 ==> r is Err,
            r matches Err(e) ==> write_error(old(self)@, e) && final(self)@ is Failed,
    {
        let mut chunks: Vec<Vec<u8>> = Vec::new();
        let mut start: usize = 0;
        proof {
            assert(payload@.skip(0) =~= payload@);
            assert(Seq::<Seq<u8>>::empty() + plain_chunks(payload@) =~= plain_chunks(payload@));
        }
        while start < payload.len()
            invariant
                start <= payload@.len(),
                self@.wf(),
                contents(chunks@).len() == chunks@.len(),
                plain_chunks(payload@).len() == chunks@.len() + plain_chunks(
                    payload@.skip(start as int),
                ).len(),
                plain_chunks(payload@).skip(chunks@.len() as int) == plain_chunks(
                    payload@.skip(start as int),
                ),
                start > 0 ==> old(self)@ is Transport,
                chunks@.len() == 0 ==> start == 0 && self@ == old(self)@,
                start == 0 ==> chunks@.len() == 0,
                old(self)@ matches SessionModel::Transport(t) ==> {
                    &&& t.sent + chunks@.len() <= u64::MAX
                    &&& self@ == sent_more(t, chunks@.len())
                    &&& forall|i: int|
                        0 <= i < chunks@.len() ==> {
                            &&& #[trigger] chunks@[i]@ == sealed_chunks(t, payload@)[i]
                            &&& chunks@[i]@.len() == plain_chunks(payload@)[i].len()
                                + TAG_LEN
                            &&& unseal(t.sending, (t.sent + i) as nat, chunks@[i]@) == Some(
                                plain_chunks(payload@)[i],
                            )
                        }
                },
                !encrypt_overruns(old(self)@, payload@),
            decreases payload@.len() - start,
        {
            let end: usize = if payload.len() - start <= MAX_CHUNK_PLAIN {
                payload.len()
            } else {
                start + MAX_CHUNK_PLAIN
            };
            let chunk = slice_subrange(payload, start, end);
            let ghost rest = payload@.skip(start as int);
            let ghost before = self@;
            let ghost done = chunks@.len() as int;
            proof {
                assert(plain_chunks(rest)[0] =~= chunk@) by {
                    if rest.len() <= MAX_CHUNK_PLAIN {
                        assert(chunk@ =~= rest);
                    } else {
                        assert(chunk@ =~= rest.take(MAX_CHUNK_PLAIN as int));
                    }
                }
                assert(plain_chunks(payload@)[done] == plain_chunks(payload@).skip(done)[0]);
                assert(plain_chunks(payload@.skip(end as int)) =~= plain_chunks(rest).skip(1)) by {
                    assert(payload@.skip(end as int) =~= rest.skip(chunk@.len() as int));
                }
                assert(plain_chunks(payload@).skip(done + 1) =~= plain_chunks(payload@).skip(
                    done,
                ).skip(1));
            }
            let mut packet: Vec<u8> = vec![0u8; chunk.len() + 16];
            match self.write_message(chunk, packet.as_mut_slice()) {
                Err(e) => {
                    return Err(e);
                },
                Ok(len) => {
                    packet.truncate(len);
                    assert(writes(before, chunk@, packet@, self@));
                    chunks.push(packet);
                    start = end;
                },
            }
        }
        proof {
            if let SessionModel::Transport(t) = old(self)@ {
                assert(contents(chunks@) =~= sealed_chunks(t, payload@));
                assert forall|i: int| 0 <= i < plain_chunks(payload@).len() implies {
                    &&& #[trigger] sealed_chunks(t, payload@)[i].len() == plain_chunks(
                        payload@,
                    )[i].len() + TAG_LEN
                    &&& unseal(
                        t.sending,
                        (t.sent + i) as nat,
                        sealed_chunks(t, payload@)[i],
                    ) == Some(plain_chunks(payload@)[i])
                } by {
                    assert(chunks@[i]@ == sealed_chunks(t, payload@)[i]);
                }
            }
        }
        Ok(chunks)
    }

    /// Decrypt a sequence of chunks (one per WS message) back into a single buffer.
    pub fn decrypt_chunked(&mut self, packets: &[Vec<u8>]) -> (r: Result<Vec<u8>, CryptoError>)
        requires
            old(self)@.wf(),
        ensures
            final(self)@.wf(),
            final(self)@ == opening(old(self)@, contents(packets@)).1,
            match opening(old(self)@, contents(packets@)).0 {
                Some(plain) => r matches Ok(v) && v@ == plain,
                None => r is Err,
            },
            r matches Err(e) ==> exists|k: int|
                0 <= k < packets@.len() && read_error(
                    opening(old(self)@, #[trigger] contents(packets@).take(k)).1,
                    packets@[k]@,
                    packets@[k]@.len(),
                    e,
                ),
    {
        let mut out: Vec<u8> = Vec::new();
        let mut next: usize = 0;
        let ghost all = contents(packets@);
        while next < packets.len()
            invariant
                next <= packets@.len(),
                all == contents(packets@),
                self@.wf(),
                opening(old(self)@, all.take(next as int)) == (Some(out@), self@),
            decreases packets@.len() - next,
        {
            let packet = packets[next].as_slice();
            let mut buf: Vec<u8> = vec![0u8; packet.len()];
            let ghost before = self@;
            let ghost head = out@;
            let ghost part = all.take(next + 1);
            proof {
                assert(all[next as int] == packet@);
                assert(part.drop_last() =~= all.take(next as int));
            }
            match self.read_message(packet, buf.as_mut_slice()) {
                Err(e) => {
                    proof {
                        assert(opening(old(self)@, part).0 is None);
                        lemma_opening_stops(old(self)@, all, next + 1);
                    }
                    return Err(e);
                },
                Ok(len) => {
                    let piece = slice_subrange(buf.as_slice(), 0, len);
                    out.extend_from_slice(piece);
                    proof {
                        assert(piece@ =~= buf@.take(len as int));
                        assert(out@ =~= head + piece@);
                    }
                    next = next + 1;
                },
            }
        }
        assert(all.take(next as int) =~= all);
        Ok(out)
    }
}

/// Where a session fails on the first of some messages, it fails on all of them.
proof fn lemma_opening_stops(s: SessionModel, packets: Seq<Seq<u8>>, n: int)
    requires
        0 <= n <= packets.len(),
        opening(s, packets.take(n)).0 is None,
    ensures
        opening(s, packets) == (None::<Seq<u8>>, SessionModel::Failed),
    decreases packets.len(),
{
    if n == packets.len() {
        assert(packets.take(n) =~= packets);
    } else {
        assert(packets.drop_last().take(n) =~= packets.take(n));
        lemma_opening_stops(s, packets.drop_last(), n);
    }
}

/// Generate a fresh X25519 static key pair for use with Noise XX.
/// Returns `(private_key, public_key)`, each 32 bytes; the public key belongs to the private one.
pub fn generate_keypair() -> (r: Result<([u8; 32], [u8; 32]), CryptoError>)
    ensures
        r matches Ok((private, public)) ==> public@ == noise::public_key(private@),
        r matches Err(e) ==> e matches CryptoError::HandshakeFailed(text) && exists|
            cause: snow::Error,
        |
            text@ == #[trigger] noise::failure_display(cause),
{
    match fresh_keypair(NOISE_PATTERN) {
        Err(e) => Err(CryptoError::HandshakeFailed(error_display(&e))),
        Ok((private, public)) => match (to_key(&private), to_key(&public)) {
            (Some(private), Some(public)) => Ok((private, public)),
            _ => Err(CryptoError::InvalidKeyLength),
        },
    }
}

/// The key that a vector of 32 bytes holds.
pub fn to_key(bytes: &Vec<u8>) -> (r: Option<[u8; 32]>)
    ensures
        r is Some <==> bytes@.len() == KEY_LEN,
        r matches Some(key) ==> key@ == bytes@,
{
    if bytes.len() != KEY_LEN {
        return None;
    }
    let mut key: [u8; 32] = [0u8; 32];
    let mut i: usize = 0;
    while i < KEY_LEN
        invariant
            bytes@.len() == KEY_LEN,
            i <= KEY_LEN,
            key@.take(i as int) == bytes@.take(i as int),
        decreases KEY_LEN - i,
    {
        key[i] = bytes[i];
        assert(key@.take(i + 1) =~= bytes@.take(i + 1));
        i = i + 1;
    }
    assert(key@.take(i as int) =~= key@);
    assert(bytes@.take(i as int) =~= bytes@);
    Some(key)
}

/// The pieces of a plaintext make up the plaintext.
pub proof fn lemma_plain_chunks_make_up(plain: Seq<u8>)
    ensures
        frame::concatenated(plain_chunks(plain)) == plain,
        forall|i: int|
            0 <= i < plain_chunks(plain).len() ==> 0 < #[trigger] plain_chunks(plain)[i].len()
                <= MAX_CHUNK_PLAIN,
    decreases plain.len(),
{
    if plain.len() == 0 {
    } else if plain.len() <= MAX_CHUNK_PLAIN {
        reveal_with_fuel(frame::concatenated, 2);
        assert(plain_chunks(plain).drop_last() =~= Seq::empty());
        assert(frame::concatenated(plain_chunks(plain)) =~= plain);
    } else {
        let first = plain.take(MAX_CHUNK_PLAIN as int);
        let rest = plain.skip(MAX_CHUNK_PLAIN as int);
        lemma_plain_chunks_make_up(rest);
        lemma_concatenated_front(first, plain_chunks(rest));
        assert(first + rest =~= plain);
    }
}

proof fn lemma_concatenated_front(first: Seq<u8>, rest: Seq<Seq<u8>>)
    ensures
        frame::concatenated(seq![first] + rest) == first + frame::concatenated(rest),
    decreases rest.len(),
{
    let all = seq![first] + rest;
    if rest.len() == 0 {
        reveal_with_fuel(frame::concatenated, 2);
        assert(all.drop_last() =~= Seq::empty());
        assert(frame::concatenated(all) =~= first + frame::concatenated(rest));
    } else {
        lemma_concatenated_front(first, rest.drop_last());
        assert(all.drop_last() =~= seq![first] + rest.drop_last());
        assert(first + frame::concatenated(rest.drop_last()) + rest.last() =~= first
            + frame::concatenated(rest));
    }
}

/// What one end writes in the handshake, the other end reads: a message that a session has written
/// is accepted by a session whose turn it is to read and that has exchanged the same messages
/// before, unless it shows a key that the reader does not trust, and gives the payload that was
/// written.
pub proof fn law_handshake_message_is_read(
    writer: SessionModel,
    reader: SessionModel,
    plain: Seq<u8>,
    packet: Seq<u8>,
    after: SessionModel,
)
    requires
        writes(writer, plain, packet, after),
        writer matches SessionModel::Handshake(w) && (reader matches SessionModel::Handshake(r)
            && r.transcript == w.transcript && r.left == w.left && !r.my_turn && r.left > 0
            && !mistrusted(r, packet)),
    ensures
        accepted(reader->Handshake_0, packet) == Some(plain),
{
}

/// Whether a client trusts a server that has this private key.
pub open spec fn trusts_owner(pinned: Option<Seq<u8>>, private: Seq<u8>) -> bool {
    pinned matches Some(key) ==> is_blank(key) || (private.len() == KEY_LEN && key
        == noise::public_key(private))
}

/// A pinned key rejects every other server: a client with a pinned key does not accept the message
/// that a server with another key has written.
pub proof fn law_pinned_key_rejects_others(
    client: SessionModel,
    server: SessionModel,
    plain: Seq<u8>,
    packet: Seq<u8>,
    after: SessionModel,
)
    requires
        writes(server, plain, packet, after),
        server matches SessionModel::Handshake(s) && (client matches SessionModel::Handshake(c)
            && c.transcript == s.transcript && c.left == s.left == 2 && c.initiator && !s.initiator
            && s.local.len() == KEY_LEN && !trusts_owner(c.pinned, s.local)),
    ensures
        accepted(client->Handshake_0, packet) is None,
{
}

/// The two ends of a handshake complete it and agree. A fresh client and a fresh server that it
/// trusts write their messages in turn, and each takes in what the other has written: every message
/// is accepted and gives the payload that was written. In the end each receives under the key that
/// the other sends under, and has taken in all that the other has sealed, which is nothing yet.
pub proof fn law_handshake_completes(
    client: SessionModel,
    server: SessionModel,
    messages: Seq<Seq<u8>>,
    payloads: Seq<Seq<u8>>,
    after: Seq<SessionModel>,
)
    requires
        messages.len() == payloads.len() == after.len() == 3,
        client matches SessionModel::Handshake(c) && c.left == 3 && c.my_turn && c.initiator
            && c.transcript.len() == 0 && c.pattern == NOISE_PATTERN@,
        server matches SessionModel::Handshake(s) && s.left == 3 && !s.my_turn && !s.initiator
            && s.transcript.len() == 0 && s.pattern == NOISE_PATTERN@,
        trusts_owner(client->Handshake_0.pinned, server->Handshake_0.local),
        writes(client, payloads[0], messages[0], after[0]),
        writes(
            handshake_step(server->Handshake_0, false, messages[0]),
            payloads[1],
            messages[1],
            after[1],
        ),
        writes(
            handshake_step(after[0]->Handshake_0, false, messages[1]),
            payloads[2],
            messages[2],
            after[2],
        ),
    ensures
        accepted(server->Handshake_0, messages[0]) == Some(payloads[0]),
        accepted(after[0]->Handshake_0, messages[1]) == Some(payloads[1]),
        accepted(after[1]->Handshake_0, messages[2]) == Some(payloads[2]),
        after[2] matches SessionModel::Transport(c) && (handshake_step(
            after[1]->Handshake_0,
            false,
            messages[2],
        ) matches SessionModel::Transport(s) && s.receiving == c.sending && c.receiving == s.sending
            && s.received == c.sent == 0 && c.received == s.sent == 0),
{
    assert(client->Handshake_0.transcript =~= server->Handshake_0.transcript);
    law_handshake_message_is_read(client, server, payloads[0], messages[0], after[0]);
    let answering = handshake_step(server->Handshake_0, false, messages[0]);
    law_handshake_message_is_read(answering, after[0], payloads[1], messages[1], after[1]);
    let finishing = handshake_step(after[0]->Handshake_0, false, messages[1]);
    law_handshake_message_is_read(finishing, after[1], payloads[2], messages[2], after[2]);
}

/// What one side encrypts in chunks, the other side decrypts to the same bytes, if it receives
/// under the key that the first sends under and has taken in all that was sealed before.
pub proof fn law_decrypting_undoes_encrypting(
    sender: TransportModel,
    receiver: TransportModel,
    payload: Seq<u8>,
)
    requires
        receiver.receiving == sender.sending,
        receiver.received == sender.sent,
        sealing(sender, payload).0 is Some,
        faithful(sender, payload),
    ensures
        opening(SessionModel::Transport(receiver), sealed_chunks(sender, payload)) == (
            Some(payload),
            received_more(receiver, plain_chunks(payload).len()),
        ),
{
    let packets = sealed_chunks(sender, payload);
    let chunks = plain_chunks(payload);
    lemma_plain_chunks_make_up(payload);
    lemma_opening_follows(sender, receiver, payload, chunks.len() as int);
    assert(packets.take(chunks.len() as int) =~= packets);
    assert(chunks.take(chunks.len() as int) =~= chunks);
}

proof fn lemma_opening_follows(
    sender: TransportModel,
    receiver: TransportModel,
    payload: Seq<u8>,
    n: int,
)
    requires
        receiver.receiving == sender.sending,
        receiver.received == sender.sent,
        sealing(sender, payload).0 is Some,
        faithful(sender, payload),
        0 <= n <= plain_chunks(payload).len(),
        forall|i: int|
            0 <= i < plain_chunks(payload).len() ==> 0 < #[trigger] plain_chunks(payload)[i].len()
                <= MAX_CHUNK_PLAIN,
    ensures
        opening(SessionModel::Transport(receiver), sealed_chunks(sender, payload).take(n)) == (
            Some(frame::concatenated(plain_chunks(payload).take(n))),
            received_more(receiver, n as nat),
        ),
    decreases n,
{
    let packets = sealed_chunks(sender, payload);
    let chunks = plain_chunks(payload);
    if n == 0 {
        assert(frame::concatenated(chunks.take(0)) =~= Seq::empty());
    } else {
        lemma_opening_follows(sender, receiver, payload, n - 1);
        assert(packets.take(n).drop_last() =~= packets.take(n - 1));
        assert(chunks.take(n).drop_last() =~= chunks.take(n - 1));
        assert(packets[n - 1].len() == chunks[n - 1].len() + TAG_LEN);
        assert(chunks[n - 1].len() <= MAX_CHUNK_PLAIN);
    }
}

/// A client without a pinned key, or with one that is all zero, trusts every server; with any other
/// pinned key it trusts the servers that show this key, and no other.
pub proof fn law_only_the_pinned_key_is_trusted(key: Seq<u8>, shown: Seq<u8>)
    ensures
        trusts(None, shown),
        trusts(Some(key), shown) <==> key == shown || (forall|i: int|
            0 <= i < key.len() ==> #[trigger] key[i] == 0),
{
}

/// A plaintext is cut into as few messages as possible: each but the last takes as much as a message
/// can carry, and an empty one takes none.
pub proof fn law_chunks_are_as_long_as_possible(plain: Seq<u8>)
    ensures
        ({
            let chunks = plain_chunks(plain);
            &&& forall|i: int|
                0 <= i < chunks.len() - 1 ==> (#[trigger] chunks[i]).len() == 65519
            &&& chunks.len() > 0 ==> 0 < chunks.last().len() <= 65519
            &&& chunks.len() == 0 <==> plain.len() == 0
            &&& plain.len() > 0 ==> plain.len() == 65519 * (chunks.len() - 1) + chunks.last().len()
        }),
    decreases plain.len(),
{
    let chunks = plain_chunks(plain);
    if plain.len() > MAX_CHUNK_PLAIN {
        let rest = plain.skip(MAX_CHUNK_PLAIN as int);
        law_chunks_are_as_long_as_possible(rest);
        assert forall|i: int| 0 <= i < chunks.len() - 1 implies (#[trigger] chunks[i]).len()
            == 65519 by {
            if i > 0 {
                assert(chunks[i] == plain_chunks(rest)[i - 1]);
            }
        }
        assert(chunks.last() == plain_chunks(rest).last());
    }
}

/// A message that is not accepted fails the session for good: nothing is read or written any more.
/// One that is accepted moves the session on by exactly this message.
pub proof fn law_failed_session_stays_failed(
    s: SessionModel,
    packet: Seq<u8>,
    plain: Seq<u8>,
    after: SessionModel,
)
    ensures
        reading(s, packet).0 is None ==> reading(s, packet).1 is Failed,
        reading(SessionModel::Failed, packet).0 is None,
        !reads(SessionModel::Failed, packet, plain, after),
        !writes(SessionModel::Failed, plain, packet, after),
        s matches SessionModel::Transport(t) ==> (reading(s, packet).0 is Some ==> reading(
            s,
            packet,
        ).1 == SessionModel::Transport(TransportModel { received: t.received + 1, ..t })),
        s matches SessionModel::Handshake(h) ==> (h.left > 1 && reading(s, packet).0 is Some ==> (
        reading(s, packet).1 matches SessionModel::Handshake(a) && a.left == h.left - 1
            && a.transcript == h.transcript.push(packet) && a.my_turn)),
        s matches SessionModel::Handshake(h) ==> (h.left == 1 && reading(s, packet).0 is Some ==> (
        reading(s, packet).1 matches SessionModel::Transport(t) && t.sent == 0 && t.received == 0
            && t.transcript == h.transcript.push(packet))),
{
}

/// Messages are taken in one after the other: what two runs of them give, put together, is what all
/// of them give, and one that is not accepted makes the whole fail.
pub proof fn law_messages_are_opened_in_turn(
    s: SessionModel,
    a: Seq<Seq<u8>>,
    b: Seq<Seq<u8>>,
)
    ensures
        opening(s, a).0 is None ==> opening(s, a + b).0 is None,
        opening(s, a).0 is Some ==> opening(s, a + b).1 == opening(opening(s, a).1, b).1,
        opening(s, a).0 matches Some(head) ==> opening(s, a + b).0 == match opening(
            opening(s, a).1,
            b,
        ).0 {
            Some(tail) => Some(head + tail),
            None => None,
        },
        b.len() == 1 ==> opening(s, b).0 == reading(s, b[0]).0 && opening(s, b).1 == reading(
            s,
            b[0],
        ).1,
    decreases b.len(),
{
    let all = a + b;
    if b.len() == 0 {
        assert(all =~= a);
        if let Some(head) = opening(s, a).0 {
            assert(head + Seq::<u8>::empty() =~= head);
        }
    } else {
        law_messages_are_opened_in_turn(s, a, b.drop_last());
        assert(all.drop_last() =~= a + b.drop_last());
        assert(all.last() == b.last());
        if let (Some(head), now) = opening(s, a) {
            if let (Some(tail), then) = opening(now, b.drop_last()) {
                if let (Some(piece), _) = reading(then, b.last()) {
                    assert(head + tail + piece =~= head + (tail + piece));
                }
            }
        }
        if b.len() == 1 {
            assert(b.drop_last() =~= Seq::empty());
            reveal_with_fuel(opening, 2);
            if let Some(piece) = reading(s, b[0]).0 {
                assert(Seq::<u8>::empty() + piece =~= piece);
            }
        }
    }
}

/// A channel seals a plaintext as long as its message count allows, one message for each chunk and
/// numbered on from the last one; beyond that the session fails.
pub proof fn law_sealing_numbers_its_messages(t: TransportModel, plain: Seq<u8>)
    ensures
        ({
            let n = plain_chunks(plain).len();
            let (packets, after) = sealing(t, plain);
            &&& packets is Some <==> t.sent + n <= u64::MAX
            &&& packets is None ==> after is Failed
            &&& packets matches Some(p) ==> {
                &&& p.len() == n
                &&& after == SessionModel::Transport(TransportModel { sent: t.sent + n, ..t })
                &&& forall|i: int|
                    0 <= i < n ==> #[trigger] p[i] == noise::sealed(
                        t.sending,
                        (t.sent + i) as nat,
                        plain_chunks(plain)[i],
                    )
            }
        }),
{
}

/// A failure names what failed: the key exchange, decrypting or encrypting, or that the session had
/// failed before. A message that the engine takes and that is refused all the same shows another
/// key than the pinned one.
pub proof fn law_failures_name_what_failed(
    s: SessionModel,
    packet: Seq<u8>,
    room: nat,
    e: CryptoError,
)
    ensures
        read_error(s, packet, room, e) ==> match s {
            SessionModel::Failed => e is InvalidState,
            SessionModel::Handshake(_) => e is HandshakeFailed,
            SessionModel::Transport(_) => e is DecryptFailed,
        },
        write_error(s, e) ==> match s {
            SessionModel::Failed => e is InvalidState,
            SessionModel::Handshake(_) => e is HandshakeFailed,
            SessionModel::Transport(_) => e is EncryptFailed,
        },
        read_error(s, packet, room, e) ==> (s matches SessionModel::Handshake(h) ==> (noise::taken(
            h,
            packet,
        ) matches Some(p) ==> (p.len() <= room ==> e.detail_text()
            == "server key is not the pinned one"@))),
{
}

/// The detail of a failure is its text alone, without the kind of failure.
pub proof fn law_detail_is_the_text_alone(s: String)
    ensures
        CryptoError::PatternParse(s).detail_text() == s@,
        CryptoError::HandshakeFailed(s).detail_text() == s@,
        CryptoError::EncryptFailed(s).detail_text() == s@,
        CryptoError::DecryptFailed(s).detail_text() == s@,
        CryptoError::InvalidState.detail_text() == "NoiseSession: invalid state"@,
        CryptoError::InvalidKeyLength.detail_text() == "unexpected key length"@,
{
}

} // verus!
