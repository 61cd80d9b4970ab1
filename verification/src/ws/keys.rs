//! The key exchange on a WS connection, message by message.
use vstd::prelude::*;
use vstd::slice::*;

use crate::crypto;
use crate::crypto::{NoiseSession, SessionModel};
use crate::error::{CryptoError, TransportError};
use crate::noise;
use crate::noise::{KEY_LEN, MAX_NOISE_MESSAGE, MAX_PINNED_KEY_LEN};

verus! {

/// The room for a handshake message.
pub const HANDSHAKE_BUFFER: usize = 65535;

/// What a handshake message and the session after it are, or a failure.
#[verifier::ext_equal]
pub enum KeyModel {
    /// The key exchange failed.
    Failed,
    /// The message to send, and the session after it.
    Done { session: SessionModel, packet: Seq<u8> },
}

/// A key exchange that has begun: one message is written, the other side's is awaited. The message
/// carries no payload.
pub open spec fn keys_begun(s: SessionModel, pinned: Option<Seq<u8>>, packet: Seq<u8>) -> bool {
    s.wf() && (s matches SessionModel::Handshake(h) && h.left == 2 && !h.my_turn
        && h.pinned == pinned && h.initiator && h.transcript == seq![packet]
        && noise::carried(h.transcript) == Some(Seq::<u8>::empty()))
}

/// A key exchange that is done: an encrypted channel that has carried nothing yet.
pub open spec fn keys_done(s: SessionModel) -> bool {
    s.wf() && (s matches SessionModel::Transport(t) && t.sent == 0 && t.received
        == 0)
}

/// The channel that the last messages of a key exchange lead to.
pub open spec fn keys_from(s: SessionModel, last: Seq<Seq<u8>>) -> SessionModel {
    SessionModel::Transport(
        crypto::channel(
            s->Handshake_0.pattern,
            s->Handshake_0.initiator,
            s->Handshake_0.transcript + last,
        ),
    )
}

/// What beginning a key exchange can give: it fails where the system gives no random bytes.
pub open spec fn may_begin(pinned: Option<Seq<u8>>, k: KeyModel) -> bool {
    k matches KeyModel::Done { session, packet } ==> keys_begun(session, pinned, packet)
        && packet.len() == 32
}

/// Whether a session in a key exchange accepts a message: the engine does, and the message does
/// not show another key than the pinned one.
pub open spec fn accepts(s: SessionModel, message: Seq<u8>) -> bool {
    s matches SessionModel::Handshake(h) && crypto::accepted(h, message) is Some
}

/// What finishing a key exchange can give: it succeeds exactly on an answer that the session
/// accepts. The last message carries no payload.
pub open spec fn may_finish(s: SessionModel, reply: Seq<u8>, k: KeyModel) -> bool {
    match k {
        KeyModel::Done { session, packet } => {
            &&& accepts(s, reply)
            &&& keys_done(session)
            &&& session == keys_from(s, seq![reply, packet])
            &&& packet.len() == 64
            &&& noise::carried(session->Transport_0.transcript) == Some(Seq::<u8>::empty())
        },
        KeyModel::Failed => !accepts(s, reply),
    }
}

/// The error of a key exchange that could not begin: no key pair, or no first message.
pub open spec fn begin_error(e: TransportError) -> bool {
    e matches TransportError::NoiseHandshakeFailed(text) && {
        ||| exists|cause: snow::Error| text@ == #[trigger] noise::failure_display(cause)
        ||| exists|cause: snow::Error|
            text@ == "Noise handshake write: "@ + #[trigger] noise::failure_debug(cause)
    }
}

/// Begins the key exchange: builds the initiator's session and writes its first message.
pub fn begin_keys(pinned: &Option<Vec<u8>>) -> (r: Result<(NoiseSession, Vec<u8>), TransportError>)
    requires
        pinned matches Some(key) ==> key@.len() <= MAX_PINNED_KEY_LEN,
    ensures
        r matches Ok((session, packet)) ==> {
            &&& keys_begun(
                session@,
                match *pinned {
                    Some(key) => Some(key@),
                    None => None,
                },
                packet@,
            )
            &&& packet@.len() == 32
        },
        r matches Err(e) ==> begin_error(e),
{
    let created = match pinned {
        Some(key) => NoiseSession::client(Some(key.as_slice())),
        None => NoiseSession::client(None),
    };
    let mut session = match created {
        Err(e) => {
            return Err(TransportError::NoiseHandshakeFailed(e.detail()));
        },
        Ok(session) => session,
    };
    let mut buffer: Vec<u8> = vec![0u8; HANDSHAKE_BUFFER];
    let nothing: Vec<u8> = Vec::new();
    match session.write_message(nothing.as_slice(), buffer.as_mut_slice()) {
        Err(e) => Err(TransportError::NoiseHandshakeFailed(e.detail())),
        Ok(len) => {
            let packet = slice_to_vec(slice_subrange(buffer.as_slice(), 0, len));
            assert(packet@ =~= buffer@.take(len as int));
            assert(session@->Handshake_0.transcript =~= seq![packet@]);
            Ok((session, packet))
        },
    }
}

/// Finishes the key exchange: takes in the responder's message and writes the last one.
pub fn finish_keys(mut session: NoiseSession, reply: &[u8]) -> (r: Result<
    (NoiseSession, Vec<u8>),
    TransportError,
>)
    requires
        session@.wf(),
        session@ matches SessionModel::Handshake(h) && h.left == 2 && !h.my_turn,
    ensures
        match r {
            Ok((done, packet)) => may_finish(
                session@,
                reply@,
                KeyModel::Done { session: done@, packet: packet@ },
            ),
            Err(_) => may_finish(session@, reply@, KeyModel::Failed),
        },
        r matches Err(e) ==> e matches TransportError::NoiseHandshakeFailed(text) && exists|
            cause: CryptoError,
        | #[trigger]
            crypto::read_error(session@, reply@, HANDSHAKE_BUFFER as nat, cause) && text@
                == cause.detail_text(),
{
    let ghost before = session@;
    let mut buffer: Vec<u8> = vec![0u8; HANDSHAKE_BUFFER];
    match session.read_message(reply, buffer.as_mut_slice()) {
        Err(e) => {
            return Err(TransportError::NoiseHandshakeFailed(e.detail()));
        },
        Ok(_) => {},
    }
    let nothing: Vec<u8> = Vec::new();
    match session.write_message(nothing.as_slice(), buffer.as_mut_slice()) {
        Err(e) => Err(TransportError::NoiseHandshakeFailed(e.detail())),
        Ok(len) => {
            let packet = slice_to_vec(slice_subrange(buffer.as_slice(), 0, len));
            assert(packet@ =~= buffer@.take(len as int));
            assert(before->Handshake_0.transcript.push(reply@).push(packet@)
                =~= before->Handshake_0.transcript + seq![reply@, packet@]);
            if !session.is_finished() {
                return Err(
                    TransportError::NoiseHandshakeFailed("Handshake not finished".to_owned()),
                );
            }
            Ok((session, packet))
        },
    }
}

/// What the key exchange gave.
pub open spec fn key_model(keys: Option<(NoiseSession, Vec<u8>)>) -> KeyModel {
    match keys {
        Some((session, packet)) => KeyModel::Done { session: session@, packet: packet@ },
        None => KeyModel::Failed,
    }
}

/// A key exchange that the server has answered: the client's last message is awaited.
pub open spec fn keys_answered(s: SessionModel) -> bool {
    s.wf() && (s matches SessionModel::Handshake(h) && h.left == 1 && !h.my_turn)
}

/// What answering a key exchange can give: it fails on a message that is no beginning, or where
/// the system gives no random bytes. The answer carries no payload, and shows the public key of the
/// server.
pub open spec fn may_answer(s: SessionModel, first: Seq<u8>, k: KeyModel) -> bool {
    k matches KeyModel::Done { session, packet } ==> {
        &&& keys_answered(session)
        &&& session->Handshake_0.local == s->Handshake_0.local
        &&& session->Handshake_0.initiator == s->Handshake_0.initiator
        &&& session->Handshake_0.transcript == s->Handshake_0.transcript + seq![first, packet]
        &&& packet.len() == 96
        &&& noise::carried(session->Handshake_0.transcript) == Some(Seq::<u8>::empty())
        &&& s->Handshake_0.local.len() == KEY_LEN ==> noise::shown_key(
            session->Handshake_0.transcript,
        ) == noise::public_key(s->Handshake_0.local)
        &&& 32 <= first.len() <= MAX_NOISE_MESSAGE
    }
}

/// The error of a key exchange that could not be answered: the answer could not be written, or
/// the message is no beginning.
pub open spec fn answer_error(s: SessionModel, first: Seq<u8>, e: TransportError) -> bool {
    e matches TransportError::NoiseHandshakeFailed(text) && if 32 <= first.len()
        <= MAX_NOISE_MESSAGE {
        exists|cause: CryptoError| #[trigger]
            crypto::write_error(s, cause) && text@ == cause.detail_text()
    } else {
        exists|cause: CryptoError| #[trigger]
            crypto::read_error(s, first, HANDSHAKE_BUFFER as nat, cause) && text@
                == cause.detail_text()
    }
}

/// Answers a key exchange: takes in the client's first message and writes the second.
pub fn answer_keys(mut session: NoiseSession, first: &[u8]) -> (r: Result<
    (NoiseSession, Vec<u8>),
    TransportError,
>)
    requires
        session@.wf(),
        session@ matches SessionModel::Handshake(h) && h.left == 3 && !h.my_turn,
    ensures
        r matches Ok((answered, packet)) ==> may_answer(
            session@,
            first@,
            KeyModel::Done { session: answered@, packet: packet@ },
        ),
        r matches Err(e) ==> answer_error(session@, first@, e),
{
    let ghost before = session@;
    let mut buffer: Vec<u8> = vec![0u8; HANDSHAKE_BUFFER];
    match session.read_message(first, buffer.as_mut_slice()) {
        Err(e) => {
            return Err(TransportError::NoiseHandshakeFailed(e.detail()));
        },
        Ok(_) => {},
    }
    let nothing: Vec<u8> = Vec::new();
    match session.write_message(nothing.as_slice(), buffer.as_mut_slice()) {
        Err(e) => {
            assert(crypto::write_error(before, e));
            Err(TransportError::NoiseHandshakeFailed(e.detail()))
        },
        Ok(len) => {
            let packet = slice_to_vec(slice_subrange(buffer.as_slice(), 0, len));
            assert(packet@ =~= buffer@.take(len as int));
            assert(before->Handshake_0.transcript.push(first@).push(packet@)
                =~= before->Handshake_0.transcript + seq![first@, packet@]);
            Ok((session, packet))
        },
    }
}

/// Concludes a key exchange: takes in the client's last message.
pub fn conclude_keys(mut session: NoiseSession, last: &[u8]) -> (r: Result<
    NoiseSession,
    TransportError,
>)
    requires
        keys_answered(session@),
    ensures
        r is Ok <==> accepts(session@, last@),
        r matches Ok(done) ==> keys_done(done@) && done@ == keys_from(session@, seq![last@]),
        r matches Err(e) ==> e matches TransportError::NoiseHandshakeFailed(text) && exists|
            cause: CryptoError,
        | #[trigger]
            crypto::read_error(session@, last@, HANDSHAKE_BUFFER as nat, cause) && text@
                == cause.detail_text(),
{
    let ghost before = session@;
    let mut buffer: Vec<u8> = vec![0u8; HANDSHAKE_BUFFER];
    match session.read_message(last, buffer.as_mut_slice()) {
        Err(e) => Err(TransportError::NoiseHandshakeFailed(e.detail())),
        Ok(_) => {
            if !session.is_finished() {
                return Err(
                    TransportError::NoiseHandshakeFailed("handshake not complete".to_owned()),
                );
            }
            assert(before->Handshake_0.transcript.push(last@)
                =~= before->Handshake_0.transcript + seq![last@]);
            Ok(session)
        },
    }
}

/// A key exchange that fails is told as such, whatever the cause; the client's part of it begins
/// with one message of 32 bytes under the pinned key that the client has, if any, and the server's
/// answer has 96 bytes and leaves the server waiting for the last message.
pub proof fn law_key_exchange_goes_by_the_book(
    s: SessionModel,
    pinned: Option<Seq<u8>>,
    message: Seq<u8>,
    k: KeyModel,
    e: TransportError,
)
    ensures
        begin_error(e) || answer_error(s, message, e) ==> e is NoiseHandshakeFailed,
        may_begin(pinned, k) ==> (k matches KeyModel::Done { session, packet } ==> packet.len()
            == 32 && (session matches SessionModel::Handshake(h) && h.initiator && !h.my_turn
            && h.left == 2 && h.pinned == pinned && h.transcript == seq![packet])),
        may_answer(s, message, k) ==> (k matches KeyModel::Done { session, packet } ==> packet.len()
            == 96 && (session matches SessionModel::Handshake(h) && !h.my_turn && h.left == 1
            && h.transcript == s->Handshake_0.transcript + seq![message, packet])),
        may_finish(s, message, k) ==> (k is Done <==> accepts(s, message)),
        may_finish(s, message, k) ==> (k matches KeyModel::Done { session, packet } ==> packet.len()
            == 64 && (session matches SessionModel::Transport(t) && t.sent == 0 && t.received == 0
            && t.transcript == s->Handshake_0.transcript + seq![message, packet])),
{
}

} // verus!
