//! The Noise XX handshake: three messages, after which each side knows the other's
//! static key and the two share the keys of a transport session.

use vstd::prelude::*;

use crate::crypto::noise;
use crate::error;
use crate::error::{Error, Result};
use crate::identity::keypair;
use crate::wire;

verus! {

/// The handshake phase of a Noise session.
#[verifier::external_type_specification]
#[verifier::external_body]
pub struct ExHandshakeState(snow::HandshakeState);

const NOISE_PARAMS: &'static str = "Noise_XX_25519_ChaChaPoly_BLAKE2s";

/// The number of messages in the XX pattern.
pub const MESSAGES: usize = 3;

#[derive(Debug, Clone, Copy)]
pub enum HandshakeRole {
    Initiator,
    Responder,
}

pub struct HandshakeResult {
    /// The peer's static X25519 key, which the handshake has verified.
    pub remote_pubkey: [u8; 32],
    /// The transport session. Its nonces are explicit, so that chunks can be encrypted
    /// and decrypted in any order.
    pub transport: snow::StatelessTransportState,
}

/// The handshake follows the XX pattern.
pub uninterp spec fn follows_xx(h: snow::HandshakeState) -> bool;

/// This side sends the first message of the handshake.
pub uninterp spec fn initiates(h: snow::HandshakeState) -> bool;

/// How many messages of the handshake have been written or read.
pub uninterp spec fn exchanged(h: snow::HandshakeState) -> nat;

/// The static secret key of this side.
pub uninterp spec fn local_static(h: snow::HandshakeState) -> Seq<u8>;

/// The static key that the peer has shown, if it has.
pub uninterp spec fn remote_static(h: snow::HandshakeState) -> Option<Seq<u8>>;

/// The transport session that a finished handshake turns into.
pub uninterp spec fn transport_of(h: snow::HandshakeState) -> snow::StatelessTransportState;

/// The messages of the handshake that have been written or accepted, in this order.
pub uninterp spec fn transcript(h: snow::HandshakeState) -> Seq<Seq<u8>>;

/// The handshake after it has read `message`, or the text of the error.
pub uninterp spec fn after_reading(
    h: snow::HandshakeState,
    message: Seq<u8>,
) -> std::result::Result<snow::HandshakeState, Seq<char>>;

/// `g` is the other side of the handshake `h`, and the two have exchanged the same
/// messages.
pub open spec fn partners(h: snow::HandshakeState, g: snow::HandshakeState) -> bool {
    &&& follows_xx(g)
    &&& initiates(g) != initiates(h)
    &&& transcript(g) == transcript(h)
}

/// `g` is the other side of the handshake `h`, and one message ahead of it.
pub open spec fn one_ahead(
    h: snow::HandshakeState,
    g: snow::HandshakeState,
    message: Seq<u8>,
) -> bool {
    &&& follows_xx(g)
    &&& initiates(g) != initiates(h)
    &&& transcript(g) == transcript(h).push(message)
}

/// `b` is `a` with one more message written or accepted.
pub open spec fn moved(
    a: snow::HandshakeState,
    b: snow::HandshakeState,
    message: Seq<u8>,
) -> bool {
    &&& same_handshake(a, b)
    &&& exchanged(b) == exchanged(a) + 1
    &&& transcript(b) == transcript(a).push(message)
}

/// `b` is `a` further on, or where it was: the same handshake of the same side.
pub open spec fn same_handshake(a: snow::HandshakeState, b: snow::HandshakeState) -> bool {
    &&& follows_xx(a) == follows_xx(b)
    &&& initiates(a) == initiates(b)
    &&& local_static(a) == local_static(b)
}

/// The next message is this side's to write.
pub open spec fn my_turn(h: snow::HandshakeState) -> bool {
    (exchanged(h) % 2 == 0) == initiates(h)
}

/// `snow::Builder::build_initiator` with a static key. Under the XX protocol it succeeds,
/// and no message has been exchanged yet.
#[verifier::external_body]
fn build_initiator(protocol: &str, key: &[u8; 32]) -> (r: std::result::Result<
    snow::HandshakeState,
    String,
>)
    requires
        protocol@ == "Noise_XX_25519_ChaChaPoly_BLAKE2s"@,
    ensures
        r is Ok,
        follows_xx(r->Ok_0),
        initiates(r->Ok_0),
        exchanged(r->Ok_0) == 0,
        transcript(r->Ok_0) == Seq::<Seq<u8>>::empty(),
        local_static(r->Ok_0) == key@,
{
    let params = protocol.parse::<snow::params::NoiseParams>().map_err(|e| e.to_string())?;
    snow::Builder::new(params).local_private_key(key).build_initiator().map_err(|e| e.to_string())
}

/// `snow::Builder::build_responder` with a static key. Under the XX protocol it succeeds,
/// and no message has been exchanged yet.
#[verifier::external_body]
fn build_responder(protocol: &str, key: &[u8; 32]) -> (r: std::result::Result<
    snow::HandshakeState,
    String,
>)
    requires
        protocol@ == "Noise_XX_25519_ChaChaPoly_BLAKE2s"@,
    ensures
        r is Ok,
        follows_xx(r->Ok_0),
        !initiates(r->Ok_0),
        exchanged(r->Ok_0) == 0,
        transcript(r->Ok_0) == Seq::<Seq<u8>>::empty(),
        local_static(r->Ok_0) == key@,
{
    let params = protocol.parse::<snow::params::NoiseParams>().map_err(|e| e.to_string())?;
    snow::Builder::new(params).local_private_key(key).build_responder().map_err(|e| e.to_string())
}

/// `snow::HandshakeState::is_handshake_finished`: all messages have been exchanged.
#[verifier::external_body]
fn is_handshake_finished(h: &snow::HandshakeState) -> (r: bool)
    requires
        follows_xx(*h),
    ensures
        r == (exchanged(*h) == MESSAGES),
{
    h.is_handshake_finished()
}

/// `snow::HandshakeState::is_my_turn`: the two sides take turns, the initiator first.
#[verifier::external_body]
fn is_my_turn(h: &snow::HandshakeState) -> (r: bool)
    requires
        follows_xx(*h),
    ensures
        r == my_turn(*h),
{
    h.is_my_turn()
}

/// `snow::HandshakeState::write_message` without a payload, into a buffer that holds the
/// longest message. It succeeds on this side's turn, and only then, and adds what it
/// wrote to the messages exchanged; after an error these are as before. The message holds
/// fresh random keys, so nothing else is stated of its bytes.
#[verifier::external_body]
fn write_handshake(h: &mut snow::HandshakeState) -> (r: std::result::Result<Vec<u8>, String>)
    requires
        follows_xx(*old(h)),
    ensures
        same_handshake(*old(h), *final(h)),
        my_turn(*old(h)) && exchanged(*old(h)) < MESSAGES ==> r is Ok && r->Ok_0@.len() <= 65535
            && moved(*old(h), *final(h), r->Ok_0@),
        !my_turn(*old(h)) ==> r is Err && r->Err_0@ == "state error: NotTurnToWrite"@,
        my_turn(*old(h)) && exchanged(*old(h)) == MESSAGES ==> r is Err && r->Err_0@
            == "state error: HandshakeAlreadyFinished"@,
        r is Err ==> exchanged(*final(h)) == exchanged(*old(h)) && transcript(*final(h))
            == transcript(*old(h)),
{
    let mut message = vec![0u8; 65535];
    let len = h.write_message(&[], &mut message).map_err(|e| e.to_string())?;
    message.truncate(len);
    Ok(message)
}

/// `snow::HandshakeState::read_message`, its payload thrown away. What becomes of a
/// message depends on the state and the message alone. It can be accepted only on the
/// peer's turn, and is then one more message exchanged. On the peer's turn, the message
/// that the peer has written behind the same messages is accepted. A message that is too
/// long, or that comes out of turn or too late, changes nothing. After any other error the
/// count of messages is as before, but the cipher may have moved on, so that the true
/// message need not be accepted any more: nothing is stated of the messages themselves.
#[verifier::external_body]
fn read_handshake(h: &mut snow::HandshakeState, message: &[u8]) -> (r: std::result::Result<
    (),
    String,
>)
    requires
        follows_xx(*old(h)),
    ensures
        same_handshake(*old(h), *final(h)),
        message@.len() > 65535 ==> r is Err && r->Err_0@ == "input error"@,
        message@.len() <= 65535 && my_turn(*old(h)) ==> r is Err && r->Err_0@
            == "state error: NotTurnToRead"@,
        message@.len() <= 65535 && !my_turn(*old(h)) && exchanged(*old(h)) == MESSAGES ==> r is Err
            && r->Err_0@ == "state error: HandshakeAlreadyFinished"@,
        match after_reading(*old(h), message@) {
            Ok(next) => r is Ok && *final(h) == next,
            Err(e) => r is Err && r->Err_0@ == e,
        },
        r is Ok ==> exchanged(*old(h)) < MESSAGES && moved(*old(h), *final(h), message@),
        r is Err ==> exchanged(*final(h)) == exchanged(*old(h)),
        message@.len() > 65535 || my_turn(*old(h)) || exchanged(*old(h)) == MESSAGES ==> *final(h)
            == *old(h),
        !my_turn(*old(h)) ==> forall|g: snow::HandshakeState| #[trigger]
            one_ahead(*old(h), g, message@) ==> r is Ok,
{
    let mut payload = vec![0u8; 65535];
    h.read_message(message, &mut payload).map(|_| ()).map_err(|e| e.to_string())
}

/// `snow::HandshakeState::get_remote_static`: once the handshake is finished the key is
/// there, and an X25519 key has 32 bytes. It is the public key of a peer that has
/// exchanged the same messages.
#[verifier::external_body]
fn get_remote_static(h: &snow::HandshakeState) -> (r: Option<Vec<u8>>)
    requires
        follows_xx(*h),
    ensures
        r is Some <==> remote_static(*h) is Some,
        r is Some ==> r->0@ == remote_static(*h)->0 && r->0@.len() == 32,
        exchanged(*h) == MESSAGES ==> r is Some,
        r is Some && exchanged(*h) == MESSAGES ==> forall|g: snow::HandshakeState| #[trigger]
            partners(*h, g) ==> r->0@ == keypair::x25519_public(local_static(g)),
{
    h.get_remote_static().map(|key| key.to_vec())
}

/// `snow::HandshakeState::into_stateless_transport_mode`: it succeeds once the handshake
/// is finished, and only then. In a session that came from XX both sides may send, and
/// what one seals the other opens if they have exchanged the same messages.
#[verifier::external_body]
fn into_transport(h: snow::HandshakeState) -> (r: std::result::Result<
    snow::StatelessTransportState,
    String,
>)
    requires
        follows_xx(h),
    ensures
        exchanged(h) == MESSAGES ==> r is Ok && r->Ok_0 == transport_of(h) && noise::two_way(
            r->Ok_0,
        ),
        exchanged(h) != MESSAGES ==> r is Err && r->Err_0@ == "state error: HandshakeNotFinished"@,
        r is Ok ==> forall|g: snow::HandshakeState| #[trigger]
            partners(h, g) ==> noise::linked(r->Ok_0, transport_of(g)) && noise::linked(
                transport_of(g),
                r->Ok_0,
            ),
{
    h.into_stateless_transport_mode().map_err(|e| e.to_string())
}

/// A handshake under way.
pub struct Handshake {
    pub state: snow::HandshakeState,
}

/// What to do next in a handshake.
pub enum HandshakeStep {
    /// Send these bytes: a message behind its two-byte length.
    Send(Vec<u8>),
    /// Wait for the peer's message.
    Receive,
    /// Nothing: the handshake is finished.
    Done,
}

/// A handshake message on the wire: `[2-byte length][message]`.
pub open spec fn handshake_frame(message: Seq<u8>) -> Seq<u8> {
    wire::be16(message.len() as u16) + message
}

/// The length in front of a handshake message tells its length.
pub proof fn handshake_frame_len(message: Seq<u8>)
    requires
        message.len() <= u16::MAX,
    ensures
        wire::from_be16(handshake_frame(message)) == message.len(),
        handshake_frame(message).subrange(2, handshake_frame(message).len() as int) == message,
{
    wire::be16_round_trip(message.len() as u16, message);
    assert(handshake_frame(message).subrange(2, handshake_frame(message).len() as int)
        =~= message);
}

/// While a handshake is under way exactly one of the two sides has the word, as long as
/// they have exchanged equally many messages.
pub proof fn one_side_has_the_word(a: snow::HandshakeState, b: snow::HandshakeState)
    requires
        initiates(a) != initiates(b),
        exchanged(a) == exchanged(b),
    ensures
        my_turn(a) != my_turn(b),
{
}

/// The initiator has the first word, and the word passes with every message.
pub proof fn word_passes_with_every_message(
    a: snow::HandshakeState,
    b: snow::HandshakeState,
    message: Seq<u8>,
)
    ensures
        exchanged(a) == 0 ==> (my_turn(a) <==> initiates(a)),
        moved(a, b, message) ==> my_turn(b) != my_turn(a),
{
}

/// `result` is what the finished handshake `h` comes to: the key of any peer that has
/// exchanged the same messages, and a transport session that is linked to that peer's.
pub open spec fn concludes(h: snow::HandshakeState, result: HandshakeResult) -> bool {
    &&& result.transport == transport_of(h)
    &&& forall|g: snow::HandshakeState| #[trigger]
        partners(h, g) ==> {
            &&& result.remote_pubkey@ == keypair::x25519_public(local_static(g))
            &&& noise::linked(result.transport, transport_of(g))
            &&& noise::linked(transport_of(g), result.transport)
        }
}

/// The message that one side has written is owed acceptance by its partner, as long as
/// it reaches the partner unaltered.
pub proof fn unaltered_message_is_one_ahead(
    a: snow::HandshakeState,
    next: snow::HandshakeState,
    b: snow::HandshakeState,
    message: Seq<u8>,
)
    requires
        follows_xx(a),
        partners(a, b),
        moved(a, next, message),
    ensures
        one_ahead(b, next, message),
        my_turn(a) && exchanged(a) == exchanged(b) ==> !my_turn(b),
{
}

/// A message that one side has written and the other accepted leaves them partners.
pub proof fn unaltered_message_keeps_partners(
    a: snow::HandshakeState,
    next_a: snow::HandshakeState,
    b: snow::HandshakeState,
    next_b: snow::HandshakeState,
    message: Seq<u8>,
)
    requires
        partners(a, b),
        moved(a, next_a, message),
        moved(b, next_b, message),
    ensures
        partners(next_a, next_b),
{
}

/// After a handshake that nobody has altered each side holds the other's public key, and
/// what one seals the other opens.
///
/// Side `a` goes from `a[0]` to `a[3]`, side `b` from `b[0]` to `b[3]`, by the messages
/// `m[0]`, `m[1]` and `m[2]`.
pub proof fn unaltered_handshake_agrees(
    a: Seq<snow::HandshakeState>,
    b: Seq<snow::HandshakeState>,
    m: Seq<Seq<u8>>,
    result_a: HandshakeResult,
    result_b: HandshakeResult,
)
    requires
        a.len() == MESSAGES + 1,
        b.len() == MESSAGES + 1,
        m.len() == MESSAGES,
        follows_xx(a[0]),
        follows_xx(b[0]),
        initiates(a[0]) != initiates(b[0]),
        transcript(a[0]) == Seq::<Seq<u8>>::empty(),
        transcript(b[0]) == Seq::<Seq<u8>>::empty(),
        forall|i: int|
            0 <= i < MESSAGES ==> moved(a[i], a[i + 1], #[trigger] m[i]) && moved(
                b[i],
                b[i + 1],
                m[i],
            ),
        concludes(a[3], result_a),
        concludes(b[3], result_b),
    ensures
        result_a.remote_pubkey@ == keypair::x25519_public(local_static(b[0])),
        result_b.remote_pubkey@ == keypair::x25519_public(local_static(a[0])),
        noise::linked(result_a.transport, result_b.transport),
        noise::linked(result_b.transport, result_a.transport),
{
    unaltered_message_keeps_partners(a[0], a[1], b[0], b[1], m[0]);
    unaltered_message_keeps_partners(a[1], a[2], b[1], b[2], m[1]);
    unaltered_message_keeps_partners(a[2], a[3], b[2], b[3], m[2]);
    assert(partners(a[3], b[3]));
    assert(partners(b[3], a[3]));
}

/// Frames a handshake message.
fn frame_handshake(message: &[u8]) -> (frame: Vec<u8>)
    requires
        message@.len() <= u16::MAX,
    ensures
        frame@ == handshake_frame(message@),
{
    let mut frame: Vec<u8> = Vec::new();
    wire::put16(&mut frame, message.len() as u16);
    wire::put_bytes(&mut frame, message);
    assert(frame@ =~= handshake_frame(message@));
    frame
}

/// The length that the two bytes in front of a handshake message give.
pub fn handshake_len(header: &[u8; 2]) -> (len: usize)
    ensures
        len == wire::from_be16(header@),
{
    let bytes: &[u8] = header.as_slice();
    assert(bytes@.subrange(0, bytes@.len() as int) =~= header@);
    wire::get16(bytes, 0) as usize
}

impl Handshake {
    pub open spec fn valid(&self) -> bool {
        follows_xx(self.state) && exchanged(self.state) <= MESSAGES
    }

    /// Begins a handshake with this side's secret key.
    pub fn begin(local_static_key: &[u8; 32], role: HandshakeRole) -> (r: Result<Handshake>)
        ensures
            r is Ok,
            r->Ok_0.valid(),
            exchanged(r->Ok_0.state) == 0,
            transcript(r->Ok_0.state) == Seq::<Seq<u8>>::empty(),
            initiates(r->Ok_0.state) == (role is Initiator),
            local_static(r->Ok_0.state) == local_static_key@,
    {
        let built = match role {
            HandshakeRole::Initiator => build_initiator(NOISE_PARAMS, local_static_key),
            HandshakeRole::Responder => build_responder(NOISE_PARAMS, local_static_key),
        };
        match built {
            Ok(state) => Ok(Handshake { state }),
            Err(e) => Err(Error::Noise(e)),
        }
    }

    /// Does what is next on this side: writes a message on its turn and frames it, waits on
    /// the peer's, and stops when all messages have been exchanged.
    pub fn step(&mut self) -> (r: Result<HandshakeStep>)
        requires
            old(self).valid(),
        ensures
            r is Ok,
            final(self).valid(),
            same_handshake(old(self).state, final(self).state),
            if exchanged(old(self).state) == MESSAGES {
                r->Ok_0 is Done && final(self).state == old(self).state
            } else if !my_turn(old(self).state) {
                r->Ok_0 is Receive && final(self).state == old(self).state
            } else {
                let message = transcript(final(self).state).last();
                &&& r->Ok_0 is Send
                &&& moved(old(self).state, final(self).state, message)
                &&& message.len() <= 65535
                &&& r->Ok_0->Send_0@ == handshake_frame(message)
            },
    {
        if is_handshake_finished(&self.state) {
            return Ok(HandshakeStep::Done);
        }
        if !is_my_turn(&self.state) {
            return Ok(HandshakeStep::Receive);
        }
        match write_handshake(&mut self.state) {
            Ok(message) => Ok(HandshakeStep::Send(frame_handshake(message.as_slice()))),
            Err(e) => Err(Error::Noise(e)),
        }
    }

    /// Takes in the peer's message. On the peer's turn, what the peer has written is
    /// accepted if it arrives unaltered.
    ///
    /// A message that is too long, or that comes out of turn or too late, is an error and
    /// changes nothing. One that the handshake does not accept is an error too, and is not
    /// counted as exchanged; but the handshake may be spoilt by it, so that the true message
    /// need not be accepted after it.
    pub fn receive(&mut self, message: &[u8]) -> (r: Result<()>)
        requires
            old(self).valid(),
        ensures
            final(self).valid(),
            same_handshake(old(self).state, final(self).state),
            message@.len() > 65535 ==> error::noise_failed_with(r, "input error"@),
            message@.len() <= 65535 && my_turn(old(self).state) ==> error::noise_failed_with(
                r,
                "state error: NotTurnToRead"@,
            ),
            message@.len() <= 65535 && !my_turn(old(self).state) && exchanged(old(self).state)
                == MESSAGES ==> error::noise_failed_with(
                r,
                "state error: HandshakeAlreadyFinished"@,
            ),
            match after_reading(old(self).state, message@) {
                Ok(next) => r is Ok && final(self).state == next,
                Err(e) => error::noise_failed_with(r, e),
            },
            r is Ok ==> moved(old(self).state, final(self).state, message@),
            r is Err ==> exchanged(final(self).state) == exchanged(old(self).state),
            message@.len() > 65535 || my_turn(old(self).state) || exchanged(old(self).state)
                == MESSAGES ==> final(self).state == old(self).state,
            !my_turn(old(self).state) ==> forall|g: snow::HandshakeState| #[trigger]
                one_ahead(old(self).state, g, message@) ==> r is Ok,
    {
        match read_handshake(&mut self.state, message) {
            Ok(()) => Ok(()),
            Err(e) => Err(Error::Noise(e)),
        }
    }

    /// Ends the handshake. A finished one gives the peer's key and the transport session,
    /// any other an error.
    pub fn finish(self) -> (r: Result<HandshakeResult>)
        requires
            self.valid(),
        ensures
            exchanged(self.state) == MESSAGES ==> {
                &&& r is Ok
                &&& remote_static(self.state) == Some(r->Ok_0.remote_pubkey@)
                &&& concludes(self.state, r->Ok_0)
                &&& noise::two_way(r->Ok_0.transport)
            },
            exchanged(self.state) != MESSAGES ==> error::noise_failed_with(
                r,
                if remote_static(self.state) is Some {
                    "state error: HandshakeNotFinished"@
                } else {
                    "remote static key unavailable post-handshake"@
                },
            ),
    {
        let remote = match get_remote_static(&self.state) {
            Some(key) => key,
            None => {
                return Err(
                    Error::Noise("remote static key unavailable post-handshake".to_string()),
                );
            },
        };
        let remote_pubkey = match wire::array32(remote.as_slice()) {
            Some(key) => key,
            None => {
                return Err(Error::Noise("remote static key is not 32 bytes".to_string()));
            },
        };
        match into_transport(self.state) {
            Ok(transport) => Ok(HandshakeResult { remote_pubkey, transport }),
            Err(e) => Err(Error::Noise(e)),
        }
    }
}

} // verus!
