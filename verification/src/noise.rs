//! The encrypted channel under the messages.
//!
//! The channel is a Noise channel of the pattern NK: the client has no key of its own, and knows
//! the host's public key beforehand, from pairing. A Noise message is at most 65535 bytes long, so
//! a payload is cut into chunks, each of which travels as one frame: four bytes of length and the
//! encrypted chunk. The length of the payload is the start of the first chunk.
use vstd::prelude::*;

use crate::bytes;
use crate::text;

verus! {

/// The longest Noise message.
pub const NOISE_MSG_MAX: usize = 65535;

/// The handshake pattern and the primitives: the client knows the host's key, and has none itself.
pub const NOISE_PATTERN: &'static str = "Noise_NK_25519_ChaChaPoly_BLAKE2s";

/// The longest plaintext chunk.
pub const CHUNK_MAX: usize = 60_000;

/// What failed on the channel.
#[derive(Debug, Clone, Copy, PartialEq, Eq, Structural)]
pub enum NoiseError {
    /// No key pair could be made.
    Keypair,
    /// The handshake could not be set up.
    Setup,
    /// The handshake message could not be made.
    HandshakeWrite,
    /// The handshake message was not accepted.
    HandshakeRead,
    /// The handshake is not finished.
    NotFinished,
    Encrypt,
    Decrypt,
    /// A frame announces a length that no Noise message has.
    FrameLength(u32),
    /// The stream ends inside the length of a frame.
    TruncatedLength,
    /// The stream ends inside a frame, behind its length.
    TruncatedFrame,
    /// The first chunk of a payload is too short to hold the length.
    ShortFirstChunk,
    /// The text of a key has an odd length.
    OddHex,
    /// The text of a key has a character that is no hexadecimal digit.
    HexDigit,
}

// ---- the Noise implementation ----

/// An established channel, as snow holds it.
#[verifier::external_type_specification]
#[verifier::external_body]
pub struct ExTransportState(snow::TransportState);

/// A handshake in progress, as snow holds it.
#[verifier::external_type_specification]
#[verifier::external_body]
pub struct ExHandshakeState(snow::HandshakeState);

/// The errors of snow.
#[verifier::external_type_specification]
#[verifier::external_body]
pub struct ExSnowError(snow::Error);

/// The key under which a channel encrypts what it sends.
pub uninterp spec fn sending_key(s: snow::TransportState) -> Seq<u8>;

/// The number of the next message that a channel sends: `TransportState::sending_nonce`.
pub uninterp spec fn sending_nonce(s: snow::TransportState) -> u64;

/// The key under which a channel decrypts what it receives.
pub uninterp spec fn receiving_key(s: snow::TransportState) -> Seq<u8>;

/// The number of the next message that a channel receives: `TransportState::receiving_nonce`.
pub uninterp spec fn receiving_nonce(s: snow::TransportState) -> u64;

/// What `TransportState::write_message` makes of a plaintext under a key and a message number.
pub uninterp spec fn sealed(key: Seq<u8>, nonce: u64, plain: Seq<u8>) -> Seq<u8>;

/// What `TransportState::read_message` makes of a ciphertext under a key and a message number:
/// nothing where it is not authentic.
pub uninterp spec fn opened(key: Seq<u8>, nonce: u64, cipher: Seq<u8>) -> Option<Seq<u8>>;

/// The messages of a handshake that have been written or read, in their order.
pub uninterp spec fn handshake_transcript(s: snow::HandshakeState) -> Seq<Seq<u8>>;

/// The public key of the responder, as this side knows it.
pub uninterp spec fn handshake_host(s: snow::HandshakeState) -> Seq<u8>;

/// Whether this side speaks first: `HandshakeState::is_initiator`.
pub uninterp spec fn handshake_initiator(s: snow::HandshakeState) -> bool;

/// The keys that a finished handshake leaves, that of the initiator's messages first.
pub uninterp spec fn handshake_keys(s: snow::HandshakeState) -> (Seq<u8>, Seq<u8>);

/// The public key that belongs to a private key, as `Builder::generate_keypair` derives it.
pub uninterp spec fn public_half(private_key: Seq<u8>) -> Seq<u8>;

/// The message that `HandshakeState::write_message` makes without a payload, in a handshake with the
/// holder of the public key `host` in which the messages `before` have passed, where the fresh
/// public key that it begins with is `fresh`.
pub uninterp spec fn handshake_message(host: Seq<u8>, before: Seq<Seq<u8>>, fresh: Seq<u8>) -> Seq<u8>;

/// The keys that `HandshakeState::into_transport_mode` hands on from a handshake with the holder of
/// the public key `host` that consists of these messages, that of the initiator's messages first.
pub uninterp spec fn agreed_keys(host: Seq<u8>, messages: Seq<Seq<u8>>) -> (Seq<u8>, Seq<u8>);

/// The two directions of a channel.
#[verifier::ext_equal]
pub struct Channel {
    pub send_key: Seq<u8>,
    pub send_nonce: u64,
    pub recv_key: Seq<u8>,
    pub recv_nonce: u64,
}

/// An established channel. It can only come from a handshake of this module, so its pattern lets
/// both sides send.
pub struct NoiseTransport {
    state: snow::TransportState,
}

impl View for NoiseTransport {
    type V = Channel;

    closed spec fn view(&self) -> Channel {
        Channel {
            send_key: sending_key(self.state),
            send_nonce: sending_nonce(self.state),
            recv_key: receiving_key(self.state),
            recv_nonce: receiving_nonce(self.state),
        }
    }
}

/// `TransportState::write_message` on a buffer of `room` bytes. It fails where the ciphertext,
/// sixteen bytes longer than the plaintext, would be longer than a Noise message or than the
/// buffer, and where the message numbers are used up; a failure changes nothing. Reading the
/// ciphertext under the same key and number gives the plaintext back.
#[verifier::external_body]
fn write_message(t: &mut NoiseTransport, plain: &[u8], room: usize) -> (res: Result<Vec<u8>, snow::Error>)
    ensures
        sending_key(final(t).state) == sending_key(old(t).state),
        receiving_key(final(t).state) == receiving_key(old(t).state),
        receiving_nonce(final(t).state) == receiving_nonce(old(t).state),
        match res {
            Ok(c) => {
                &&& plain@.len() + 16 <= 65535
                &&& plain@.len() + 16 <= room
                &&& sending_nonce(old(t).state) != u64::MAX
                &&& sending_nonce(final(t).state) == sending_nonce(old(t).state) + 1
                &&& c@ == sealed(sending_key(old(t).state), sending_nonce(old(t).state), plain@)
                &&& c@.len() == plain@.len() + 16
                &&& opened(sending_key(old(t).state), sending_nonce(old(t).state), c@) == Some(
                    plain@,
                )
            },
            Err(_) => {
                &&& plain@.len() + 16 > 65535 || plain@.len() + 16 > room || sending_nonce(
                    old(t).state,
                ) == u64::MAX
                &&& sending_nonce(final(t).state) == sending_nonce(old(t).state)
            },
        },
{
    let mut out = vec![0u8; room];
    let n = t.state.write_message(plain, &mut out)?;
    out.truncate(n);
    Ok(out)
}

/// `TransportState::read_message` on a buffer as long as the ciphertext. It fails where the
/// ciphertext is longer than a Noise message, shorter than the sixteen bytes of its tag or not
/// authentic, and where the message numbers are used up; a failure changes nothing of the channel.
#[verifier::external_body]
fn read_message(t: &mut NoiseTransport, cipher: &[u8]) -> (res: Result<Vec<u8>, snow::Error>)
    ensures
        sending_key(final(t).state) == sending_key(old(t).state),
        sending_nonce(final(t).state) == sending_nonce(old(t).state),
        receiving_key(final(t).state) == receiving_key(old(t).state),
        match res {
            Ok(p) => {
                &&& 16 <= cipher@.len() <= 65535
                &&& receiving_nonce(old(t).state) != u64::MAX
                &&& receiving_nonce(final(t).state) == receiving_nonce(old(t).state) + 1
                &&& opened(receiving_key(old(t).state), receiving_nonce(old(t).state), cipher@)
                    == Some(p@)
                &&& p@.len() == cipher@.len() - 16
            },
            Err(_) => {
                &&& receiving_nonce(final(t).state) == receiving_nonce(old(t).state)
                &&& 16 <= cipher@.len() <= 65535 && receiving_nonce(old(t).state) != u64::MAX
                    ==> opened(receiving_key(old(t).state), receiving_nonce(old(t).state), cipher@)
                    is None
            },
        },
{
    let mut out = vec![0u8; cipher.len()];
    let n = t.state.read_message(cipher, &mut out)?;
    out.truncate(n);
    Ok(out)
}

// ---- the handshake ----

/// A handshake of the pattern NK in progress.
pub struct Handshake {
    state: snow::HandshakeState,
}

/// What a handshake waits for.
#[derive(Debug, Clone, Copy, PartialEq, Eq, Structural)]
pub enum HandshakeStep {
    Send,
    Receive,
    Done,
}

/// Where a handshake stands: which side it is on, the public key of the responder, the messages that
/// have passed, and the keys it leaves when it is finished.
#[verifier::ext_equal]
pub struct HandshakeView {
    pub initiator: bool,
    pub host: Seq<u8>,
    pub transcript: Seq<Seq<u8>>,
    pub keys: (Seq<u8>, Seq<u8>),
}

impl View for Handshake {
    type V = HandshakeView;

    closed spec fn view(&self) -> HandshakeView {
        HandshakeView {
            initiator: handshake_initiator(self.state),
            host: handshake_host(self.state),
            transcript: handshake_transcript(self.state),
            keys: handshake_keys(self.state),
        }
    }
}

/// The pattern NK: the initiator writes, the responder writes, and both are done.
pub open spec fn handshake_step(h: HandshakeView) -> HandshakeStep {
    if h.transcript.len() == 2 {
        HandshakeStep::Done
    } else if h.initiator == (h.transcript.len() % 2 == 0) {
        HandshakeStep::Send
    } else {
        HandshakeStep::Receive
    }
}

/// A key as snow takes it: 32 bytes, what is missing filled up with zeros and what is too much left
/// out.
pub open spec fn key_of(given: Seq<u8>) -> Seq<u8> {
    Seq::new(
        32,
        |i: int|
            if i < given.len() {
                given[i]
            } else {
                0u8
            },
    )
}

/// Whether some bytes are the public key of a private key.
pub open spec fn is_public_key(k: Seq<u8>) -> bool {
    exists|p: Seq<u8>| p.len() == 32 && #[trigger] public_half(p) == k
}

/// Whether a message begins with a public key.
pub open spec fn carries_key(m: Seq<u8>) -> bool {
    m.len() >= 32 && is_public_key(m.take(32))
}

/// Whether the key of the responder, and those that the messages so far begin with, are public keys.
pub open spec fn genuine(h: HandshakeView) -> bool {
    &&& is_public_key(h.host)
    &&& forall|i: int| 0 <= i < h.transcript.len() ==> carries_key(#[trigger] h.transcript[i])
}

/// Whether a message is one that a side of a handshake makes where it stands here.
pub open spec fn spoken(h: HandshakeView, m: Seq<u8>) -> bool {
    &&& m.len() == 48
    &&& carries_key(m)
    &&& m == handshake_message(h.host, h.transcript, m.take(32))
}

/// A handshake after one more message, whatever it does to the keys.
pub open spec fn moved_on(h: HandshakeView, g: HandshakeView, m: Seq<u8>) -> bool {
    g.initiator == h.initiator && g.host == h.host && g.transcript == h.transcript.push(m)
}

/// A handshake that has not moved, whatever it does to the keys.
pub open spec fn stayed(h: HandshakeView, g: HandshakeView) -> bool {
    g.initiator == h.initiator && g.host == h.host && g.transcript == h.transcript
}

/// `Builder::generate_keypair`: a fresh key pair, private key first, both 32 bytes long, the public
/// key derived from the private key. It fails only where the machine has no randomness to give; the
/// private key is random, and nothing else is said of it.
#[verifier::external_body]
fn make_keypair(pattern: &str) -> (res: Result<(Vec<u8>, Vec<u8>), snow::Error>)
    requires
        pattern@ == NOISE_PATTERN@,
    ensures
        res matches Ok(pair) ==> pair.0@.len() == 32 && pair.1@.len() == 32 && pair.1@
            == public_half(pair.0@),
{
    let params: snow::params::NoiseParams = pattern.parse()?;
    let pair = snow::Builder::new(params).generate_keypair()?;
    Ok((pair.private, pair.public))
}

/// `Builder::build_initiator` with the responder's public key set. The key is copied into a buffer
/// of 56 bytes, the first 32 of which are used; a longer one would panic.
#[verifier::external_body]
fn build_initiator(pattern: &str, remote_public_key: &[u8]) -> (res: Result<
    Handshake,
    snow::Error,
>)
    requires
        pattern@ == NOISE_PATTERN@,
        remote_public_key@.len() <= 56,
    ensures
        res is Ok,
        res matches Ok(h) ==> handshake_initiator(h.state) && handshake_transcript(h.state).len()
            == 0 && handshake_host(h.state) == key_of(remote_public_key@),
{
    let params: snow::params::NoiseParams = pattern.parse()?;
    let state = snow::Builder::new(params).remote_public_key(remote_public_key)?.build_initiator()?;
    Ok(Handshake { state })
}

/// `Builder::build_responder` with this side's private key set, from which the public key is derived.
/// The key is copied into a buffer of 32 bytes; a longer one would panic.
#[verifier::external_body]
fn build_responder(pattern: &str, local_private_key: &[u8]) -> (res: Result<
    Handshake,
    snow::Error,
>)
    requires
        pattern@ == NOISE_PATTERN@,
        local_private_key@.len() <= 32,
    ensures
        res is Ok,
        res matches Ok(h) ==> !handshake_initiator(h.state) && handshake_transcript(h.state).len()
            == 0 && handshake_host(h.state) == public_half(key_of(local_private_key@)),
{
    let params: snow::params::NoiseParams = pattern.parse()?;
    let state = snow::Builder::new(params).local_private_key(local_private_key)?.build_responder()?;
    Ok(Handshake { state })
}

/// `HandshakeState::is_handshake_finished`: whether both messages of the pattern have passed.
#[verifier::external_body]
fn handshake_finished(h: &Handshake) -> (res: bool)
    ensures
        res == (handshake_transcript(h.state).len() == 2),
{
    h.state.is_handshake_finished()
}

/// `HandshakeState::is_my_turn`: the initiator writes the first message, and the sides take turns.
#[verifier::external_body]
fn handshake_my_turn(h: &Handshake) -> (res: bool)
    ensures
        res == (handshake_initiator(h.state) == (handshake_transcript(h.state).len() % 2 == 0)),
{
    h.state.is_my_turn()
}

/// `HandshakeState::write_message` without a payload, on a buffer of `room` bytes. A message is made
/// only by the side whose turn it is, and then the handshake has moved on by it; a failure leaves it
/// where it was. The message is a fresh public key, which is random, and a tag. Where all keys in
/// play are public keys, both sides come to the same shared secrets, so that the message is settled
/// by them and by what has passed, whichever side it is worked out on.
#[verifier::external_body]
fn write_handshake(h: &mut Handshake, room: usize) -> (res: Result<Vec<u8>, snow::Error>)
    ensures
        match res {
            Ok(m) => {
                &&& handshake_step(old(h)@) == HandshakeStep::Send
                &&& moved_on(old(h)@, final(h)@, m@)
                &&& m@.len() == 48
                &&& m@.len() <= room
                &&& carries_key(m@)
                &&& genuine(old(h)@) ==> m@ == handshake_message(
                    handshake_host(old(h).state),
                    handshake_transcript(old(h).state),
                    m@.take(32),
                )
            },
            Err(_) => stayed(old(h)@, final(h)@),
        },
{
    let mut out = vec![0u8; room];
    let n = h.state.write_message(&[], &mut out)?;
    out.truncate(n);
    Ok(out)
}

/// `HandshakeState::read_message` on a buffer as long as the message. A message is accepted only by
/// the side whose turn it is not, and then the handshake has moved on by it; a failure leaves it
/// where it was. What the other side makes at this point is accepted. Of a message that nobody made
/// so, whether it is accepted is not said.
#[verifier::external_body]
fn read_handshake(h: &mut Handshake, message: &[u8]) -> (res: Result<(), snow::Error>)
    ensures
        match res {
            Ok(_) => {
                &&& handshake_step(old(h)@) == HandshakeStep::Receive
                &&& moved_on(old(h)@, final(h)@, message@)
            },
            Err(_) => stayed(old(h)@, final(h)@),
        },
        handshake_step(old(h)@) == HandshakeStep::Receive && genuine(old(h)@) && spoken(
            old(h)@,
            message@,
        ) ==> res is Ok,
{
    let mut out = vec![0u8; message.len()];
    let _n = h.state.read_message(message, &mut out)?;
    Ok(())
}

/// `HandshakeState::into_transport_mode`: the channel of a finished handshake, with no message sent
/// or received yet. The initiator sends under the first key, the responder under the second. Where
/// all keys in play are public keys, both sides have come to the same shared secrets, so that the
/// keys are settled by them, whichever side they are worked out on.
#[verifier::external_body]
fn into_transport(h: Handshake) -> (res: Result<NoiseTransport, snow::Error>)
    ensures
        match res {
            Ok(t) => {
                &&& handshake_transcript(h.state).len() == 2
                &&& sending_nonce(t.state) == 0
                &&& receiving_nonce(t.state) == 0
                &&& handshake_initiator(h.state) ==> handshake_keys(h.state) == (
                    sending_key(t.state),
                    receiving_key(t.state),
                )
                &&& !handshake_initiator(h.state) ==> handshake_keys(h.state) == (
                    receiving_key(t.state),
                    sending_key(t.state),
                )
                &&& genuine(h@) ==> handshake_keys(h.state) == agreed_keys(
                    handshake_host(h.state),
                    handshake_transcript(h.state),
                )
            },
            Err(_) => handshake_transcript(h.state).len() != 2,
        },
{
    Ok(NoiseTransport { state: h.state.into_transport_mode()? })
}

/// The channel that a finished handshake opens.
pub open spec fn channel_of(h: HandshakeView) -> Channel {
    Channel {
        send_key: if h.initiator {
            h.keys.0
        } else {
            h.keys.1
        },
        send_nonce: 0,
        recv_key: if h.initiator {
            h.keys.1
        } else {
            h.keys.0
        },
        recv_nonce: 0,
    }
}

/// Whether the keys of a handshake are those that its messages settle.
pub open spec fn settled(h: HandshakeView) -> bool {
    genuine(h) ==> h.keys == agreed_keys(h.host, h.transcript)
}

impl Handshake {
    /// What is to be done next.
    pub fn step(&self) -> (res: HandshakeStep)
        ensures
            res == handshake_step(self@),
    {
        if handshake_finished(self) {
            HandshakeStep::Done
        } else if handshake_my_turn(self) {
            HandshakeStep::Send
        } else {
            HandshakeStep::Receive
        }
    }

    /// The next message of this side, as a frame. It can fail only where it is not this side's turn
    /// or the machine has no randomness to give, and then the handshake stays where it was.
    pub fn send(&mut self) -> (res: Result<Vec<u8>, NoiseError>)
        ensures
            match res {
                Ok(f) => {
                    &&& handshake_step(old(self)@) == HandshakeStep::Send
                    &&& f@ == framed(f@.skip(4))
                    &&& moved_on(old(self)@, final(self)@, f@.skip(4))
                    &&& f@.skip(4).len() == 48
                    &&& carries_key(f@.skip(4))
                    &&& genuine(old(self)@) ==> spoken(old(self)@, f@.skip(4))
                },
                Err(e) => stayed(old(self)@, final(self)@) && e == NoiseError::HandshakeWrite,
            },
    {
        match write_handshake(self, NOISE_MSG_MAX) {
            Err(_) => Err(NoiseError::HandshakeWrite),
            Ok(m) => {
                let f = frame(&m);
                proof {
                    bytes::lemma_be_len(48, 4);
                    assert(f@.skip(4) =~= m@);
                }
                Ok(f)
            },
        }
    }

    /// Takes a message of the other side, without its frame. What the other side makes at this point
    /// is accepted.
    pub fn receive(&mut self, message: &[u8]) -> (res: Result<(), NoiseError>)
        ensures
            match res {
                Ok(_) => {
                    &&& handshake_step(old(self)@) == HandshakeStep::Receive
                    &&& moved_on(old(self)@, final(self)@, message@)
                },
                Err(e) => stayed(old(self)@, final(self)@) && e == NoiseError::HandshakeRead,
            },
            handshake_step(old(self)@) == HandshakeStep::Receive && genuine(old(self)@) && spoken(
                old(self)@,
                message@,
            ) ==> res is Ok,
    {
        match read_handshake(self, message) {
            Err(_) => Err(NoiseError::HandshakeRead),
            Ok(_) => Ok(()),
        }
    }

    /// The channel of a finished handshake.
    pub fn finish(self) -> (res: Result<NoiseTransport, NoiseError>)
        ensures
            match res {
                Ok(t) => {
                    &&& handshake_step(self@) == HandshakeStep::Done
                    &&& t@ == channel_of(self@)
                    &&& settled(self@)
                },
                Err(e) => handshake_step(self@) != HandshakeStep::Done && e
                    == NoiseError::NotFinished,
            },
    {
        match into_transport(self) {
            Err(_) => Err(NoiseError::NotFinished),
            Ok(t) => Ok(t),
        }
    }
}

// ---- frames ----

/// A frame: four bytes of length and the bytes.
pub open spec fn framed(c: Seq<u8>) -> Seq<u8> {
    bytes::be(c.len(), 4) + c
}

fn frame(c: &Vec<u8>) -> (res: Vec<u8>)
    ensures
        res@ == framed(c@),
{
    let mut out: Vec<u8> = Vec::new();
    bytes::push_be(&mut out, c.len() as u64, 4);
    out.extend_from_slice(c.as_slice());
    assert(out@ =~= framed(c@));
    out
}

/// Whether a frame can announce this length.
pub open spec fn frame_length_ok(n: nat) -> bool {
    0 < n <= NOISE_MSG_MAX
}

/// The length of the frame whose first four bytes are these.
pub fn frame_length(header: &[u8]) -> (res: Result<usize, NoiseError>)
    requires
        header@.len() == 4,
    ensures
        res == (if frame_length_ok(bytes::be_value(header@)) {
            Ok::<usize, NoiseError>(bytes::be_value(header@) as usize)
        } else {
            Err(NoiseError::FrameLength(bytes::be_value(header@) as u32))
        }),
{
    proof {
        bytes::lemma_pow256();
    }
    let n: u32 = bytes::read_be(header) as u32;
    if n == 0 || n as usize > NOISE_MSG_MAX {
        Err(NoiseError::FrameLength(n))
    } else {
        Ok(n as usize)
    }
}

/// What reading one frame off a stream gives, and what is left of the stream.
pub open spec fn reading_frame(d: Seq<u8>) -> (Result<Option<Seq<u8>>, NoiseError>, Seq<u8>) {
    if d.len() == 0 {
        (Ok(None), Seq::empty())
    } else if d.len() < 4 {
        (Err(NoiseError::TruncatedLength), Seq::empty())
    } else {
        let n = bytes::be_value(d.take(4)) as int;
        if !frame_length_ok(n as nat) {
            (Err(NoiseError::FrameLength(n as u32)), d.skip(4))
        } else if d.len() < 4 + n {
            (Err(NoiseError::TruncatedFrame), Seq::empty())
        } else {
            (Ok(Some(d.subrange(4, 4 + n))), d.skip(4 + n))
        }
    }
}

/// Reads one frame off a stream; `None` where the stream ends between frames.
pub fn read_one_frame(stream: &mut &[u8]) -> (res: Result<Option<Vec<u8>>, NoiseError>)
    ensures
        final(stream)@ == reading_frame(old(stream)@).1,
        reading_frame(old(stream)@).0 == (match res {
            Ok(Some(c)) => Ok(Some(c@)),
            Ok(None) => Ok(None),
            Err(e) => Err(e),
        }),
{
    let d: &[u8] = *stream;
    if d.len() == 0 {
        assert(stream@ =~= Seq::<u8>::empty());
        return Ok(None);
    }
    let header = match bytes::take_bytes(stream, 4) {
        None => {
            *stream = vstd::slice::slice_subrange(d, d.len(), d.len());
            assert(stream@ =~= Seq::<u8>::empty());
            return Err(NoiseError::TruncatedLength);
        },
        Some(h) => h,
    };
    let n: usize = match frame_length(header) {
        Err(e) => {
            return Err(e);
        },
        Ok(n) => n,
    };
    match bytes::take_bytes(stream, n) {
        None => {
            *stream = vstd::slice::slice_subrange(d, d.len(), d.len());
            assert(stream@ =~= Seq::<u8>::empty());
            Err(NoiseError::TruncatedFrame)
        },
        Some(c) => {
            assert(c@ =~= d@.subrange(4, 4 + n));
            assert(stream@ =~= d@.skip(4 + n));
            Ok(Some(vstd::slice::slice_to_vec(c)))
        },
    }
}

// ---- putting chunks together ----

/// What has arrived of a payload: its length, once the first chunk is there, and its bytes.
#[verifier::ext_equal]
pub struct Assembly {
    pub total: Option<u32>,
    pub acc: Seq<u8>,
}

/// Nothing has arrived.
pub open spec fn nothing_arrived() -> Assembly {
    Assembly { total: None, acc: Seq::empty() }
}

/// What taking a chunk gives, and the assembly behind it.
pub open spec fn assemble(a: Assembly, chunk: Seq<u8>) -> (
    Result<Option<Seq<u8>>, NoiseError>,
    Assembly,
) {
    if a.total is None && chunk.len() < 4 {
        (Err(NoiseError::ShortFirstChunk), a)
    } else {
        let total = match a.total {
            None => bytes::be_value(chunk.take(4)) as u32,
            Some(t) => t,
        };
        let acc = a.acc + (if a.total is None {
            chunk.skip(4)
        } else {
            chunk
        });
        if acc.len() >= total {
            (
                Ok(Some(acc.take(total as int))),
                Assembly { total: Some(total), acc: Seq::empty() },
            )
        } else {
            (Ok(None), Assembly { total: Some(total), acc })
        }
    }
}

/// Puts the decrypted chunks of one payload together.
pub struct Reassembler {
    total_len: Option<u32>,
    acc: Vec<u8>,
}

impl View for Reassembler {
    type V = Assembly;

    closed spec fn view(&self) -> Assembly {
        Assembly { total: self.total_len, acc: self.acc@ }
    }
}

impl Reassembler {
    /// For one payload, of which nothing has arrived.
    pub fn new() -> (res: Self)
        ensures
            res@ == nothing_arrived(),
    {
        Self { total_len: None, acc: Vec::new() }
    }

    /// Whether nothing has arrived yet.
    pub fn is_fresh(&self) -> (res: bool)
        ensures
            res == (self@.total is None),
    {
        self.total_len.is_none()
    }

    /// Takes the next chunk; gives the payload when it is complete, `None` while it is not.
    pub fn push(&mut self, plaintext_chunk: &[u8]) -> (res: Result<Option<Vec<u8>>, NoiseError>)
        ensures
            final(self)@ == assemble(old(self)@, plaintext_chunk@).1,
            assemble(old(self)@, plaintext_chunk@).0 == (match res {
                Ok(Some(p)) => Ok(Some(p@)),
                Ok(None) => Ok(None),
                Err(e) => Err(e),
            }),
    {
        let total: u32 = match self.total_len {
            None => {
                if plaintext_chunk.len() < 4 {
                    return Err(NoiseError::ShortFirstChunk);
                }
                let (header, body) = plaintext_chunk.split_at(4);
                proof {
                    bytes::lemma_pow256();
                }
                let total: u32 = bytes::read_be(header) as u32;
                self.total_len = Some(total);
                self.acc.extend_from_slice(body);
                assert(header@ =~= plaintext_chunk@.take(4));
                assert(body@ =~= plaintext_chunk@.skip(4));
                total
            },
            Some(total) => {
                self.acc.extend_from_slice(plaintext_chunk);
                total
            },
        };
        let want: usize = total as usize;
        let ghost whole = self.acc@;
        assert(whole =~= old(self)@.acc + (if old(self)@.total is None {
            plaintext_chunk@.skip(4)
        } else {
            plaintext_chunk@
        }));
        if self.acc.len() >= want {
            let mut complete: Vec<u8> = Vec::new();
            std::mem::swap(&mut complete, &mut self.acc);
            complete.truncate(want);
            assert(complete@ =~= whole.take(total as int));
            Ok(Some(complete))
        } else {
            Ok(None)
        }
    }
}

impl Default for Reassembler {
    fn default() -> (res: Self)
        ensures
            res@ == nothing_arrived(),
    {
        Self::new()
    }
}

// ---- cutting a payload into chunks ----

/// What is cut into chunks: the length of the payload and the payload.
pub open spec fn with_length(plain: Seq<u8>) -> Seq<u8> {
    bytes::be(plain.len(), 4) + plain
}

/// The first chunk of some bytes.
pub open spec fn first_chunk(l: Seq<u8>) -> Seq<u8> {
    if l.len() <= CHUNK_MAX {
        l
    } else {
        l.take(CHUNK_MAX as int)
    }
}

/// What is left behind the first chunk.
pub open spec fn after_chunk(l: Seq<u8>) -> Seq<u8> {
    l.skip(first_chunk(l).len() as int)
}

/// How many chunks some bytes make.
pub open spec fn chunk_count(l: Seq<u8>) -> nat
    decreases l.len(),
{
    if l.len() == 0 {
        0
    } else {
        1 + chunk_count(after_chunk(l))
    }
}

/// The frames of the chunks of `l`, encrypted under `key` with message numbers from `nonce` on.
pub open spec fn frames(key: Seq<u8>, nonce: int, l: Seq<u8>) -> Seq<Seq<u8>>
    decreases l.len(),
{
    if l.len() == 0 {
        Seq::empty()
    } else {
        seq![framed(sealed(key, nonce as u64, first_chunk(l)))] + frames(
            key,
            nonce + 1,
            after_chunk(l),
        )
    }
}

/// Each chunk of `l`, encrypted under `key` with message numbers from `nonce` on, is sixteen bytes
/// longer and decrypts to itself.
pub open spec fn opens(key: Seq<u8>, nonce: int, l: Seq<u8>) -> bool
    decreases l.len(),
{
    l.len() == 0 || {
        let c = sealed(key, nonce as u64, first_chunk(l));
        &&& c.len() == first_chunk(l).len() + 16
        &&& opened(key, nonce as u64, c) == Some(first_chunk(l))
        &&& opens(key, nonce + 1, after_chunk(l))
    }
}

/// Pieces, one behind the other.
pub open spec fn joined(pieces: Seq<Seq<u8>>) -> Seq<u8>
    decreases pieces.len(),
{
    if pieces.len() == 0 {
        Seq::empty()
    } else {
        pieces[0] + joined(pieces.skip(1))
    }
}

/// The plaintext of a frame's ciphertext, where it is one.
pub open spec fn opening(key: Seq<u8>, nonce: int, c: Seq<u8>) -> Option<Seq<u8>> {
    if 16 <= c.len() <= NOISE_MSG_MAX && nonce < u64::MAX {
        opened(key, nonce as u64, c)
    } else {
        None
    }
}

/// What receiving one payload off a stream gives, the number of the next message, and what is left
/// of the stream, where `a` has already arrived.
pub open spec fn receiving(key: Seq<u8>, nonce: int, a: Assembly, d: Seq<u8>) -> (
    Result<Option<Seq<u8>>, NoiseError>,
    int,
    Seq<u8>,
)
    decreases d.len(),
{
    match reading_frame(d) {
        (Err(e), rest) => (Err(e), nonce, rest),
        (Ok(None), rest) => (Ok(None), nonce, rest),
        (Ok(Some(c)), rest) => match opening(key, nonce, c) {
            None => (Err(NoiseError::Decrypt), nonce, rest),
            Some(p) => match assemble(a, p) {
                (Err(e), _) => (Err(e), nonce + 1, rest),
                (Ok(Some(payload)), _) => (Ok(Some(payload)), nonce + 1, rest),
                (Ok(None), b) => receiving(key, nonce + 1, b, rest),
            },
        },
    }
}

proof fn lemma_reading_frame(c: Seq<u8>, rest: Seq<u8>)
    requires
        frame_length_ok(c.len()),
    ensures
        reading_frame(framed(c) + rest) == (
            Ok::<Option<Seq<u8>>, NoiseError>(Some(c)),
            rest,
        ),
{
    bytes::lemma_pow256();
    bytes::be_round_trip(c.len(), 4);
    let d = framed(c) + rest;
    let n = c.len() as int;
    assert(d.take(4) =~= bytes::be(c.len(), 4));
    assert(d.subrange(4, 4 + n) =~= c);
    assert(d.skip(4 + n) =~= rest);
}

proof fn lemma_joined_frames(key: Seq<u8>, nonce: int, l: Seq<u8>)
    requires
        l.len() > 0,
    ensures
        joined(frames(key, nonce, l)) == framed(sealed(key, nonce as u64, first_chunk(l))) + joined(
            frames(key, nonce + 1, after_chunk(l)),
        ),
{
    assert(frames(key, nonce, l).skip(1) =~= frames(key, nonce + 1, after_chunk(l)));
}

proof fn lemma_receiving_rest(
    key: Seq<u8>,
    nonce: int,
    total: u32,
    acc: Seq<u8>,
    l: Seq<u8>,
    rest: Seq<u8>,
)
    requires
        0 <= nonce,
        nonce + chunk_count(l) <= u64::MAX,
        opens(key, nonce, l),
        l.len() > 0,
        acc.len() + l.len() == total,
    ensures
        receiving(
            key,
            nonce,
            Assembly { total: Some(total), acc },
            joined(frames(key, nonce, l)) + rest,
        ) == (Ok::<Option<Seq<u8>>, NoiseError>(Some(acc + l)), nonce + chunk_count(l), rest),
    decreases l.len(),
{
    let c = sealed(key, nonce as u64, first_chunk(l));
    let tail = joined(frames(key, nonce + 1, after_chunk(l))) + rest;
    lemma_joined_frames(key, nonce, l);
    assert(joined(frames(key, nonce, l)) + rest =~= framed(c) + tail);
    lemma_reading_frame(c, tail);
    let next = acc + first_chunk(l);
    if after_chunk(l).len() == 0 {
        assert(joined(frames(key, nonce + 1, after_chunk(l))) + rest =~= rest);
        assert(next.take(total as int) =~= acc + l);
        assert(chunk_count(after_chunk(l)) == 0);
    } else {
        lemma_receiving_rest(key, nonce + 1, total, next, after_chunk(l), rest);
        assert(next + after_chunk(l) =~= acc + l);
    }
}

/// The receiver gets what was sent: the frames of a payload, received under the key and from the
/// message number under which they were made, give the payload, and leave whatever comes behind.
pub proof fn receiving_undoes_sending(key: Seq<u8>, nonce: int, plain: Seq<u8>, rest: Seq<u8>)
    requires
        plain.len() <= u32::MAX,
        0 <= nonce,
        nonce + chunk_count(with_length(plain)) <= u64::MAX,
        opens(key, nonce, with_length(plain)),
    ensures
        receiving(
            key,
            nonce,
            nothing_arrived(),
            joined(frames(key, nonce, with_length(plain))) + rest,
        ) == (
            Ok::<Option<Seq<u8>>, NoiseError>(Some(plain)),
            nonce + chunk_count(with_length(plain)),
            rest,
        ),
{
    let l = with_length(plain);
    bytes::lemma_pow256();
    bytes::be_round_trip(plain.len(), 4);
    let chunk = first_chunk(l);
    let c = sealed(key, nonce as u64, chunk);
    let tail = joined(frames(key, nonce + 1, after_chunk(l))) + rest;
    lemma_joined_frames(key, nonce, l);
    assert(joined(frames(key, nonce, l)) + rest =~= framed(c) + tail);
    lemma_reading_frame(c, tail);
    assert(chunk.take(4) =~= bytes::be(plain.len(), 4));
    let total = plain.len() as u32;
    let acc = Seq::<u8>::empty() + chunk.skip(4);
    if after_chunk(l).len() == 0 {
        assert(joined(frames(key, nonce + 1, after_chunk(l))) + rest =~= rest);
        assert(acc.take(total as int) =~= plain);
        assert(chunk_count(after_chunk(l)) == 0);
    } else {
        lemma_receiving_rest(key, nonce + 1, total, acc, after_chunk(l), rest);
        assert(acc + after_chunk(l) =~= plain);
    }
}

impl NoiseTransport {
    /// A fresh key pair, private key first. It can fail only where the machine has no randomness to
    /// give.
    pub fn generate_keypair() -> (res: Result<(Vec<u8>, Vec<u8>), NoiseError>)
        ensures
            match res {
                Ok(pair) => pair.0@.len() == 32 && pair.1@.len() == 32 && pair.1@ == public_half(
                    pair.0@,
                ),
                Err(e) => e == NoiseError::Keypair,
            },
    {
        match make_keypair(NOISE_PATTERN) {
            Err(_) => Err(NoiseError::Keypair),
            Ok(pair) => Ok(pair),
        }
    }

    /// Starts the handshake of the host.
    pub fn handshake_responder(local_private_key: &[u8]) -> (res: Result<Handshake, NoiseError>)
        requires
            local_private_key@.len() <= 32,
        ensures
            res is Ok,
            res matches Ok(h) ==> !h@.initiator && h@.transcript.len() == 0 && h@.host
                == public_half(key_of(local_private_key@)),
    {
        match build_responder(NOISE_PATTERN, local_private_key) {
            Err(_) => Err(NoiseError::Setup),
            Ok(h) => Ok(h),
        }
    }

    /// Starts the handshake of the client, which knows the host's public key.
    pub fn handshake_initiator(remote_public_key: &[u8]) -> (res: Result<Handshake, NoiseError>)
        requires
            remote_public_key@.len() <= 56,
        ensures
            res is Ok,
            res matches Ok(h) ==> h@.initiator && h@.transcript.len() == 0 && h@.host == key_of(
                remote_public_key@,
            ),
    {
        match build_initiator(NOISE_PATTERN, remote_public_key) {
            Err(_) => Err(NoiseError::Setup),
            Ok(h) => Ok(h),
        }
    }

    /// Encrypts one chunk.
    pub fn encrypt_chunk(&mut self, plaintext_chunk: &[u8]) -> (res: Result<Vec<u8>, NoiseError>)
        ensures
            match res {
                Ok(c) => {
                    &&& plaintext_chunk@.len() + 16 <= NOISE_MSG_MAX
                    &&& old(self)@.send_nonce != u64::MAX
                    &&& c@ == sealed(
                        old(self)@.send_key,
                        old(self)@.send_nonce,
                        plaintext_chunk@,
                    )
                    &&& c@.len() == plaintext_chunk@.len() + 16
                    &&& opened(old(self)@.send_key, old(self)@.send_nonce, c@) == Some(
                        plaintext_chunk@,
                    )
                    &&& final(self)@ == (Channel {
                        send_nonce: (old(self)@.send_nonce + 1) as u64,
                        ..old(self)@
                    })
                },
                Err(e) => {
                    &&& e == NoiseError::Encrypt
                    &&& plaintext_chunk@.len() + 16 > NOISE_MSG_MAX || old(self)@.send_nonce
                        == u64::MAX
                    &&& final(self)@ == old(self)@
                },
            },
    {
        match write_message(self, plaintext_chunk, NOISE_MSG_MAX) {
            Err(_) => Err(NoiseError::Encrypt),
            Ok(c) => Ok(c),
        }
    }

    /// Decrypts one chunk.
    pub fn decrypt_chunk(&mut self, ciphertext_chunk: &[u8]) -> (res: Result<Vec<u8>, NoiseError>)
        ensures
            match res {
                Ok(p) => {
                    &&& opening(
                        old(self)@.recv_key,
                        old(self)@.recv_nonce as int,
                        ciphertext_chunk@,
                    ) == Some(p@)
                    &&& final(self)@ == (Channel {
                        recv_nonce: (old(self)@.recv_nonce + 1) as u64,
                        ..old(self)@
                    })
                },
                Err(e) => {
                    &&& e == NoiseError::Decrypt
                    &&& opening(
                        old(self)@.recv_key,
                        old(self)@.recv_nonce as int,
                        ciphertext_chunk@,
                    ) is None
                    &&& final(self)@ == old(self)@
                },
            },
    {
        match read_message(self, ciphertext_chunk) {
            Err(_) => Err(NoiseError::Decrypt),
            Ok(p) => Ok(p),
        }
    }

    /// Encrypts one payload and appends its frames to a stream. It fails only where the message
    /// numbers run out. A channel that receives under the same key and number gets the payload.
    pub fn send(&mut self, stream: &mut Vec<u8>, plaintext: &[u8]) -> (res: Result<(), NoiseError>)
        ensures
            ({
                let l = with_length(plaintext@);
                let (key, nonce) = (old(self)@.send_key, old(self)@.send_nonce as int);
                match res {
                    Ok(_) => {
                        &&& nonce + chunk_count(l) <= u64::MAX
                        &&& final(stream)@ == old(stream)@ + joined(frames(key, nonce, l))
                        &&& opens(key, nonce, l)
                        &&& plaintext@.len() <= u32::MAX ==> forall|rest: Seq<u8>|
                            receiving(
                                key,
                                nonce,
                                nothing_arrived(),
                                #[trigger] (joined(frames(key, nonce, l)) + rest),
                            ) == (
                                Ok::<Option<Seq<u8>>, NoiseError>(Some(plaintext@)),
                                nonce + chunk_count(l),
                                rest,
                            )
                        &&& final(self)@ == (Channel {
                            send_nonce: (nonce + chunk_count(l)) as u64,
                            ..old(self)@
                        })
                    },
                    Err(e) => {
                        &&& e == NoiseError::Encrypt
                        &&& nonce + chunk_count(l) > u64::MAX
                        &&& final(stream)@ == old(stream)@
                        &&& final(self)@ == (Channel { send_nonce: u64::MAX, ..old(self)@ })
                    },
                }
            }),
    {
        let ghost l = with_length(plaintext@);
        let ghost key = self@.send_key;
        let ghost nonce = self@.send_nonce as int;
        let pieces = match chunk_and_encrypt(self, plaintext) {
            Err(e) => {
                return Err(e);
            },
            Ok(pieces) => pieces,
        };
        let ghost all = pieces@.map_values(|f: Vec<u8>| f@);
        let mut i: usize = 0;
        assert(all.skip(0) =~= all);
        while i < pieces.len()
            invariant
                i <= pieces.len(),
                all == pieces@.map_values(|f: Vec<u8>| f@),
                stream@ + joined(all.skip(i as int)) == old(stream)@ + joined(all),
            decreases pieces.len() - i,
        {
            let ghost before = stream@;
            stream.extend_from_slice(pieces[i].as_slice());
            proof {
                let s = all.skip(i as int);
                assert(s.skip(1) =~= all.skip(i + 1));
                assert(joined(s) == all[i as int] + joined(all.skip(i + 1)));
                assert(stream@ =~= before + all[i as int]);
                assert(stream@ + joined(all.skip(i + 1)) =~= before + joined(s));
            }
            i = i + 1;
        }
        proof {
            assert(all.skip(i as int) =~= Seq::<Seq<u8>>::empty());
            assert(stream@ + joined(all.skip(i as int)) =~= stream@);
            if plaintext@.len() <= u32::MAX {
                assert forall|rest: Seq<u8>|
                    receiving(
                        key,
                        nonce,
                        nothing_arrived(),
                        #[trigger] (joined(frames(key, nonce, l)) + rest),
                    ) == (
                        Ok::<Option<Seq<u8>>, NoiseError>(Some(plaintext@)),
                        nonce + chunk_count(l),
                        rest,
                    ) by {
                    receiving_undoes_sending(key, nonce, plaintext@, rest);
                }
            }
        }
        Ok(())
    }

    /// Receives one payload off a stream; `None` where the stream ends between frames.
    pub fn recv(&mut self, stream: &mut &[u8]) -> (res: Result<Option<Vec<u8>>, NoiseError>)
        ensures
            ({
                let (got, nonce, rest) = receiving(
                    old(self)@.recv_key,
                    old(self)@.recv_nonce as int,
                    nothing_arrived(),
                    old(stream)@,
                );
                &&& final(stream)@ == rest
                &&& final(self)@ == (Channel { recv_nonce: nonce as u64, ..old(self)@ })
                &&& got == (match res {
                    Ok(Some(p)) => Ok(Some(p@)),
                    Ok(None) => Ok(None),
                    Err(e) => Err(e),
                })
            }),
    {
        let mut reassembler = Reassembler::new();
        loop
            invariant
                self@ == (Channel { recv_nonce: self@.recv_nonce, ..old(self)@ }),
                receiving(
                    old(self)@.recv_key,
                    old(self)@.recv_nonce as int,
                    nothing_arrived(),
                    old(stream)@,
                ) == receiving(
                    self@.recv_key,
                    self@.recv_nonce as int,
                    reassembler@,
                    stream@,
                ),
            decreases stream@.len(),
        {
            let cbuf = match read_one_frame(stream) {
                Err(e) => {
                    return Err(e);
                },
                Ok(None) => {
                    return Ok(None);
                },
                Ok(Some(c)) => c,
            };
            let pbuf = match self.decrypt_chunk(cbuf.as_slice()) {
                Err(e) => {
                    return Err(e);
                },
                Ok(p) => p,
            };
            match reassembler.push(pbuf.as_slice()) {
                Err(e) => {
                    return Err(e);
                },
                Ok(Some(complete)) => {
                    return Ok(Some(complete));
                },
                Ok(None) => {},
            }
        }
    }
}

/// Cuts a payload into chunks, encrypts each, and frames it. It fails only where the message
/// numbers run out.
pub fn chunk_and_encrypt(transport: &mut NoiseTransport, plaintext: &[u8]) -> (res: Result<
    Vec<Vec<u8>>,
    NoiseError,
>)
    ensures
        ({
            let l = with_length(plaintext@);
            let (key, nonce) = (old(transport)@.send_key, old(transport)@.send_nonce as int);
            match res {
                Ok(pieces) => {
                    &&& nonce + chunk_count(l) <= u64::MAX
                    &&& pieces@.map_values(|f: Vec<u8>| f@) == frames(key, nonce, l)
                    &&& opens(key, nonce, l)
                    &&& final(transport)@ == (Channel {
                        send_nonce: (nonce + chunk_count(l)) as u64,
                        ..old(transport)@
                    })
                },
                Err(e) => {
                    &&& e == NoiseError::Encrypt
                    &&& nonce + chunk_count(l) > u64::MAX
                    &&& final(transport)@ == (Channel {
                        send_nonce: u64::MAX,
                        ..old(transport)@
                    })
                },
            }
        }),
{
    let ghost f = |f: Vec<u8>| f@;
    let mut logical: Vec<u8> = Vec::new();
    bytes::push_be(&mut logical, plaintext.len() as u64, 4);
    logical.extend_from_slice(plaintext);
    let ghost l = with_length(plaintext@);
    assert(logical@ =~= l);
    let ghost key = transport@.send_key;
    let ghost start = transport@.send_nonce as int;
    let mut out: Vec<Vec<u8>> = Vec::new();
    let mut at: usize = 0;
    proof {
        assert(l.skip(0) =~= l);
        assert(out@.map_values(f) + frames(key, start, l) =~= frames(key, start, l));
    }
    while at < logical.len()
        invariant
            f == (|f: Vec<u8>| f@),
            at <= logical.len(),
            l == with_length(plaintext@),
            logical@ == l,
            transport@ == (Channel { send_nonce: transport@.send_nonce, ..old(transport)@ }),
            key == old(transport)@.send_key,
            start == old(transport)@.send_nonce,
            start + chunk_count(l) == transport@.send_nonce + chunk_count(l.skip(at as int)),
            frames(key, start, l) == out@.map_values(f) + frames(
                key,
                transport@.send_nonce as int,
                l.skip(at as int),
            ),
            opens(key, transport@.send_nonce as int, l.skip(at as int)) ==> opens(key, start, l),
        decreases logical.len() - at,
    {
        let end: usize = if logical.len() - at <= CHUNK_MAX {
            logical.len()
        } else {
            at + CHUNK_MAX
        };
        let chunk = vstd::slice::slice_subrange(logical.as_slice(), at, end);
        let ghost rest = l.skip(at as int);
        proof {
            assert(chunk@ =~= first_chunk(rest));
            assert(after_chunk(rest) =~= l.skip(end as int));
        }
        let ghost nonce = transport@.send_nonce as int;
        let ciphertext = match transport.encrypt_chunk(chunk) {
            Err(e) => {
                assert(chunk_count(rest) >= 1);
                return Err(e);
            },
            Ok(c) => c,
        };
        let ghost before = out@;
        out.push(frame(&ciphertext));
        proof {
            let piece = framed(sealed(key, nonce as u64, first_chunk(rest)));
            assert(out@.map_values(f) =~= before.map_values(f).push(piece));
            assert(before.map_values(f) + frames(key, nonce, rest) =~= out@.map_values(f) + frames(
                key,
                nonce + 1,
                after_chunk(rest),
            ));
        }
        at = end;
    }
    proof {
        assert(l.skip(at as int).len() == 0);
        assert(out@.map_values(f) =~= frames(key, start, l));
    }
    Ok(out)
}

/// Two channels are the two ends of one: what one sends under, the other receives under.
pub open spec fn paired(a: Channel, b: Channel) -> bool {
    &&& a.send_key == b.recv_key
    &&& a.send_nonce == b.recv_nonce
    &&& b.send_key == a.recv_key
    &&& b.send_nonce == a.recv_nonce
}

/// Two handshakes are the two sides of one: they are with the same host, the same messages have
/// passed, and all keys in play are public keys.
pub open spec fn in_step(h: HandshakeView, g: HandshakeView) -> bool {
    &&& h.initiator != g.initiator
    &&& h.host == g.host
    &&& h.transcript == g.transcript
    &&& genuine(h)
}

/// A client that was given the public key of a host meets that host: before the first message, the
/// two are the sides of one handshake.
pub proof fn a_paired_client_meets_its_host(private_key: Seq<u8>, h: HandshakeView, g: HandshakeView)
    requires
        private_key.len() == 32,
        public_half(private_key).len() == 32,
        !h.initiator,
        h.host == public_half(key_of(private_key)),
        h.transcript.len() == 0,
        g.initiator,
        g.host == key_of(public_half(private_key)),
        g.transcript.len() == 0,
    ensures
        in_step(h, g),
{
    assert(key_of(private_key) =~= private_key);
    assert(key_of(public_half(private_key)) =~= public_half(private_key));
    assert(h.transcript =~= g.transcript);
}

/// What one side of a handshake makes is what the other side accepts, and having passed it on, the
/// two are still the sides of one handshake.
pub proof fn the_sides_stay_in_step(
    h: HandshakeView,
    g: HandshakeView,
    m: Seq<u8>,
    h_after: HandshakeView,
    g_after: HandshakeView,
)
    requires
        in_step(h, g),
        handshake_step(h) == HandshakeStep::Send,
        spoken(h, m),
        moved_on(h, h_after, m),
        moved_on(g, g_after, m),
    ensures
        handshake_step(g) == HandshakeStep::Receive,
        genuine(g),
        spoken(g, m),
        in_step(h_after, g_after),
{
    assert forall|i: int| 0 <= i < h_after.transcript.len() implies carries_key(
        #[trigger] h_after.transcript[i],
    ) by {
        if i < h.transcript.len() {
            assert(h_after.transcript[i] == h.transcript[i]);
        }
    }
}

/// The two sides of a finished handshake open the two ends of one channel.
pub proof fn finished_handshakes_pair(h: HandshakeView, g: HandshakeView)
    requires
        in_step(h, g),
        settled(h),
        settled(g),
    ensures
        paired(channel_of(h), channel_of(g)),
{
}

/// A payload that was sent at one end arrives at the other, and leaves the two ends paired.
pub proof fn a_delivered_payload_keeps_the_ends_paired(
    a: Channel,
    b: Channel,
    plain: Seq<u8>,
    rest: Seq<u8>,
)
    requires
        paired(a, b),
        plain.len() <= u32::MAX,
        a.send_nonce + chunk_count(with_length(plain)) <= u64::MAX,
        opens(a.send_key, a.send_nonce as int, with_length(plain)),
    ensures
        ({
            let l = with_length(plain);
            let (got, nonce, left) = receiving(
                b.recv_key,
                b.recv_nonce as int,
                nothing_arrived(),
                joined(frames(a.send_key, a.send_nonce as int, l)) + rest,
            );
            &&& got == Ok::<Option<Seq<u8>>, NoiseError>(Some(plain))
            &&& left == rest
            &&& paired(
                Channel { send_nonce: (a.send_nonce + chunk_count(l)) as u64, ..a },
                Channel { recv_nonce: nonce as u64, ..b },
            )
        }),
{
    receiving_undoes_sending(a.send_key, a.send_nonce as int, plain, rest);
}

/// The sides of a handshake take turns: while it is not finished, one sends and the other receives,
/// and after two messages both are done.
pub proof fn handshake_sides_take_turns(h: HandshakeView, g: HandshakeView)
    requires
        h.initiator != g.initiator,
        h.transcript.len() == g.transcript.len() <= 2,
    ensures
        h.transcript.len() < 2 ==> (handshake_step(h) == HandshakeStep::Send <==> handshake_step(g)
            == HandshakeStep::Receive),
        h.transcript.len() < 2 ==> (handshake_step(h) == HandshakeStep::Send || handshake_step(g)
            == HandshakeStep::Send),
        h.transcript.len() == 2 <==> handshake_step(h) == HandshakeStep::Done,
{
}

/// What is said of an error.
pub open spec fn error_text(e: NoiseError) -> Seq<char> {
    match e {
        NoiseError::Keypair => "generate noise keypair"@,
        NoiseError::Setup => "build noise handshake"@,
        NoiseError::HandshakeWrite => "noise handshake write"@,
        NoiseError::HandshakeRead => "noise handshake read"@,
        NoiseError::NotFinished => "enter transport mode"@,
        NoiseError::Encrypt => "noise encrypt"@,
        NoiseError::Decrypt => "noise decrypt"@,
        NoiseError::FrameLength(n) => "noise ciphertext frame length "@ + text::decimal(n as nat)
            + " out of range"@,
        NoiseError::TruncatedLength => "read noise frame length"@,
        NoiseError::TruncatedFrame => "read noise ciphertext"@,
        NoiseError::ShortFirstChunk =>
            "first noise chunk too short to carry the length header"@,
        NoiseError::OddHex => "hex string has odd length"@,
        NoiseError::HexDigit => "invalid hex digit"@,
    }
}

impl NoiseError {
    /// What is said of the error.
    pub fn to_string(&self) -> (res: String)
        ensures
            res@ == error_text(*self),
    {
        match self {
            NoiseError::Keypair => "generate noise keypair".to_owned(),
            NoiseError::Setup => "build noise handshake".to_owned(),
            NoiseError::HandshakeWrite => "noise handshake write".to_owned(),
            NoiseError::HandshakeRead => "noise handshake read".to_owned(),
            NoiseError::NotFinished => "enter transport mode".to_owned(),
            NoiseError::Encrypt => "noise encrypt".to_owned(),
            NoiseError::Decrypt => "noise decrypt".to_owned(),
            NoiseError::FrameLength(n) => {
                let mut out = "noise ciphertext frame length ".to_owned();
                text::push_decimal(&mut out, *n as u64);
                out.append(" out of range");
                out
            },
            NoiseError::TruncatedLength => "read noise frame length".to_owned(),
            NoiseError::TruncatedFrame => "read noise ciphertext".to_owned(),
            NoiseError::ShortFirstChunk =>
                "first noise chunk too short to carry the length header".to_owned(),
            NoiseError::OddHex => "hex string has odd length".to_owned(),
            NoiseError::HexDigit => "invalid hex digit".to_owned(),
        }
    }
}

// ---- laws ----

/// A frame is the number of its bytes, in four bytes, and those bytes; it has at least one and at most
/// 65535 of them.
pub proof fn a_frame_is_length_and_bytes(c: Seq<u8>)
    ensures
        framed(c).len() == 4 + c.len(),
        framed(c).take(4) == bytes::be(c.len(), 4),
        framed(c).skip(4) == c,
        frame_length_ok(c.len()) <==> 1 <= c.len() <= 65535,
{
    bytes::lemma_be_len(c.len(), 4);
    assert(framed(c).take(4) =~= bytes::be(c.len(), 4));
    assert(framed(c).skip(4) =~= c);
}

/// A frame is read off a stream by its length: nothing where the stream has ended, an error where it
/// ends inside the length or the bytes, a refusal of a length that no frame has, and else those bytes,
/// with what follows left for later.
pub proof fn frames_are_read_by_their_length(d: Seq<u8>)
    ensures
        d.len() == 0 ==> reading_frame(d) == (
            Ok::<Option<Seq<u8>>, NoiseError>(None),
            Seq::<u8>::empty(),
        ),
        0 < d.len() < 4 ==> reading_frame(d).0 == Err::<Option<Seq<u8>>, _>(
            NoiseError::TruncatedLength,
        ),
        d.len() >= 4 ==> ({
            let n = bytes::be_value(d.take(4));
            &&& n == 0 || n > 65535 ==> (reading_frame(d).0 matches Err(NoiseError::FrameLength(k))
                && k == n)
            &&& 1 <= n <= 65535 && d.len() < 4 + n ==> reading_frame(d).0 == Err::<
                Option<Seq<u8>>,
                _,
            >(NoiseError::TruncatedFrame)
            &&& 1 <= n <= 65535 && d.len() >= 4 + n ==> reading_frame(d) == (
                Ok::<Option<Seq<u8>>, NoiseError>(Some(d.subrange(4, 4 + n as int))),
                d.skip(4 + n as int),
            )
        }),
{
    if d.len() >= 4 {
        bytes::lemma_pow256();
        bytes::be_value_round_trip(d.take(4));
    }
}

/// A payload with its length in front is cut into chunks of 60000 bytes, the last of which may be
/// shorter: as many as it takes, each in a frame of its own, encrypted under the next number.
pub proof fn chunks_hold_sixty_thousand_bytes(key: Seq<u8>, nonce: int, l: Seq<u8>, i: int)
    ensures
        frames(key, nonce, l).len() == chunk_count(l),
        60000 * chunk_count(l) >= l.len(),
        60000 * chunk_count(l) < l.len() + 60000,
        0 <= i < chunk_count(l) ==> frames(key, nonce, l)[i] == framed(
            sealed(
                key,
                (nonce + i) as u64,
                l.subrange(
                    60000 * i,
                    if 60000 * (i + 1) <= l.len() {
                        60000 * (i + 1)
                    } else {
                        l.len() as int
                    },
                ),
            ),
        ),
    decreases l.len(),
{
    if l.len() > 0 {
        let rest = after_chunk(l);
        chunks_hold_sixty_thousand_bytes(key, nonce + 1, rest, i - 1);
        if i == 0 {
            assert(first_chunk(l) =~= l.subrange(
                0,
                if 60000 <= l.len() {
                    60000
                } else {
                    l.len() as int
                },
            ));
        } else if 0 < i < chunk_count(l) {
            assert(rest =~= l.skip(60000));
            let (lo, hi) = (
                60000 * (i - 1),
                if 60000 * i <= rest.len() {
                    60000 * i
                } else {
                    rest.len() as int
                },
            );
            assert(rest.subrange(lo, hi) =~= l.subrange(lo + 60000, hi + 60000));
            assert(frames(key, nonce, l)[i] == frames(key, nonce + 1, rest)[i - 1]);
        }
    }
}

/// What is cut into chunks is the number of the payload's bytes, in four bytes, and the payload.
pub proof fn the_length_goes_first(plain: Seq<u8>)
    ensures
        with_length(plain).len() == 4 + plain.len(),
        with_length(plain).take(4) == bytes::be(plain.len(), 4),
        with_length(plain).skip(4) == plain,
{
    a_frame_is_length_and_bytes(plain);
    assert(with_length(plain) =~= framed(plain));
}

/// A payload is complete once as many bytes have arrived as its first four said: what has arrived is
/// kept in its order until that, and what is too much is left out. A first chunk without those four
/// bytes is refused, and changes nothing.
pub proof fn chunks_are_put_together_in_order(n: u32, acc: Seq<u8>, chunk: Seq<u8>)
    ensures
        chunk.len() < 4 ==> assemble(nothing_arrived(), chunk) == (
            Err::<Option<Seq<u8>>, NoiseError>(NoiseError::ShortFirstChunk),
            nothing_arrived(),
        ),
        chunk.len() < n ==> assemble(nothing_arrived(), bytes::be(n as nat, 4) + chunk) == (
            Ok::<Option<Seq<u8>>, NoiseError>(None),
            Assembly { total: Some(n), acc: chunk },
        ),
        chunk.len() >= n ==> assemble(nothing_arrived(), bytes::be(n as nat, 4) + chunk).0 == Ok::<
            Option<Seq<u8>>,
            NoiseError,
        >(Some(chunk.take(n as int))),
        acc.len() + chunk.len() < n ==> assemble(Assembly { total: Some(n), acc }, chunk) == (
            Ok::<Option<Seq<u8>>, NoiseError>(None),
            Assembly { total: Some(n), acc: acc + chunk },
        ),
        acc.len() + chunk.len() >= n ==> assemble(Assembly { total: Some(n), acc }, chunk).0 == Ok::<
            Option<Seq<u8>>,
            NoiseError,
        >(Some((acc + chunk).take(n as int))),
{
    bytes::lemma_pow256();
    bytes::be_round_trip(n as nat, 4);
    let first = bytes::be(n as nat, 4) + chunk;
    assert(first.take(4) =~= bytes::be(n as nat, 4));
    assert(first.skip(4) =~= chunk);
    assert(Seq::<u8>::empty() + chunk =~= chunk);
}

/// A ciphertext is opened where it is at least as long as the tag in it, sixteen bytes, and at most
/// 65535 bytes long, and where there is a number left for it.
pub proof fn what_cannot_be_a_ciphertext_is_not_opened(key: Seq<u8>, nonce: u64, c: Seq<u8>)
    ensures
        c.len() < 16 || c.len() > 65535 || nonce == u64::MAX ==> opening(key, nonce as int, c) is None,
        16 <= c.len() <= 65535 && nonce < u64::MAX ==> opening(key, nonce as int, c) == opened(
            key,
            nonce,
            c,
        ),
{
}

/// Receiving stops at the first frame that is not what it should be: what follows is left, and a frame
/// that could not be opened uses up no number. Where the stream ends between frames there is nothing
/// to receive.
pub proof fn receiving_stops_at_what_is_wrong(key: Seq<u8>, nonce: int, a: Assembly, d: Seq<u8>)
    ensures
        ({
            let (frame, rest) = reading_frame(d);
            let got = receiving(key, nonce, a, d);
            &&& frame matches Err(e) ==> got == (Err::<Option<Seq<u8>>, NoiseError>(e), nonce, rest)
            &&& frame == Ok::<Option<Seq<u8>>, NoiseError>(None) ==> got == (
                Ok::<Option<Seq<u8>>, NoiseError>(None),
                nonce,
                rest,
            )
            &&& frame matches Ok(Some(c)) ==> {
                &&& opening(key, nonce, c) is None ==> got == (
                    Err::<Option<Seq<u8>>, NoiseError>(NoiseError::Decrypt),
                    nonce,
                    rest,
                )
                &&& opening(key, nonce, c) matches Some(p) ==> {
                    &&& assemble(a, p).0 matches Err(e) ==> got == (
                        Err::<Option<Seq<u8>>, NoiseError>(e),
                        nonce + 1,
                        rest,
                    )
                    &&& assemble(a, p).0 matches Ok(Some(whole)) ==> got == (
                        Ok::<Option<Seq<u8>>, NoiseError>(Some(whole)),
                        nonce + 1,
                        rest,
                    )
                }
            }
        }),
{
}

/// A key has 32 bytes: those that were given, in their places, and zeros behind them.
pub proof fn a_key_has_thirty_two_bytes(given: Seq<u8>, i: int)
    ensures
        key_of(given).len() == 32,
        given.len() == 32 ==> key_of(given) == given,
        0 <= i < 32 && i < given.len() ==> key_of(given)[i] == given[i],
        given.len() <= i < 32 ==> key_of(given)[i] == 0,
{
    if given.len() == 32 {
        assert(key_of(given) =~= given);
    }
}

/// The initiator, which knows the responder's key beforehand, writes the first message of a handshake
/// and the responder the second, and both are done. The initiator then sends under the first of the two
/// keys and the responder under the second, with the numbers from 0 on.
pub proof fn the_initiator_speaks_first(h: HandshakeView)
    ensures
        NOISE_PATTERN@ == "Noise_NK_25519_ChaChaPoly_BLAKE2s"@,
        h.transcript.len() == 0 ==> handshake_step(h) == (if h.initiator {
            HandshakeStep::Send
        } else {
            HandshakeStep::Receive
        }),
        h.transcript.len() == 1 ==> handshake_step(h) == (if h.initiator {
            HandshakeStep::Receive
        } else {
            HandshakeStep::Send
        }),
        h.transcript.len() == 2 ==> handshake_step(h) == HandshakeStep::Done,
        channel_of(h).send_nonce == 0 && channel_of(h).recv_nonce == 0,
        h.initiator ==> channel_of(h).send_key == h.keys.0 && channel_of(h).recv_key == h.keys.1,
        !h.initiator ==> channel_of(h).send_key == h.keys.1 && channel_of(h).recv_key == h.keys.0,
{
}

/// What is said of each error.
pub proof fn errors_are_told_apart(n: u32)
    ensures
        error_text(NoiseError::Keypair) == "generate noise keypair"@,
        error_text(NoiseError::Setup) == "build noise handshake"@,
        error_text(NoiseError::HandshakeWrite) == "noise handshake write"@,
        error_text(NoiseError::HandshakeRead) == "noise handshake read"@,
        error_text(NoiseError::NotFinished) == "enter transport mode"@,
        error_text(NoiseError::Encrypt) == "noise encrypt"@,
        error_text(NoiseError::Decrypt) == "noise decrypt"@,
        error_text(NoiseError::FrameLength(n)) == "noise ciphertext frame length "@ + text::decimal(
            n as nat,
        ) + " out of range"@,
        error_text(NoiseError::TruncatedLength) == "read noise frame length"@,
        error_text(NoiseError::TruncatedFrame) == "read noise ciphertext"@,
        error_text(NoiseError::ShortFirstChunk)
            == "first noise chunk too short to carry the length header"@,
        error_text(NoiseError::OddHex) == "hex string has odd length"@,
        error_text(NoiseError::HexDigit) == "invalid hex digit"@,
{
}

/// The four bytes in front of a frame give its length, from 1 to 65535, and any other number is refused
/// and named.
pub proof fn a_length_that_no_frame_has_is_named(header: &[u8], res: Result<usize, NoiseError>)
    requires
        header@.len() == 4,
        call_ensures(frame_length, (header,), res),
    ensures
        ({
            let n = bytes::be_value(header@);
            &&& 1 <= n <= 65535 ==> (res matches Ok(k) && k == n)
            &&& n == 0 || n > 65535 ==> (res matches Err(NoiseError::FrameLength(k)) && k == n)
        }),
{
    bytes::lemma_pow256();
    bytes::be_value_round_trip(header@);
}

/// Each chunk is encrypted under the next number, and decrypts to itself under that; a failure uses up
/// no number, and comes only where the chunk is too long for a message or the numbers are used up.
pub proof fn each_chunk_uses_up_a_number(
    t: &mut NoiseTransport,
    plain: &[u8],
    res: Result<Vec<u8>, NoiseError>,
)
    requires
        call_ensures(NoiseTransport::encrypt_chunk, (t, plain), res),
    ensures
        final(t)@.send_key == old(t)@.send_key,
        final(t)@.recv_key == old(t)@.recv_key,
        final(t)@.recv_nonce == old(t)@.recv_nonce,
        res is Ok <==> plain@.len() <= 65519 && old(t)@.send_nonce < u64::MAX,
        res matches Ok(c) ==> final(t)@.send_nonce == old(t)@.send_nonce + 1 && c@.len()
            == plain@.len() + 16 && opened(old(t)@.send_key, old(t)@.send_nonce, c@) == Some(plain@),
        res matches Err(e) ==> final(t)@.send_nonce == old(t)@.send_nonce && e == NoiseError::Encrypt,
{
}

/// A chunk that decrypts uses up a number, and one that does not changes nothing.
pub proof fn a_chunk_that_decrypts_uses_up_a_number(
    t: &mut NoiseTransport,
    cipher: &[u8],
    res: Result<Vec<u8>, NoiseError>,
)
    requires
        call_ensures(NoiseTransport::decrypt_chunk, (t, cipher), res),
    ensures
        res is Ok <==> opening(old(t)@.recv_key, old(t)@.recv_nonce as int, cipher@) is Some,
        res matches Ok(p) ==> final(t)@.recv_nonce == old(t)@.recv_nonce + 1 && opened(
            old(t)@.recv_key,
            old(t)@.recv_nonce,
            cipher@,
        ) == Some(p@),
        res matches Err(e) ==> final(t)@.recv_nonce == old(t)@.recv_nonce && e == NoiseError::Decrypt,
        final(t)@.send_key == old(t)@.send_key && final(t)@.send_nonce == old(t)@.send_nonce,
        final(t)@.recv_key == old(t)@.recv_key,
{
}

/// A handshake moves on by one message, and otherwise stays as it is; one that has not moved has had
/// no message.
pub proof fn a_handshake_moves_on_by_one_message(h: HandshakeView, g: HandshakeView, m: Seq<u8>)
    ensures
        moved_on(h, g, m) <==> g.initiator == h.initiator && g.host == h.host && g.transcript
            == h.transcript + seq![m],
        stayed(h, g) <==> g.initiator == h.initiator && g.host == h.host && g.transcript
            == h.transcript,
        !(moved_on(h, g, m) && stayed(h, g)),
{
    assert(h.transcript.push(m) =~= h.transcript + seq![m]);
}

/// A key that a message carries is its first 32 bytes, and one that a side makes has 48 bytes, of which
/// the rest is settled by the key, the host and what has passed.
pub proof fn what_is_spoken_begins_with_a_key(h: HandshakeView, m: Seq<u8>)
    ensures
        spoken(h, m) ==> m.len() == 48 && (exists|p: Seq<u8>|
            p.len() == 32 && #[trigger] public_half(p) == m.take(32)) && m == handshake_message(
            h.host,
            h.transcript,
            m.take(32),
        ),
{
}

/// What is left of a stream behind a frame that could not be read: nothing where the stream ended in
/// it, and what follows the length where that was refused.
pub proof fn a_refused_length_is_passed_over(d: Seq<u8>)
    ensures
        0 < d.len() < 4 ==> reading_frame(d).1 == Seq::<u8>::empty(),
        d.len() >= 4 ==> ({
            let n = bytes::be_value(d.take(4));
            &&& n == 0 || n > 65535 ==> reading_frame(d).1 == d.skip(4)
            &&& 1 <= n <= 65535 && d.len() < 4 + n ==> reading_frame(d).1 == Seq::<u8>::empty()
        }),
{
}

/// What one end of a channel sends, the other receives, and the two ends are paired as before.
pub proof fn what_one_end_sends_the_other_receives(
    a: &mut NoiseTransport,
    stream: &mut Vec<u8>,
    plain: &[u8],
    b: &mut NoiseTransport,
    input: &mut &[u8],
    rest: Seq<u8>,
    res: Result<Option<Vec<u8>>, NoiseError>,
)
    requires
        call_ensures(NoiseTransport::send, (a, stream, plain), Ok::<(), NoiseError>(())),
        plain@.len() <= u32::MAX,
        paired(old(a)@, old(b)@),
        old(input)@ == final(stream)@.skip(old(stream)@.len() as int) + rest,
        call_ensures(NoiseTransport::recv, (b, input), res),
    ensures
        final(stream)@.take(old(stream)@.len() as int) == old(stream)@,
        res matches Ok(Some(p)) && p@ == plain@,
        final(input)@ == rest,
        paired(final(a)@, final(b)@),
{
    let l = with_length(plain@);
    let sent = joined(frames(old(a)@.send_key, old(a)@.send_nonce as int, l));
    assert(final(stream)@.skip(old(stream)@.len() as int) =~= sent);
    assert(final(stream)@.take(old(stream)@.len() as int) =~= old(stream)@);
    a_delivered_payload_keeps_the_ends_paired(old(a)@, old(b)@, plain@, rest);
}

} // verus!
