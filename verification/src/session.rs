//! A session with a client: who is let in, who holds the screen, what each message leads to, and what
//! is done in which order.
//!
//! Sockets, threads and the encoder's process are handled by the program around this. It reports
//! what happened and does what it is told.
use vstd::prelude::*;

use crate::encode::{EncodedUnit, LatestEncoded};
use crate::modes::{Mode, Preset};
use crate::noise::{NoiseError, NoiseTransport, Reassembler};
use crate::proto::{DeviceProfile, Message, MessageView, ProfileView, ProtoError, PROTOCOL_VERSION};
use crate::{modes, noise, proto, text};

verus! {

// ---- letting a client in ----

/// What becomes of a connection after its first message.
pub enum Greeting {
    /// The client is let in.
    Accept(DeviceProfile),
    /// The client is told why it is not.
    Refuse(String),
    /// The first message was not a greeting; nothing is answered.
    NoGreeting,
}

/// A `Greeting` with its texts as sequences.
#[verifier::ext_equal]
pub enum GreetingView {
    Accept(ProfileView),
    Refuse(Seq<char>),
    NoGreeting,
}

impl View for Greeting {
    type V = GreetingView;

    open spec fn view(&self) -> GreetingView {
        match *self {
            Greeting::Accept(p) => GreetingView::Accept(p@),
            Greeting::Refuse(r) => GreetingView::Refuse(r@),
            Greeting::NoGreeting => GreetingView::NoGreeting,
        }
    }
}

/// What is said to a client of another version.
pub open spec fn mismatch_text(client: u16) -> Seq<char> {
    "protocol mismatch: host=5 client="@ + text::decimal(client as nat)
}

/// What is said to a client with another token.
pub const WRONG_TOKEN: &'static str = "pairing rejected: wrong or missing token";

/// A client is let in when it greets first, with the host's version and the host's token. An empty
/// token is no token.
pub open spec fn greeting(first: Option<MessageView>, expected: Seq<char>) -> GreetingView {
    match first {
        Some(MessageView::Hello { protocol_version, token, profile }) => {
            if protocol_version != PROTOCOL_VERSION {
                GreetingView::Refuse(mismatch_text(protocol_version))
            } else if token.len() == 0 || token != expected {
                GreetingView::Refuse(WRONG_TOKEN@)
            } else {
                GreetingView::Accept(profile)
            }
        },
        _ => GreetingView::NoGreeting,
    }
}

/// What is answered to a greeting.
pub open spec fn answer(g: GreetingView) -> Option<MessageView> {
    match g {
        GreetingView::Accept(_) => Some(
            MessageView::HelloAck { ok: true, reason: Seq::empty() },
        ),
        GreetingView::Refuse(reason) => Some(MessageView::HelloAck { ok: false, reason }),
        GreetingView::NoGreeting => None,
    }
}

/// The message of an optional one.
pub open spec fn opt_message(m: Option<Message>) -> Option<MessageView> {
    match m {
        Some(m) => Some(m@),
        None => None,
    }
}

/// Decides on a connection from its first message; `None` where it was closed before one came.
pub fn handshake(first: Option<Message>, expected_token: &str) -> (res: Greeting)
    ensures
        res@ == greeting(opt_message(first), expected_token@),
{
    match first {
        Some(Message::Hello { protocol_version, token, profile }) => {
            if protocol_version != PROTOCOL_VERSION {
                let mut reason = "protocol mismatch: host=5 client=".to_owned();
                text::push_decimal(&mut reason, protocol_version as u64);
                Greeting::Refuse(reason)
            } else if token.as_str().is_empty() || !text::same(token.as_str(), expected_token) {
                Greeting::Refuse(WRONG_TOKEN.to_owned())
            } else {
                Greeting::Accept(profile)
            }
        },
        _ => Greeting::NoGreeting,
    }
}

/// What is answered to a greeting.
pub fn greeting_answer(g: &Greeting) -> (res: Option<Message>)
    ensures
        opt_message(res) == answer(g@),
{
    match g {
        Greeting::Accept(_) => Some(Message::HelloAck { ok: true, reason: String::new() }),
        Greeting::Refuse(reason) => Some(Message::HelloAck { ok: false, reason: reason.clone() }),
        Greeting::NoGreeting => None,
    }
}

/// Only the right token with the right version gets in; whoever greets and is not let in is told
/// so, with a reason, and the version comes before the token.
pub proof fn only_the_paired_get_in(first: Option<MessageView>, expected: Seq<char>)
    ensures
        greeting(first, expected) is Accept <==> (first matches Some(
            MessageView::Hello { protocol_version, token, .. },
        ) && protocol_version == PROTOCOL_VERSION && token == expected && token.len() > 0),
        (first matches Some(MessageView::Hello { .. })) && greeting(first, expected) !is Accept
            ==> (answer(greeting(first, expected)) matches Some(
            MessageView::HelloAck { ok, reason },
        ) && !ok && reason.len() > 0),
        (first matches Some(MessageView::Hello { protocol_version, .. }) && protocol_version
            != PROTOCOL_VERSION) ==> greeting(first, expected) != GreetingView::Refuse(
            WRONG_TOKEN@,
        ),
        !(first matches Some(MessageView::Hello { .. })) ==> answer(
            greeting(first, expected),
        ) is None,
{
    reveal_strlit("protocol mismatch: host=5 client=");
    reveal_strlit("pairing rejected: wrong or missing token");
    if let Some(MessageView::Hello { protocol_version, .. }) = first {
        if protocol_version != PROTOCOL_VERSION {
            assert(mismatch_text(protocol_version)[1] == 'r');
            assert(WRONG_TOKEN@[1] == 'a');
        }
    }
}

// ---- who holds the screen ----

/// The session that holds the screen, by its number. The newest one that was let in takes it over.
///
/// The view is that number.
pub struct Registry {
    active: Option<u64>,
}

impl View for Registry {
    type V = Option<u64>;

    closed spec fn view(&self) -> Option<u64> {
        self.active
    }
}

/// The registry after a session has ended: it is cleared only where that session still holds it.
pub open spec fn released(active: Option<u64>, id: u64) -> Option<u64> {
    if active == Some(id) {
        None
    } else {
        active
    }
}

/// The registry after a connection has been decided on: only a client that was let in gets the
/// screen.
pub open spec fn registered(active: Option<u64>, id: u64, g: GreetingView) -> Option<u64> {
    if g is Accept {
        Some(id)
    } else {
        active
    }
}

/// A client that was let in.
pub struct Admission {
    pub profile: DeviceProfile,
    /// The session that held the screen.
    pub displaced: Option<u64>,
}

impl Registry {
    pub fn new() -> (res: Self)
        ensures
            res@ is None,
    {
        Registry { active: None }
    }

    /// The session that holds the screen.
    pub fn current(&self) -> (res: Option<u64>)
        ensures
            res == self@,
    {
        self.active
    }

    /// Gives the screen to a session; names the one that has to be stopped, if there is one.
    pub fn take_over(&mut self, id: u64) -> (previous: Option<u64>)
        ensures
            previous == old(self)@,
            final(self)@ == Some(id),
    {
        let previous = self.active;
        self.active = Some(id);
        previous
    }

    /// Registers a connection that has been decided on, where its client was let in: gives what the
    /// client said of itself and the session that has to be stopped, if there is one. A client that
    /// was not let in changes nothing.
    pub fn enter(&mut self, id: u64, g: Greeting) -> (res: Option<Admission>)
        ensures
            final(self)@ == registered(old(self)@, id, g@),
            match res {
                Some(a) => g@ == GreetingView::Accept(a.profile@) && a.displaced == old(self)@,
                None => g@ !is Accept,
            },
    {
        match g {
            Greeting::Accept(profile) => {
                let displaced = self.take_over(id);
                Some(Admission { profile, displaced })
            },
            _ => None,
        }
    }

    /// A session has ended.
    pub fn release(&mut self, id: u64)
        ensures
            final(self)@ == released(old(self)@, id),
    {
        if let Some(a) = self.active {
            if a == id {
                self.active = None;
            }
        }
    }
}

/// A session that was displaced does not clear the registration of the one that displaced it, and
/// one that was not clears its own.
pub proof fn a_displaced_session_leaves_its_successor(old_id: u64, new_id: u64)
    requires
        old_id != new_id,
    ensures
        released(Some(new_id), old_id) == Some(new_id),
        released(Some(old_id), old_id) is None,
        released(released(Some(new_id), old_id), new_id) is None,
{
}

/// A client without the token, or of another version, displaces no one: whoever holds the screen
/// keeps it.
pub proof fn the_unpaired_displace_no_one(
    first: Option<MessageView>,
    expected: Seq<char>,
    active: Option<u64>,
    id: u64,
)
    requires
        !(first matches Some(MessageView::Hello { protocol_version, token, .. })
            && protocol_version == PROTOCOL_VERSION && token == expected && token.len() > 0),
    ensures
        registered(active, id, greeting(first, expected)) == active,
{
}

// ---- messages on the channel ----

/// Why a message could not be received.
#[derive(Debug, Clone, Copy, PartialEq, Eq, Structural)]
pub enum ReceiveError {
    Channel(NoiseError),
    Message(ProtoError),
    /// The payload was empty.
    NoMessage,
    /// The stream ended inside a message.
    CutOff,
}

/// The message in a payload.
pub open spec fn message_in(payload: Seq<u8>) -> Result<MessageView, ReceiveError> {
    match proto::reading(payload).0 {
        Ok(Some(m)) => Ok(m),
        Ok(None) => Err(ReceiveError::NoMessage),
        Err(e) => Err(ReceiveError::Message(e)),
    }
}

/// The message in a payload; what lies behind it is ignored.
pub fn parse_payload(payload: &[u8]) -> (res: Result<Message, ReceiveError>)
    ensures
        message_in(payload@) == (match res {
            Ok(m) => Ok(m@),
            Err(e) => Err(e),
        }),
{
    let mut r: &[u8] = payload;
    match Message::read_from(&mut r) {
        Ok(Some(m)) => Ok(m),
        Ok(None) => Err(ReceiveError::NoMessage),
        Err(e) => Err(ReceiveError::Message(e)),
    }
}

/// Encrypts a message: the frames that are to be written, in order. Nothing is written here, so that
/// the channel is not held while a write blocks.
pub fn send_encrypted(transport: &mut NoiseTransport, msg: &Message) -> (res: Result<
    Vec<Vec<u8>>,
    NoiseError,
>)
    ensures
        ({
            let l = noise::with_length(proto::wire(msg@));
            let (key, nonce) = (old(transport)@.send_key, old(transport)@.send_nonce as int);
            match res {
                Ok(pieces) => {
                    &&& nonce + noise::chunk_count(l) <= u64::MAX
                    &&& pieces@.map_values(|f: Vec<u8>| f@) == noise::frames(key, nonce, l)
                    &&& noise::opens(key, nonce, l)
                    &&& final(transport)@ == (noise::Channel {
                        send_nonce: (nonce + noise::chunk_count(l)) as u64,
                        ..old(transport)@
                    })
                },
                Err(e) => {
                    &&& e == NoiseError::Encrypt
                    &&& nonce + noise::chunk_count(l) > u64::MAX
                    &&& final(transport)@ == (noise::Channel {
                        send_nonce: u64::MAX,
                        ..old(transport)@
                    })
                },
            }
        }),
{
    let mut buf: Vec<u8> = Vec::new();
    msg.write_to(&mut buf);
    assert(buf@ =~= proto::wire(msg@));
    noise::chunk_and_encrypt(transport, buf.as_slice())
}

/// What taking the ciphertext of a frame gives, the number of the next message, and what has arrived
/// of a payload behind it.
pub open spec fn taking_frame(key: Seq<u8>, nonce: int, a: noise::Assembly, c: Seq<u8>) -> (
    Result<Option<MessageView>, ReceiveError>,
    int,
    noise::Assembly,
) {
    match noise::opening(key, nonce, c) {
        None => (Err(ReceiveError::Channel(NoiseError::Decrypt)), nonce, a),
        Some(p) => match noise::assemble(a, p) {
            (Err(e), b) => (Err(ReceiveError::Channel(e)), nonce + 1, b),
            (Ok(None), b) => (Ok(None), nonce + 1, b),
            (Ok(Some(payload)), b) => (
                match message_in(payload) {
                    Ok(m) => Ok(Some(m)),
                    Err(e) => Err(e),
                },
                nonce + 1,
                b,
            ),
        },
    }
}

/// What came of reading the stream.
pub enum Received {
    Message(Message),
    /// The message is not complete yet.
    Partial,
    /// The stream ended between messages.
    Closed,
}

/// A `Received` with its message as a view.
#[verifier::ext_equal]
pub enum ReceivedView {
    Message(MessageView),
    Partial,
    Closed,
}

impl View for Received {
    type V = ReceivedView;

    open spec fn view(&self) -> ReceivedView {
        match *self {
            Received::Message(m) => ReceivedView::Message(m@),
            Received::Partial => ReceivedView::Partial,
            Received::Closed => ReceivedView::Closed,
        }
    }
}

/// What the end of the stream means: a clean end lies between messages.
pub open spec fn ending(a: noise::Assembly) -> Result<ReceivedView, ReceiveError> {
    if a.total is None {
        Ok(ReceivedView::Closed)
    } else {
        Err(ReceiveError::CutOff)
    }
}

/// Takes the ciphertext of the next frame, or `None` where the stream has ended; gives the message
/// when it is complete. Nothing is read here, so that the channel is not held while a read blocks.
pub fn recv_encrypted(
    transport: &mut NoiseTransport,
    reassembler: &mut Reassembler,
    ciphertext: Option<&[u8]>,
) -> (res: Result<Received, ReceiveError>)
    ensures
        match ciphertext {
            Some(c) => {
                let (got, nonce, a) = taking_frame(
                    old(transport)@.recv_key,
                    old(transport)@.recv_nonce as int,
                    old(reassembler)@,
                    c@,
                );
                &&& final(transport)@ == (noise::Channel {
                    recv_nonce: nonce as u64,
                    ..old(transport)@
                })
                &&& final(reassembler)@ == a
                &&& got == (match res {
                    Ok(Received::Message(m)) => Ok(Some(m@)),
                    Ok(_) => Ok(None),
                    Err(e) => Err(e),
                })
                &&& !(res matches Ok(Received::Closed))
            },
            None => {
                &&& final(transport)@ == old(transport)@
                &&& final(reassembler)@ == old(reassembler)@
                &&& ending(old(reassembler)@) == (match res {
                    Ok(r) => Ok(r@),
                    Err(e) => Err(e),
                })
            },
        },
{
    let ciphertext = match ciphertext {
        None => {
            return if reassembler.is_fresh() {
                Ok(Received::Closed)
            } else {
                Err(ReceiveError::CutOff)
            };
        },
        Some(c) => c,
    };
    let plaintext = match transport.decrypt_chunk(ciphertext) {
        Err(e) => {
            return Err(ReceiveError::Channel(e));
        },
        Ok(p) => p,
    };
    match reassembler.push(plaintext.as_slice()) {
        Err(e) => Err(ReceiveError::Channel(e)),
        Ok(None) => Ok(Received::Partial),
        Ok(Some(payload)) => match parse_payload(payload.as_slice()) {
            Ok(m) => Ok(Received::Message(m)),
            Err(e) => Err(e),
        },
    }
}

/// A message that was sent arrives as it was, over a channel whose ends agree on key and number.
pub proof fn a_message_arrives(key: Seq<u8>, nonce: int, m: MessageView, rest: Seq<u8>)
    requires
        proto::payload(m).len() <= proto::MAX_PAYLOAD,
        0 <= nonce,
        nonce + noise::chunk_count(noise::with_length(proto::wire(m))) <= u64::MAX,
        noise::opens(key, nonce, noise::with_length(proto::wire(m))),
    ensures
        ({
            let l = noise::with_length(proto::wire(m));
            let (got, next, left) = noise::receiving(
                key,
                nonce,
                noise::nothing_arrived(),
                noise::joined(noise::frames(key, nonce, l)) + rest,
            );
            &&& got == Ok::<Option<Seq<u8>>, NoiseError>(Some(proto::wire(m)))
            &&& message_in(proto::wire(m)) == Ok::<MessageView, ReceiveError>(m)
            &&& next == nonce + noise::chunk_count(l)
            &&& left == rest
        }),
{
    proto::reading_undoes_writing(m, Seq::empty());
    assert(proto::wire(m) + Seq::<u8>::empty() =~= proto::wire(m));
    crate::bytes::lemma_be_len(proto::payload(m).len(), 4);
    noise::receiving_undoes_sending(key, nonce, proto::wire(m), rest);
}

/// The ciphertexts of the chunks of `l`, which the frames hold.
pub open spec fn ciphertexts(key: Seq<u8>, nonce: int, l: Seq<u8>) -> Seq<Seq<u8>>
    decreases l.len(),
{
    if l.len() == 0 {
        Seq::empty()
    } else {
        seq![noise::sealed(key, nonce as u64, noise::first_chunk(l))] + ciphertexts(
            key,
            nonce + 1,
            noise::after_chunk(l),
        )
    }
}

/// What taking ciphertexts one after the other gives, up to the first that completes a message or
/// fails, and the number of the next message.
pub open spec fn taking_frames(
    key: Seq<u8>,
    nonce: int,
    a: noise::Assembly,
    cs: Seq<Seq<u8>>,
) -> (Result<Option<MessageView>, ReceiveError>, int)
    decreases cs.len(),
{
    if cs.len() == 0 {
        (Ok(None), nonce)
    } else {
        match taking_frame(key, nonce, a, cs[0]) {
            (Ok(None), n, b) => taking_frames(key, n, b, cs.skip(1)),
            (r, n, _) => (r, n),
        }
    }
}

proof fn lemma_taking_rest(
    key: Seq<u8>,
    nonce: int,
    total: u32,
    acc: Seq<u8>,
    l: Seq<u8>,
    m: MessageView,
)
    requires
        0 <= nonce,
        nonce + noise::chunk_count(l) <= u64::MAX,
        noise::opens(key, nonce, l),
        l.len() > 0,
        acc.len() + l.len() == total,
        message_in(acc + l) == Ok::<MessageView, ReceiveError>(m),
    ensures
        taking_frames(
            key,
            nonce,
            noise::Assembly { total: Some(total), acc },
            ciphertexts(key, nonce, l),
        ) == (
            Ok::<Option<MessageView>, ReceiveError>(Some(m)),
            nonce + noise::chunk_count(l),
        ),
    decreases l.len(),
{
    let cs = ciphertexts(key, nonce, l);
    let rest = noise::after_chunk(l);
    let next = acc + noise::first_chunk(l);
    assert(cs.skip(1) =~= ciphertexts(key, nonce + 1, rest));
    if rest.len() == 0 {
        assert(next.take(total as int) =~= acc + l);
        assert(noise::chunk_count(rest) == 0);
    } else {
        assert(next + rest =~= acc + l);
        lemma_taking_rest(key, nonce + 1, total, next, rest, m);
    }
}

proof fn lemma_taking_first(key: Seq<u8>, nonce: int, w: Seq<u8>, m: MessageView)
    requires
        w.len() <= u32::MAX,
        0 <= nonce,
        nonce + noise::chunk_count(noise::with_length(w)) <= u64::MAX,
        noise::opens(key, nonce, noise::with_length(w)),
        message_in(w) == Ok::<MessageView, ReceiveError>(m),
    ensures
        ({
            let l = noise::with_length(w);
            taking_frames(
                key,
                nonce,
                noise::nothing_arrived(),
                ciphertexts(key, nonce, l),
            ) == (
                Ok::<Option<MessageView>, ReceiveError>(Some(m)),
                nonce + noise::chunk_count(l),
            )
        }),
{
    let l = noise::with_length(w);
    let chunk = noise::first_chunk(l);
    let rest = noise::after_chunk(l);
    let cs = ciphertexts(key, nonce, l);
    let total = w.len() as u32;
    let acc = Seq::<u8>::empty() + chunk.skip(4);
    crate::bytes::lemma_be_len(w.len(), 4);
    assert(crate::bytes::be_value(chunk.take(4)) == w.len()) by {
        crate::bytes::lemma_pow256();
        crate::bytes::be_round_trip(w.len(), 4);
        assert(chunk.take(4) =~= crate::bytes::be(w.len(), 4));
    }
    assert(cs.skip(1) =~= ciphertexts(key, nonce + 1, rest));
    assert(noise::opening(key, nonce, cs[0]) == Some(chunk));
    if rest.len() == 0 {
        assert(acc.take(total as int) =~= w);
        assert(noise::chunk_count(rest) == 0);
    } else {
        assert(acc + rest =~= w);
        lemma_taking_rest(key, nonce + 1, total, acc, rest, m);
    }
}

/// Taking the frames of a message one by one gives the message with the last of them, and nothing
/// before.
pub proof fn a_message_arrives_frame_by_frame(key: Seq<u8>, nonce: int, m: MessageView)
    requires
        proto::payload(m).len() <= proto::MAX_PAYLOAD,
        0 <= nonce,
        nonce + noise::chunk_count(noise::with_length(proto::wire(m))) <= u64::MAX,
        noise::opens(key, nonce, noise::with_length(proto::wire(m))),
    ensures
        ({
            let l = noise::with_length(proto::wire(m));
            taking_frames(
                key,
                nonce,
                noise::nothing_arrived(),
                ciphertexts(key, nonce, l),
            ) == (
                Ok::<Option<MessageView>, ReceiveError>(Some(m)),
                nonce + noise::chunk_count(l),
            )
        }),
{
    let w = proto::wire(m);
    let l = noise::with_length(w);
    assert(message_in(w) == Ok::<MessageView, ReceiveError>(m)) by {
        proto::reading_undoes_writing(m, Seq::empty());
        assert(w + Seq::<u8>::empty() =~= w);
    }
    assert(w.len() <= u32::MAX) by {
        crate::bytes::lemma_be_len(proto::payload(m).len(), 4);
    }
    lemma_taking_first(key, nonce, w, m);
}

/// The frames that are written hold those ciphertexts.
pub proof fn frames_hold_the_ciphertexts(key: Seq<u8>, nonce: int, l: Seq<u8>)
    ensures
        noise::frames(key, nonce, l) == ciphertexts(key, nonce, l).map_values(
            |c: Seq<u8>| noise::framed(c),
        ),
    decreases l.len(),
{
    let f = |c: Seq<u8>| noise::framed(c);
    if l.len() > 0 {
        frames_hold_the_ciphertexts(key, nonce + 1, noise::after_chunk(l));
        assert(noise::frames(key, nonce, l) =~= ciphertexts(key, nonce, l).map_values(f));
    } else {
        assert(noise::frames(key, nonce, l) =~= ciphertexts(key, nonce, l).map_values(f));
    }
}

// ---- what a message from the client leads to ----

/// What the side that reads does next.
pub enum ReaderStep {
    /// A `Pong` is sent, with the time at which the `Ping` was read.
    Reply { nonce: u64, t_client_us: u64 },
    SwitchMode(Mode),
    /// A mode with this number is not known, and is not guessed at.
    UnknownMode(u8),
    /// The message goes to the pointer and the keyboard.
    Inject(Message),
    /// The message is not one that a client sends.
    Skip,
    /// The session ends.
    Stop,
}

/// What came from the client.
pub enum Incoming {
    Message(Message),
    /// The client closed the connection.
    Closed,
    /// The connection failed.
    Failed,
}

/// Whether a message is for the pointer or the keyboard.
pub open spec fn is_input(m: MessageView) -> bool {
    m is PointerMotionRelative || m is PointerMotionAbsolute || m is PointerButton || m is Scroll
        || m is Key || m is Text
}

/// Decides on what came from the client.
pub fn run_network_reader(incoming: Incoming) -> (res: ReaderStep)
    ensures
        match incoming {
            Incoming::Closed => res is Stop,
            Incoming::Failed => res is Stop,
            Incoming::Message(m) => match m@ {
                MessageView::Ping { nonce, t_client_us } => res == (ReaderStep::Reply {
                    nonce,
                    t_client_us,
                }),
                MessageView::SetMode { mode } => res == (match modes::mode_of(mode) {
                    Some(x) => ReaderStep::SwitchMode(x),
                    None => ReaderStep::UnknownMode(mode),
                }),
                _ => if is_input(m@) {
                    res == ReaderStep::Inject(m)
                } else {
                    res is Skip
                },
            },
        },
{
    match incoming {
        Incoming::Closed => ReaderStep::Stop,
        Incoming::Failed => ReaderStep::Stop,
        Incoming::Message(m) => match m {
            Message::Ping { nonce, t_client_us } => ReaderStep::Reply { nonce, t_client_us },
            Message::SetMode { mode } => match Mode::from_u8(mode) {
                Some(x) => ReaderStep::SwitchMode(x),
                None => ReaderStep::UnknownMode(mode),
            },
            Message::PointerMotionRelative { .. } => ReaderStep::Inject(m),
            Message::PointerMotionAbsolute { .. } => ReaderStep::Inject(m),
            Message::PointerButton { .. } => ReaderStep::Inject(m),
            Message::Scroll { .. } => ReaderStep::Inject(m),
            Message::Key { .. } => ReaderStep::Inject(m),
            Message::Text { .. } => ReaderStep::Inject(m),
            _ => ReaderStep::Skip,
        },
    }
}

// ---- what is sent to the client ----

/// What waits to be sent, besides pictures.
pub enum Outgoing {
    /// The answer to a `Ping`. The time of sending is put in when it is sent.
    Pong { nonce: u64, t_client_us: u64, t_host_recv_us: u64 },
    /// The announcement of a new format.
    Reconfigure(Message),
    Status { stage: String, ok: bool, detail: String },
}

/// The message that is sent at a time.
pub open spec fn outgoing_view(item: Outgoing, now_us: u64) -> MessageView {
    match item {
        Outgoing::Pong { nonce, t_client_us, t_host_recv_us } => MessageView::Pong {
            nonce,
            t_client_us,
            t_host_recv_us,
            t_host_send_us: now_us,
        },
        Outgoing::Reconfigure(m) => m@,
        Outgoing::Status { stage, ok, detail } => MessageView::Status {
            stage: stage@,
            ok,
            detail: detail@,
        },
    }
}

/// The message to be sent. Before a new format is announced, a picture that waits is thrown away:
/// it has the old one.
pub fn outgoing_message(item: Outgoing, now_us: u64, latest: &mut LatestEncoded) -> (res: Message)
    ensures
        res@ == outgoing_view(item, now_us),
        item is Reconfigure ==> final(latest)@ is None,
        item !is Reconfigure ==> final(latest)@ == old(latest)@,
{
    match item {
        Outgoing::Pong { nonce, t_client_us, t_host_recv_us } => Message::Pong {
            nonce,
            t_client_us,
            t_host_recv_us,
            t_host_send_us: now_us,
        },
        Outgoing::Reconfigure(m) => {
            latest.clear();
            m
        },
        Outgoing::Status { stage, ok, detail } => Message::Status { stage, ok, detail },
    }
}

/// The message that carries a picture.
pub fn frame_message(unit: EncodedUnit) -> (res: Message)
    ensures
        res@ == frame_view(unit),
{
    Message::VideoFrame {
        keyframe: unit.keyframe,
        capture_us: unit.capture_us,
        data: unit.data,
    }
}

// ---- the side that writes ----

/// How far the side that writes has come.
#[derive(Debug, Clone, Copy, PartialEq, Eq, Structural)]
pub enum WriterPhase {
    /// It is about to look whether it is to stop.
    Top,
    /// It empties the queue.
    Draining,
    /// A message off the queue is being sent.
    SendingItem,
    /// It waits for a picture.
    AwaitingPicture,
    /// A picture is being sent.
    SendingPicture,
    Ended,
}

/// What the side that writes is told.
pub enum WriterEvent {
    /// Whether it is to stop.
    Stopped(bool),
    /// What the queue holds next, and the time.
    Next { item: Option<Outgoing>, now_us: u64 },
    /// The picture that is there after some waiting.
    Picture(Option<EncodedUnit>),
    /// Whether the message could be sent.
    Sent(bool),
}

/// What the side that writes does next.
pub enum WriterAction {
    /// Looks whether it is to stop; `picture_sent` tells that a picture has just been sent.
    LookForStop { picture_sent: bool },
    /// Looks into the queue.
    TakeItem,
    /// Waits for a picture, for a short time.
    TakePicture,
    Send(Message),
    Exit,
    /// Goes on as before.
    Nothing,
}

/// A `WriterAction` with its message as a view.
#[verifier::ext_equal]
pub enum WriterActionView {
    LookForStop { picture_sent: bool },
    TakeItem,
    TakePicture,
    Send(MessageView),
    Exit,
    Nothing,
}

impl View for WriterAction {
    type V = WriterActionView;

    open spec fn view(&self) -> WriterActionView {
        match *self {
            WriterAction::LookForStop { picture_sent } => WriterActionView::LookForStop {
                picture_sent,
            },
            WriterAction::TakeItem => WriterActionView::TakeItem,
            WriterAction::TakePicture => WriterActionView::TakePicture,
            WriterAction::Send(m) => WriterActionView::Send(m@),
            WriterAction::Exit => WriterActionView::Exit,
            WriterAction::Nothing => WriterActionView::Nothing,
        }
    }
}

/// The message that carries a picture.
pub open spec fn frame_view(unit: EncodedUnit) -> MessageView {
    MessageView::VideoFrame {
        keyframe: unit.keyframe,
        capture_us: unit.capture_us,
        data: unit.data@,
    }
}

/// Where the side that writes stands after an event, and what it does then: each round it looks
/// whether to stop, empties the queue, and sends the picture that is there. It ends with the first
/// message that cannot be sent.
pub open spec fn writing(p: WriterPhase, e: WriterEvent) -> (WriterPhase, WriterActionView) {
    match (p, e) {
        (WriterPhase::Top, WriterEvent::Stopped(true)) => (
            WriterPhase::Ended,
            WriterActionView::Exit,
        ),
        (WriterPhase::Top, WriterEvent::Stopped(false)) => (
            WriterPhase::Draining,
            WriterActionView::TakeItem,
        ),
        (WriterPhase::Draining, WriterEvent::Next { item: Some(item), now_us }) => (
            WriterPhase::SendingItem,
            WriterActionView::Send(outgoing_view(item, now_us)),
        ),
        (WriterPhase::Draining, WriterEvent::Next { item: None, .. }) => (
            WriterPhase::AwaitingPicture,
            WriterActionView::TakePicture,
        ),
        (WriterPhase::AwaitingPicture, WriterEvent::Picture(Some(unit))) => (
            WriterPhase::SendingPicture,
            WriterActionView::Send(frame_view(unit)),
        ),
        (WriterPhase::AwaitingPicture, WriterEvent::Picture(None)) => (
            WriterPhase::Top,
            WriterActionView::LookForStop { picture_sent: false },
        ),
        (WriterPhase::SendingItem, WriterEvent::Sent(true)) => (
            WriterPhase::Draining,
            WriterActionView::TakeItem,
        ),
        (WriterPhase::SendingPicture, WriterEvent::Sent(true)) => (
            WriterPhase::Top,
            WriterActionView::LookForStop { picture_sent: true },
        ),
        (WriterPhase::SendingItem, WriterEvent::Sent(false)) => (
            WriterPhase::Ended,
            WriterActionView::Exit,
        ),
        (WriterPhase::SendingPicture, WriterEvent::Sent(false)) => (
            WriterPhase::Ended,
            WriterActionView::Exit,
        ),
        _ => (p, WriterActionView::Nothing),
    }
}

/// Whether an event brings the announcement of a new format to the side that writes.
pub open spec fn announces(p: WriterPhase, e: WriterEvent) -> bool {
    p == WriterPhase::Draining && (e matches WriterEvent::Next {
        item: Some(Outgoing::Reconfigure(_)),
        ..
    })
}

/// The side that writes. Nothing else writes to the client while it runs.
///
/// The view is how far it has come.
pub struct Writer {
    phase: WriterPhase,
}

impl View for Writer {
    type V = WriterPhase;

    closed spec fn view(&self) -> WriterPhase {
        self.phase
    }
}

impl Writer {
    /// A writer that is about to look whether it is to stop.
    pub fn new() -> (res: Self)
        ensures
            res@ == WriterPhase::Top,
    {
        Writer { phase: WriterPhase::Top }
    }

    /// Takes what the writer was told, and tells what it does next. A picture that waits in `latest`
    /// is thrown away before a new format is announced.
    pub fn step(&mut self, event: WriterEvent, latest: &mut LatestEncoded) -> (res: WriterAction)
        ensures
            final(self)@ == writing(old(self)@, event).0,
            res@ == writing(old(self)@, event).1,
            final(latest)@ == (if announces(old(self)@, event) {
                None
            } else {
                old(latest)@
            }),
    {
        match (self.phase, event) {
            (WriterPhase::Top, WriterEvent::Stopped(stopped)) => {
                if stopped {
                    self.phase = WriterPhase::Ended;
                    WriterAction::Exit
                } else {
                    self.phase = WriterPhase::Draining;
                    WriterAction::TakeItem
                }
            },
            (WriterPhase::Draining, WriterEvent::Next { item: Some(item), now_us }) => {
                self.phase = WriterPhase::SendingItem;
                WriterAction::Send(outgoing_message(item, now_us, latest))
            },
            (WriterPhase::Draining, WriterEvent::Next { item: None, now_us: _ }) => {
                self.phase = WriterPhase::AwaitingPicture;
                WriterAction::TakePicture
            },
            (WriterPhase::AwaitingPicture, WriterEvent::Picture(Some(unit))) => {
                self.phase = WriterPhase::SendingPicture;
                WriterAction::Send(frame_message(unit))
            },
            (WriterPhase::AwaitingPicture, WriterEvent::Picture(None)) => {
                self.phase = WriterPhase::Top;
                WriterAction::LookForStop { picture_sent: false }
            },
            (WriterPhase::SendingItem, WriterEvent::Sent(true)) => {
                self.phase = WriterPhase::Draining;
                WriterAction::TakeItem
            },
            (WriterPhase::SendingPicture, WriterEvent::Sent(true)) => {
                self.phase = WriterPhase::Top;
                WriterAction::LookForStop { picture_sent: true }
            },
            (WriterPhase::SendingItem, WriterEvent::Sent(false)) => {
                self.phase = WriterPhase::Ended;
                WriterAction::Exit
            },
            (WriterPhase::SendingPicture, WriterEvent::Sent(false)) => {
                self.phase = WriterPhase::Ended;
                WriterAction::Exit
            },
            _ => WriterAction::Nothing,
        }
    }
}

/// Waiting messages go before pictures: a picture is asked for only where the queue is empty. A
/// picture counts as sent only once it could be sent, and after a failure, or once it was told to
/// stop, the writer sends nothing more.
pub proof fn the_writer_keeps_its_order(p: WriterPhase, e: WriterEvent)
    ensures
        writing(p, e).1 is TakePicture ==> (e matches WriterEvent::Next { item: None, .. }),
        writing(p, e).1 == (WriterActionView::LookForStop { picture_sent: true }) <==> p
            == WriterPhase::SendingPicture && e == WriterEvent::Sent(true),
        (p == WriterPhase::SendingItem || p == WriterPhase::SendingPicture) && e
            == WriterEvent::Sent(false) ==> writing(p, e).0 == WriterPhase::Ended,
        p == WriterPhase::Top && e == WriterEvent::Stopped(true) ==> writing(p, e).0
            == WriterPhase::Ended,
        p == WriterPhase::Ended ==> writing(p, e) == (p, WriterActionView::Nothing),
        writing(p, e).1 is Send ==> writing(p, e).0 == WriterPhase::SendingItem || writing(p, e).0
            == WriterPhase::SendingPicture,
{
}

// ---- the watch for the first picture ----

/// How long the stream may show nothing, in seconds, before the client is told.
pub const FIRST_FRAME_GRACE_SECS: u64 = 8;

/// What the client is told then.
pub const NO_VIDEO: &'static str =
    "no video has arrived after 8s, although the connection is fine. The laptop is capturing but producing no encoded frames -- run `palmtopd --doctor` on it; a GPU render node that cannot encode is the usual cause.";

/// What the watch does next.
pub enum WatchStep {
    /// There is nothing more to watch for.
    Done,
    /// It looks again a little later.
    Wait,
    /// The client is told.
    Tell(Outgoing),
}

/// Decides what the watch does: it is over once a picture has been sent or the session has stopped,
/// and tells the client when the time is up.
pub fn watch_first_frame(time_is_up: bool, stopped: bool, sent_a_frame: bool) -> (res: WatchStep)
    ensures
        if stopped || sent_a_frame {
            res is Done
        } else if !time_is_up {
            res is Wait
        } else {
            &&& res matches WatchStep::Tell(o)
            &&& o is Status
            &&& outgoing_view(o, 0) == (MessageView::Status {
                stage: "stream"@,
                ok: false,
                detail: NO_VIDEO@,
            })
        },
{
    if stopped || sent_a_frame {
        WatchStep::Done
    } else if !time_is_up {
        WatchStep::Wait
    } else {
        WatchStep::Tell(
            Outgoing::Status {
                stage: "stream".to_owned(),
                ok: false,
                detail: NO_VIDEO.to_owned(),
            },
        )
    }
}

// ---- the course of a session ----

/// The announcement of a format.
pub open spec fn announcement(codec: Seq<char>, mode: Mode, p: Preset) -> MessageView {
    MessageView::VideoConfig {
        codec,
        width: p.width,
        height: p.height,
        fps: p.fps,
        mode: modes::mode_code(mode),
        drop_budget_ms: p.drop_budget_ms,
    }
}

fn announce(codec: &str, mode: Mode, preset: &Preset) -> (res: Message)
    ensures
        res@ == announcement(codec@, mode, *preset),
{
    Message::VideoConfig {
        codec: codec.to_owned(),
        width: preset.width,
        height: preset.height,
        fps: preset.fps,
        mode: mode.as_u8(),
        drop_budget_ms: preset.drop_budget_ms,
    }
}

/// A report on a stage.
pub open spec fn status(stage: Seq<char>, ok: bool, detail: Seq<char>) -> MessageView {
    MessageView::Status { stage, ok, detail }
}

fn status_message(stage: &str, ok: bool, detail: &str) -> (res: Message)
    ensures
        res@ == status(stage@, ok, detail@),
{
    Message::Status { stage: stage.to_owned(), ok, detail: detail.to_owned() }
}

/// The report that a capture ended with an error.
pub fn capture_stopped(error: &str) -> (res: Outgoing)
    ensures
        res is Status,
        outgoing_view(res, 0) == status("capture"@, false, "screen capture stopped: "@ + error@),
{
    Outgoing::Status {
        stage: "capture".to_owned(),
        ok: false,
        detail: "screen capture stopped: ".to_owned().concat(error),
    }
}

pub const ASKING: &'static str =
    "asking for screen-share permission -- approve the dialog on the laptop";

/// What is said where the screen could not be shared.
pub open spec fn portal_failed_text(error: Seq<char>) -> Seq<char> {
    "the laptop could not start screen sharing: "@ + error
        + "\nRun `palmtopd --doctor` on the laptop for the specific cause."@
}

/// What is said once the screen is shared.
pub open spec fn portal_ok_text(width: u32, height: u32) -> Seq<char> {
    "screen sharing approved -- capturing "@ + text::decimal(width as nat) + "x"@ + text::decimal(
        height as nat,
    )
}

/// What is said where the encoder could not be started.
pub open spec fn encoder_failed_text(error: Seq<char>) -> Seq<char> {
    "the laptop could not start its video encoder: "@ + error
        + "\nRun `palmtopd --doctor` on the laptop -- this is usually the GPU render node being wrong, or ffmpeg missing."@
}

fn encoder_failed(error: &str) -> (res: String)
    ensures
        res@ == encoder_failed_text(error@),
{
    let mut detail = "the laptop could not start its video encoder: ".to_owned();
    detail.append(error);
    detail.append(
        "\nRun `palmtopd --doctor` on the laptop -- this is usually the GPU render node being wrong, or ffmpeg missing.",
    );
    detail
}

/// What is said once the encoder runs.
pub open spec fn encoding_text(mode: Mode, p: Preset, backend: Seq<char>) -> Seq<char> {
    "encoding "@ + text::decimal(p.width as nat) + "x"@ + text::decimal(p.height as nat) + "@"@
        + text::decimal(p.fps as nat) + " on "@ + backend + " ("@ + modes::mode_name(mode)
        + " mode)"@
}

/// How far a session has come.
#[derive(Debug, Clone, Copy, PartialEq, Eq, Structural)]
pub enum Phase {
    /// The client has been let in.
    Admitted,
    /// Permission to capture the screen has been asked for.
    AwaitingScreen,
    /// The encoder is being started for the first time.
    StartingEncoder,
    /// The stream runs.
    Streaming,
    /// The encoder is being started again, for another mode.
    RestartingEncoder,
    Ended,
}

/// What happened.
pub enum SessionEvent {
    /// The session begins.
    Begin,
    /// The screen is shared, with this size.
    ScreenShared { width: u32, height: u32 },
    /// It is not, for this reason.
    ScreenRefused(String),
    EncoderStarted,
    /// It could not be, for this reason.
    EncoderFailed(String),
    /// The client asks for a mode.
    ModeRequested(Mode),
    /// Nothing happened for a while.
    Idle,
    /// The session is to stop: the client is gone, or another one has taken over.
    StopRequested,
}

/// What is to be done.
pub enum SessionAction {
    /// The message is sent right away; that it cannot be sent does not matter.
    SendNow(Message),
    AskForScreen,
    StartCapture,
    SetSendBuffer(usize),
    StartEncoder(Preset),
    /// The encoder is stopped, and has ended when this is done: nothing of it can be published
    /// afterwards.
    StopEncoder,
    StartWriter,
    StartWatch,
    StartReader,
    /// The message is sent by the side that writes, in its turn; a new format throws away what
    /// waits.
    Queue(Outgoing),
    /// Every message that was queued before has been sent when this is done, unless the client cannot
    /// be reached any more.
    SendQueued,
    /// Every part of the session is told to stop.
    SignalStop,
    /// The connection is closed, which frees whoever waits on it.
    Disconnect,
    /// Every part of the session has ended when this is done.
    WaitForAll,
    /// The session is over; `failed` tells whether by a failure.
    Finish { failed: bool },
}

/// An action with its messages as views.
#[verifier::ext_equal]
pub enum ActionView {
    SendNow(MessageView),
    AskForScreen,
    StartCapture,
    SetSendBuffer(usize),
    StartEncoder(Preset),
    StopEncoder,
    StartWriter,
    StartWatch,
    StartReader,
    /// A message in its turn.
    Queue(MessageView),
    /// A new format in its turn.
    Announce(MessageView),
    SendQueued,
    SignalStop,
    Disconnect,
    WaitForAll,
    Finish { failed: bool },
}

impl View for SessionAction {
    type V = ActionView;

    open spec fn view(&self) -> ActionView {
        match *self {
            SessionAction::SendNow(m) => ActionView::SendNow(m@),
            SessionAction::AskForScreen => ActionView::AskForScreen,
            SessionAction::StartCapture => ActionView::StartCapture,
            SessionAction::SetSendBuffer(n) => ActionView::SetSendBuffer(n),
            SessionAction::StartEncoder(p) => ActionView::StartEncoder(p),
            SessionAction::StopEncoder => ActionView::StopEncoder,
            SessionAction::StartWriter => ActionView::StartWriter,
            SessionAction::StartWatch => ActionView::StartWatch,
            SessionAction::StartReader => ActionView::StartReader,
            SessionAction::Queue(Outgoing::Reconfigure(m)) => ActionView::Announce(m@),
            SessionAction::Queue(o) => ActionView::Queue(outgoing_view(o, 0)),
            SessionAction::SendQueued => ActionView::SendQueued,
            SessionAction::SignalStop => ActionView::SignalStop,
            SessionAction::Disconnect => ActionView::Disconnect,
            SessionAction::WaitForAll => ActionView::WaitForAll,
            SessionAction::Finish { failed } => ActionView::Finish { failed },
        }
    }
}

/// The views of a list of actions.
pub open spec fn action_views(v: Seq<SessionAction>) -> Seq<ActionView> {
    v.map_values(|a: SessionAction| a@)
}

/// Where a session stands.
#[verifier::ext_equal]
pub struct SessionView {
    pub phase: Phase,
    pub mode: Mode,
    pub profile: ProfileView,
    pub codec: Seq<char>,
    pub backend: Seq<char>,
}

/// The preset of a session: that of its mode, fitted to the client.
pub open spec fn session_preset(s: SessionView) -> Preset {
    modes::fitted(modes::preset_of(s.mode), s.profile)
}

/// What an event leads to: where the session stands then, and what is to be done. An event that
/// does not belong to the phase is ignored.
pub open spec fn transition(s: SessionView, e: SessionEvent) -> (SessionView, Seq<ActionView>) {
    let p = session_preset(s);
    match (s.phase, e) {
        (Phase::Admitted, SessionEvent::Begin) => (
            SessionView { phase: Phase::AwaitingScreen, ..s },
            seq![
                ActionView::SendNow(status("portal"@, true, ASKING@)),
                ActionView::AskForScreen,
            ],
        ),
        (Phase::AwaitingScreen, SessionEvent::ScreenRefused(error)) => (
            SessionView { phase: Phase::Ended, ..s },
            seq![
                ActionView::SendNow(status("portal"@, false, portal_failed_text(error@))),
                ActionView::Finish { failed: true },
            ],
        ),
        (Phase::AwaitingScreen, SessionEvent::ScreenShared { width, height }) => (
            SessionView { phase: Phase::StartingEncoder, ..s },
            seq![
                ActionView::SendNow(status("portal"@, true, portal_ok_text(width, height))),
                ActionView::StartCapture,
                ActionView::SetSendBuffer(p.sndbuf_bytes),
                ActionView::StartEncoder(p),
            ],
        ),
        (Phase::StartingEncoder, SessionEvent::EncoderFailed(error)) => (
            SessionView { phase: Phase::Ended, ..s },
            seq![
                ActionView::SendNow(status("encode"@, false, encoder_failed_text(error@))),
                ActionView::Finish { failed: true },
            ],
        ),
        (Phase::StartingEncoder, SessionEvent::EncoderStarted) => (
            SessionView { phase: Phase::Streaming, ..s },
            seq![
                ActionView::StartWriter,
                ActionView::StartWatch,
                ActionView::Announce(announcement(s.codec, s.mode, p)),
                ActionView::Queue(status("encode"@, true, encoding_text(s.mode, p, s.backend))),
                ActionView::StartReader,
            ],
        ),
        (Phase::Streaming, SessionEvent::ModeRequested(mode)) => {
            let t = SessionView { phase: Phase::RestartingEncoder, mode, ..s };
            (
                t,
                seq![
                    ActionView::StopEncoder,
                    ActionView::SetSendBuffer(session_preset(t).sndbuf_bytes),
                    ActionView::StartEncoder(session_preset(t)),
                ],
            )
        },
        (Phase::RestartingEncoder, SessionEvent::EncoderStarted) => (
            SessionView { phase: Phase::Streaming, ..s },
            seq![ActionView::Announce(announcement(s.codec, s.mode, p))],
        ),
        (Phase::RestartingEncoder, SessionEvent::EncoderFailed(error)) => (
            SessionView { phase: Phase::Ended, ..s },
            seq![
                ActionView::Queue(status("encode"@, false, encoder_failed_text(error@))),
                ActionView::SendQueued,
                ActionView::SignalStop,
                ActionView::Disconnect,
                ActionView::WaitForAll,
                ActionView::Finish { failed: true },
            ],
        ),
        (Phase::Streaming, SessionEvent::StopRequested) => (
            SessionView { phase: Phase::Ended, ..s },
            seq![
                ActionView::SignalStop,
                ActionView::StopEncoder,
                ActionView::WaitForAll,
                ActionView::Finish { failed: false },
            ],
        ),
        _ => (s, Seq::empty()),
    }
}

/// The course of one session.
pub struct Session {
    phase: Phase,
    mode: Mode,
    profile: DeviceProfile,
    codec: String,
    backend: String,
}

impl View for Session {
    type V = SessionView;

    closed spec fn view(&self) -> SessionView {
        SessionView {
            phase: self.phase,
            mode: self.mode,
            profile: self.profile@,
            codec: self.codec@,
            backend: self.backend@,
        }
    }
}

fn push_action(v: &mut Vec<SessionAction>, a: SessionAction)
    ensures
        action_views(final(v)@) == action_views(old(v)@).push(a@),
{
    let ghost seen = a@;
    v.push(a);
    assert(action_views(v@) =~= action_views(old(v)@).push(seen));
}

impl Session {
    /// A session of a client that was let in, which has said this of itself; the configured codec,
    /// and the encoder as people know it.
    pub fn new(profile: DeviceProfile, codec: String, backend: String) -> (res: Self)
        ensures
            res@ == (SessionView {
                phase: Phase::Admitted,
                mode: Mode::Balanced,
                profile: profile@,
                codec: codec@,
                backend: backend@,
            }),
    {
        Session { phase: Phase::Admitted, mode: Mode::default(), profile, codec, backend }
    }

    pub fn phase(&self) -> (res: Phase)
        ensures
            res == self@.phase,
    {
        self.phase
    }

    /// The mode of the stream.
    pub fn mode(&self) -> (res: Mode)
        ensures
            res == self@.mode,
    {
        self.mode
    }

    /// The preset of the stream.
    pub fn preset(&self) -> (res: Preset)
        ensures
            res == session_preset(self@),
    {
        self.mode.preset().clamped_to(&self.profile)
    }

    /// Takes what happened, and tells what is to be done, in this order.
    pub fn handle(&mut self, event: SessionEvent) -> (out: Vec<SessionAction>)
        ensures
            final(self)@ == transition(old(self)@, event).0,
            action_views(out@) == transition(old(self)@, event).1,
    {
        let ghost expected = transition(self@, event).1;
        let mut out: Vec<SessionAction> = Vec::new();
        assert(action_views(out@) =~= Seq::<ActionView>::empty());
        match (self.phase, event) {
            (Phase::Admitted, SessionEvent::Begin) => {
                self.phase = Phase::AwaitingScreen;
                push_action(&mut out, SessionAction::SendNow(status_message("portal", true, ASKING)));
                push_action(&mut out, SessionAction::AskForScreen);
            },
            (Phase::AwaitingScreen, SessionEvent::ScreenRefused(error)) => {
                self.phase = Phase::Ended;
                let mut detail = "the laptop could not start screen sharing: ".to_owned();
                detail.append(error.as_str());
                detail.append("\nRun `palmtopd --doctor` on the laptop for the specific cause.");
                push_action(
                    &mut out,
                    SessionAction::SendNow(status_message("portal", false, detail.as_str())),
                );
                push_action(&mut out, SessionAction::Finish { failed: true });
            },
            (Phase::AwaitingScreen, SessionEvent::ScreenShared { width, height }) => {
                self.phase = Phase::StartingEncoder;
                let preset = self.preset();
                let mut detail = "screen sharing approved -- capturing ".to_owned();
                text::push_decimal(&mut detail, width as u64);
                detail.append("x");
                text::push_decimal(&mut detail, height as u64);
                push_action(
                    &mut out,
                    SessionAction::SendNow(status_message("portal", true, detail.as_str())),
                );
                push_action(&mut out, SessionAction::StartCapture);
                push_action(&mut out, SessionAction::SetSendBuffer(preset.sndbuf_bytes));
                push_action(&mut out, SessionAction::StartEncoder(preset));
            },
            (Phase::StartingEncoder, SessionEvent::EncoderFailed(error)) => {
                self.phase = Phase::Ended;
                let detail = encoder_failed(error.as_str());
                push_action(
                    &mut out,
                    SessionAction::SendNow(status_message("encode", false, detail.as_str())),
                );
                push_action(&mut out, SessionAction::Finish { failed: true });
            },
            (Phase::StartingEncoder, SessionEvent::EncoderStarted) => {
                self.phase = Phase::Streaming;
                let preset = self.preset();
                push_action(&mut out, SessionAction::StartWriter);
                push_action(&mut out, SessionAction::StartWatch);
                push_action(
                    &mut out,
                    SessionAction::Queue(
                        Outgoing::Reconfigure(announce(self.codec.as_str(), self.mode, &preset)),
                    ),
                );
                let mut detail = "encoding ".to_owned();
                text::push_decimal(&mut detail, preset.width as u64);
                detail.append("x");
                text::push_decimal(&mut detail, preset.height as u64);
                detail.append("@");
                text::push_decimal(&mut detail, preset.fps as u64);
                detail.append(" on ");
                detail.append(self.backend.as_str());
                detail.append(" (");
                detail.append(self.mode.name());
                detail.append(" mode)");
                push_action(
                    &mut out,
                    SessionAction::Queue(
                        Outgoing::Status { stage: "encode".to_owned(), ok: true, detail },
                    ),
                );
                push_action(&mut out, SessionAction::StartReader);
            },
            (Phase::Streaming, SessionEvent::ModeRequested(mode)) => {
                self.phase = Phase::RestartingEncoder;
                self.mode = mode;
                let preset = self.preset();
                push_action(&mut out, SessionAction::StopEncoder);
                push_action(&mut out, SessionAction::SetSendBuffer(preset.sndbuf_bytes));
                push_action(&mut out, SessionAction::StartEncoder(preset));
            },
            (Phase::RestartingEncoder, SessionEvent::EncoderStarted) => {
                self.phase = Phase::Streaming;
                let preset = self.preset();
                push_action(
                    &mut out,
                    SessionAction::Queue(
                        Outgoing::Reconfigure(announce(self.codec.as_str(), self.mode, &preset)),
                    ),
                );
            },
            (Phase::RestartingEncoder, SessionEvent::EncoderFailed(error)) => {
                self.phase = Phase::Ended;
                let detail = encoder_failed(error.as_str());
                push_action(
                    &mut out,
                    SessionAction::Queue(
                        Outgoing::Status { stage: "encode".to_owned(), ok: false, detail },
                    ),
                );
                push_action(&mut out, SessionAction::SendQueued);
                push_action(&mut out, SessionAction::SignalStop);
                push_action(&mut out, SessionAction::Disconnect);
                push_action(&mut out, SessionAction::WaitForAll);
                push_action(&mut out, SessionAction::Finish { failed: true });
            },
            (Phase::Streaming, SessionEvent::StopRequested) => {
                self.phase = Phase::Ended;
                push_action(&mut out, SessionAction::SignalStop);
                push_action(&mut out, SessionAction::StopEncoder);
                push_action(&mut out, SessionAction::WaitForAll);
                push_action(&mut out, SessionAction::Finish { failed: false });
            },
            _ => {},
        }
        assert(action_views(out@) =~= expected);
        out
    }
}

// ---- laws of the course ----

/// Whether there is an encoder in a phase.
pub open spec fn has_encoder(p: Phase) -> bool {
    p == Phase::StartingEncoder || p == Phase::Streaming || p == Phase::RestartingEncoder
}

/// Whether there is an encoder when the actions for an event begin: one that failed to start is
/// none.
pub open spec fn encoder_before(s: SessionView, e: SessionEvent) -> bool {
    has_encoder(s.phase) && !(e is EncoderFailed && s.phase != Phase::Streaming)
}

/// Whether there is an encoder after some actions; nothing where an encoder was started beside
/// another, stopped where there was none, or a format announced that none encodes.
pub open spec fn encoder_after(running: bool, actions: Seq<ActionView>) -> Option<bool>
    decreases actions.len(),
{
    if actions.len() == 0 {
        Some(running)
    } else {
        match actions[0] {
            ActionView::StartEncoder(_) => if running {
                None
            } else {
                encoder_after(true, actions.skip(1))
            },
            ActionView::StopEncoder => if running {
                encoder_after(false, actions.skip(1))
            } else {
                None
            },
            ActionView::Announce(_) => if running {
                encoder_after(running, actions.skip(1))
            } else {
                None
            },
            _ => encoder_after(running, actions.skip(1)),
        }
    }
}

/// There is never more than one encoder, none is stopped that does not run, and a format is
/// announced only while the encoder for it runs. In particular a mode is switched by stopping the
/// old encoder completely before the new one is started, and the new format is announced after that.
pub proof fn encoders_never_overlap(s: SessionView, e: SessionEvent)
    ensures
        encoder_after(encoder_before(s, e), transition(s, e).1) == Some(
            has_encoder(transition(s, e).0.phase),
        ),
{
    let acts = transition(s, e).1;
    reveal_with_fuel(encoder_after, 7);
    let rest = |k: int| acts.skip(k);
    assert forall|k: int| 0 <= k < acts.len() implies #[trigger] rest(k)[0] == acts[k] && rest(k).skip(1)
        =~= rest(k + 1) by {}
    assert(rest(0) =~= acts);
    if acts.len() > 1 {
        assert(rest(1)[0] == acts[1]);
    }
    if acts.len() > 2 {
        assert(rest(2)[0] == acts[2]);
    }
    if acts.len() > 3 {
        assert(rest(3)[0] == acts[3]);
    }
    if acts.len() > 4 {
        assert(rest(4)[0] == acts[4]);
    }
    if acts.len() > 5 {
        assert(rest(5)[0] == acts[5]);
    }
}

/// Where a session stands after some events.
pub open spec fn after_events(s: SessionView, events: Seq<SessionEvent>) -> SessionView
    decreases events.len(),
{
    if events.len() == 0 {
        s
    } else {
        after_events(transition(s, events[0]).0, events.skip(1))
    }
}

/// Whether there is an encoder after some events; nothing where one of them leads to what
/// `encoder_after` rules out.
pub open spec fn encoder_along(s: SessionView, running: bool, events: Seq<SessionEvent>) -> Option<
    bool,
>
    decreases events.len(),
{
    if events.len() == 0 {
        Some(running)
    } else {
        let e = events[0];
        match encoder_after(running && encoder_before(s, e), transition(s, e).1) {
            Some(r) => encoder_along(transition(s, e).0, r, events.skip(1)),
            None => None,
        }
    }
}

/// In no course of a session are there ever two encoders, whatever happens in which order.
pub proof fn no_course_has_two_encoders(s: SessionView, events: Seq<SessionEvent>)
    ensures
        encoder_along(s, has_encoder(s.phase), events) == Some(
            has_encoder(after_events(s, events).phase),
        ),
    decreases events.len(),
{
    if events.len() > 0 {
        encoders_never_overlap(s, events[0]);
        no_course_has_two_encoders(transition(s, events[0]).0, events.skip(1));
    }
}

/// Whether the side that writes runs in a phase.
pub open spec fn has_writer(p: Phase) -> bool {
    p == Phase::Streaming || p == Phase::RestartingEncoder
}

/// Only the side that writes sends, once it has been started: nothing is sent past it, so that no
/// two messages mix.
pub proof fn only_the_writer_sends_once_it_runs(s: SessionView, e: SessionEvent, i: int, j: int)
    requires
        0 <= i < transition(s, e).1.len(),
        transition(s, e).1[i] is SendNow,
    ensures
        !has_writer(s.phase),
        0 <= j < i ==> transition(s, e).1[j] !is StartWriter,
{
}

/// The reason for which the screen or the encoder failed, as the client is told.
pub open spec fn failure_report(e: SessionEvent) -> Option<MessageView> {
    match e {
        SessionEvent::ScreenRefused(error) => Some(
            status("portal"@, false, portal_failed_text(error@)),
        ),
        SessionEvent::EncoderFailed(error) => Some(
            status("encode"@, false, encoder_failed_text(error@)),
        ),
        _ => None,
    }
}

/// A session that ends because the screen could not be shared, or because its encoder could not be
/// started, at first or again for another mode, has told the client why before. Where the side that
/// writes runs, the report goes through it, and has been sent before anything is told to stop.
pub proof fn a_failed_start_is_told(s: SessionView, e: SessionEvent)
    requires
        s.phase == Phase::AwaitingScreen || s.phase == Phase::StartingEncoder || s.phase
            == Phase::RestartingEncoder,
        transition(s, e).0.phase == Phase::Ended,
    ensures
        ({
            let acts = transition(s, e).1;
            &&& failure_report(e) matches Some(m)
            &&& acts.len() >= 2
            &&& acts.last() == (ActionView::Finish { failed: true })
            &&& !has_writer(s.phase) ==> acts[0] == ActionView::SendNow(m)
            &&& has_writer(s.phase) ==> acts[0] == ActionView::Queue(m) && acts[1]
                == ActionView::SendQueued
            &&& forall|i: int|
                0 <= i < acts.len() && (#[trigger] acts[i] is SignalStop || acts[i] is Disconnect)
                    ==> has_writer(s.phase) && i > 1
        }),
{
}

/// A session that ends while its parts run has told all of them to stop, and waited for them.
pub proof fn an_ended_session_leaves_nothing_running(s: SessionView, e: SessionEvent)
    requires
        has_writer(s.phase),
        transition(s, e).0.phase == Phase::Ended,
    ensures
        ({
            let acts = transition(s, e).1;
            let n = acts.len() as int;
            &&& n >= 3
            &&& acts[n - 1] is Finish
            &&& acts[n - 2] == ActionView::WaitForAll
            &&& acts.contains(ActionView::SignalStop)
        }),
{
    let acts = transition(s, e).1;
    if s.phase == Phase::Streaming {
        assert(acts[0] == ActionView::SignalStop);
    } else {
        assert(acts[2] == ActionView::SignalStop);
    }
}

/// The format that is announced for an encoder is the one it was started with: an encoder that is
/// asked for is announced, once it runs, with the size and the rate it was asked for with.
pub proof fn the_format_announced_is_the_one_encoded(s: SessionView, e: SessionEvent, i: int)
    requires
        0 <= i < transition(s, e).1.len(),
        transition(s, e).1[i] is StartEncoder,
    ensures
        ({
            let p = transition(s, e).1[i]->StartEncoder_0;
            let t = transition(s, e).0;
            let acts = transition(t, SessionEvent::EncoderStarted).1;
            acts.contains(ActionView::Announce(announcement(t.codec, t.mode, p)))
        }),
{
    let p = transition(s, e).1[i]->StartEncoder_0;
    let t = transition(s, e).0;
    let acts = transition(t, SessionEvent::EncoderStarted).1;
    let k: int = if t.phase == Phase::StartingEncoder {
        2
    } else {
        0
    };
    assert(acts[k] == ActionView::Announce(announcement(t.codec, t.mode, p)));
}

/// A session that has ended does nothing more.
pub proof fn an_ended_session_stays_ended(s: SessionView, e: SessionEvent)
    requires
        s.phase == Phase::Ended,
    ensures
        transition(s, e) == (s, Seq::<ActionView>::empty()),
{
}

/// No format is ever announced that is larger or faster than the client claims to decode.
pub proof fn announcements_fit_the_client(s: SessionView, e: SessionEvent, i: int)
    requires
        0 <= i < transition(s, e).1.len(),
        transition(s, e).1[i] is Announce,
    ensures
        transition(s, e).1[i] matches ActionView::Announce(
            MessageView::VideoConfig { width, height, fps, .. },
        ) && (s.profile.max_decode_width > 0 ==> width <= s.profile.max_decode_width) && (
        s.profile.max_decode_height > 0 ==> height <= s.profile.max_decode_height) && (
        s.profile.max_decode_fps > 0 ==> fps <= s.profile.max_decode_fps),
{
}

/// A stream that is asked for a mode goes over to that mode, whichever it is: the one encoder that is
/// started has the preset of that mode, fitted to the client, with its send buffer; and what is
/// announced once it runs is the number of that mode, with the measures of that preset. Nothing else
/// of the session changes, and the stream then runs on.
pub proof fn a_stream_goes_over_to_the_mode_asked_for(s: SessionView, m: Mode, i: int)
    requires
        s.phase == Phase::Streaming,
    ensures
        ({
            let (t, done) = transition(s, SessionEvent::ModeRequested(m));
            let (u, told) = transition(t, SessionEvent::EncoderStarted);
            let p = modes::fitted(modes::preset_of(m), s.profile);
            &&& t.mode == m && u.mode == m
            &&& t.profile == s.profile && t.codec == s.codec && t.backend == s.backend
            &&& u.profile == s.profile && u.codec == s.codec && u.backend == s.backend
            &&& u.phase == Phase::Streaming
            &&& done.len() == 3
            &&& done[0] is StopEncoder
            &&& done[1] == ActionView::SetSendBuffer(p.sndbuf_bytes)
            &&& 0 <= i < done.len() && done[i] is StartEncoder ==> i == 2
            &&& done[2] == ActionView::StartEncoder(p)
            &&& told.len() == 1
            &&& told[0] matches ActionView::Announce(
                MessageView::VideoConfig { codec, width, height, fps, mode, drop_budget_ms },
            )
            &&& mode == modes::mode_code(m)
            &&& modes::mode_of(mode) == Some(m)
            &&& codec == s.codec
            &&& (width, height, fps) == (p.width, p.height, p.fps)
            &&& drop_budget_ms == p.drop_budget_ms
        }),
{
}

/// Nothing but such a request changes the mode, and nothing at all what the client has said of itself,
/// the codec or the encoder.
pub proof fn only_a_request_changes_the_mode(s: SessionView, e: SessionEvent)
    ensures
        ({
            let t = transition(s, e).0;
            &&& !(s.phase == Phase::Streaming && e is ModeRequested) ==> t.mode == s.mode
            &&& t.profile == s.profile
            &&& t.codec == s.codec
            &&& t.backend == s.backend
        }),
{
}

/// The steps of a session: it is begun, waits for the screen, starts the encoder, and streams; from
/// there it starts another encoder and streams again, or ends. It ends too where the screen or an
/// encoder fails, and nothing else moves it.
pub proof fn a_session_takes_its_steps_in_order(s: SessionView, e: SessionEvent)
    ensures
        ({
            let (t, acts) = transition(s, e);
            let moves = match s.phase {
                Phase::Admitted => e is Begin,
                Phase::AwaitingScreen => e is ScreenShared || e is ScreenRefused,
                Phase::StartingEncoder => e is EncoderStarted || e is EncoderFailed,
                Phase::Streaming => e is ModeRequested || e is StopRequested,
                Phase::RestartingEncoder => e is EncoderStarted || e is EncoderFailed,
                Phase::Ended => false,
            };
            &&& !moves ==> t == s && acts == Seq::<ActionView>::empty()
            &&& moves && e is Begin ==> t.phase == Phase::AwaitingScreen
            &&& moves && e is ScreenShared ==> t.phase == Phase::StartingEncoder
            &&& moves && e is EncoderStarted ==> t.phase == Phase::Streaming
            &&& moves && e is ModeRequested ==> t.phase == Phase::RestartingEncoder
            &&& moves && (e is ScreenRefused || e is EncoderFailed || e is StopRequested) ==> t.phase
                == Phase::Ended
        }),
{
}

/// At its beginning a session asks for the screen, and the client is told beforehand that the laptop
/// waits for someone to agree. Once the screen is shared the client is told its size, and the capture,
/// the send buffer and the encoder follow, with the preset of the mode fitted to the client.
pub proof fn a_session_asks_for_the_screen_first(s: SessionView, width: u32, height: u32)
    ensures
        s.phase == Phase::Admitted ==> transition(s, SessionEvent::Begin).1 == seq![
            ActionView::SendNow(
                MessageView::Status {
                    stage: "portal"@,
                    ok: true,
                    detail: "asking for screen-share permission -- approve the dialog on the laptop"@,
                },
            ),
            ActionView::AskForScreen,
        ],
        s.phase == Phase::AwaitingScreen ==> ({
            let acts = transition(s, SessionEvent::ScreenShared { width, height }).1;
            let p = modes::fitted(modes::preset_of(s.mode), s.profile);
            &&& acts.len() == 4
            &&& acts[0] == ActionView::SendNow(
                MessageView::Status {
                    stage: "portal"@,
                    ok: true,
                    detail: "screen sharing approved -- capturing "@ + text::decimal(width as nat)
                        + "x"@ + text::decimal(height as nat),
                },
            )
            &&& acts[1] is StartCapture
            &&& acts[2] == ActionView::SetSendBuffer(p.sndbuf_bytes)
            &&& acts[3] == ActionView::StartEncoder(p)
        }),
{
}

/// Once the first encoder runs, the side that writes is started before anything is queued, the format
/// is announced before anything else is told, the client is told what is encoded, on what and in which
/// mode, and the side that reads is started last.
pub proof fn a_stream_begins_with_its_format(s: SessionView)
    requires
        s.phase == Phase::StartingEncoder,
    ensures
        ({
            let acts = transition(s, SessionEvent::EncoderStarted).1;
            let p = modes::fitted(modes::preset_of(s.mode), s.profile);
            &&& acts.len() == 5
            &&& acts[0] is StartWriter
            &&& acts[1] is StartWatch
            &&& acts[2] == ActionView::Announce(
                MessageView::VideoConfig {
                    codec: s.codec,
                    width: p.width,
                    height: p.height,
                    fps: p.fps,
                    mode: modes::mode_code(s.mode),
                    drop_budget_ms: p.drop_budget_ms,
                },
            )
            &&& acts[3] == ActionView::Queue(
                MessageView::Status {
                    stage: "encode"@,
                    ok: true,
                    detail: "encoding "@ + text::decimal(p.width as nat) + "x"@ + text::decimal(
                        p.height as nat,
                    ) + "@"@ + text::decimal(p.fps as nat) + " on "@ + s.backend + " ("@
                        + modes::mode_name(s.mode) + " mode)"@,
                },
            )
            &&& acts[4] is StartReader
        }),
{
}

/// What the client is told of a failure holds the reason, and where to look.
pub proof fn a_failure_is_told_with_its_reason(s: SessionView, error: String)
    ensures
        ({
            let acts = transition(s, SessionEvent::ScreenRefused(error)).1;
            s.phase == Phase::AwaitingScreen ==> acts == seq![
                ActionView::SendNow(
                    MessageView::Status {
                        stage: "portal"@,
                        ok: false,
                        detail: "the laptop could not start screen sharing: "@ + error@
                            + "\nRun `palmtopd --doctor` on the laptop for the specific cause."@,
                    },
                ),
                ActionView::Finish { failed: true },
            ]
        }),
        ({
            let acts = transition(s, SessionEvent::EncoderFailed(error)).1;
            let told = MessageView::Status {
                stage: "encode"@,
                ok: false,
                detail: "the laptop could not start its video encoder: "@ + error@
                    + "\nRun `palmtopd --doctor` on the laptop -- this is usually the GPU render node being wrong, or ffmpeg missing."@,
            };
            &&& s.phase == Phase::StartingEncoder ==> acts == seq![
                ActionView::SendNow(told),
                ActionView::Finish { failed: true },
            ]
            &&& s.phase == Phase::RestartingEncoder ==> acts == seq![
                ActionView::Queue(told),
                ActionView::SendQueued,
                ActionView::SignalStop,
                ActionView::Disconnect,
                ActionView::WaitForAll,
                ActionView::Finish { failed: true },
            ]
        }),
{
}

/// A stream that is to stop tells everyone, stops its encoder, waits, and has not failed.
pub proof fn a_stream_that_is_stopped_has_not_failed(s: SessionView)
    requires
        s.phase == Phase::Streaming,
    ensures
        transition(s, SessionEvent::StopRequested).1 == seq![
            ActionView::SignalStop,
            ActionView::StopEncoder,
            ActionView::WaitForAll,
            ActionView::Finish { failed: false },
        ],
{
}

/// A client is let in with version 5 and the token that is expected, and with nothing else; what it
/// says of itself is taken over. One of another version is told both versions, one with another token
/// or none is told so.
pub proof fn a_greeting_is_judged_by_version_and_token(
    version: u16,
    token: Seq<char>,
    profile: ProfileView,
    expected: Seq<char>,
)
    ensures
        ({
            let g = greeting(
                Some(MessageView::Hello { protocol_version: version, token, profile }),
                expected,
            );
            &&& version == 5 && token == expected && token.len() > 0 ==> g == GreetingView::Accept(
                profile,
            ) && answer(g) == Some(MessageView::HelloAck { ok: true, reason: Seq::empty() })
            &&& version != 5 ==> answer(g) == Some(
                MessageView::HelloAck {
                    ok: false,
                    reason: "protocol mismatch: host=5 client="@ + text::decimal(version as nat),
                },
            )
            &&& version == 5 && (token != expected || token.len() == 0) ==> answer(g) == Some(
                MessageView::HelloAck {
                    ok: false,
                    reason: "pairing rejected: wrong or missing token"@,
                },
            )
            &&& version != 5 || token != expected || token.len() == 0 ==> g is Refuse
        }),
        greeting(None, expected) is NoGreeting,
{
}

/// The screen goes to the newest client that was let in, whoever held it; a session gives back the
/// screen only where it is still its own.
pub proof fn the_newest_client_holds_the_screen(
    active: Option<u64>,
    id: u64,
    profile: ProfileView,
    reason: Seq<char>,
)
    ensures
        registered(active, id, GreetingView::Accept(profile)) == Some(id),
        registered(active, id, GreetingView::Refuse(reason)) == active,
        registered(active, id, GreetingView::NoGreeting) == active,
        active == Some(id) ==> released(active, id) is None,
        active != Some(id) ==> released(active, id) == active,
{
}

/// Motions, buttons, scrolls, keys and text are what a client has for the pointer and the keyboard;
/// nothing else is.
pub proof fn six_kinds_of_messages_are_input(m: MessageView)
    ensures
        is_input(m) <==> match m {
            MessageView::PointerMotionRelative { .. } => true,
            MessageView::PointerMotionAbsolute { .. } => true,
            MessageView::PointerButton { .. } => true,
            MessageView::Scroll { .. } => true,
            MessageView::Key { .. } => true,
            MessageView::Text { .. } => true,
            MessageView::Hello { .. } => false,
            MessageView::HelloAck { .. } => false,
            MessageView::VideoConfig { .. } => false,
            MessageView::VideoFrame { .. } => false,
            MessageView::Ping { .. } => false,
            MessageView::Pong { .. } => false,
            MessageView::SetMode { .. } => false,
            MessageView::Status { .. } => false,
        },
{
}

/// A `Pong` gives back the number and the time of its `Ping`, with the time at which that was read and
/// the time at which this is sent. An announcement and a report are sent as they were queued.
pub proof fn what_was_queued_is_what_is_sent(item: Outgoing, now_us: u64)
    ensures
        match item {
            Outgoing::Pong { nonce, t_client_us, t_host_recv_us } => outgoing_view(item, now_us) == (
            MessageView::Pong { nonce, t_client_us, t_host_recv_us, t_host_send_us: now_us }),
            Outgoing::Reconfigure(m) => outgoing_view(item, now_us) == m@,
            Outgoing::Status { stage, ok, detail } => outgoing_view(item, now_us) == (
            MessageView::Status { stage: stage@, ok, detail: detail@ }),
        },
        writing(WriterPhase::Draining, WriterEvent::Next { item: Some(item), now_us }) == (
            WriterPhase::SendingItem,
            WriterActionView::Send(outgoing_view(item, now_us)),
        ),
        announces(WriterPhase::Draining, WriterEvent::Next { item: Some(item), now_us })
            <==> item is Reconfigure,
{
}

/// A picture that is there once the queue is empty is sent with its kind, its time and its bytes.
pub proof fn a_picture_is_sent_as_it_is(unit: EncodedUnit, now_us: u64)
    ensures
        writing(WriterPhase::AwaitingPicture, WriterEvent::Picture(Some(unit))) == (
            WriterPhase::SendingPicture,
            WriterActionView::Send(
                MessageView::VideoFrame {
                    keyframe: unit.keyframe,
                    capture_us: unit.capture_us,
                    data: unit.data@,
                },
            ),
        ),
        frame_view(unit) == (MessageView::VideoFrame {
            keyframe: unit.keyframe,
            capture_us: unit.capture_us,
            data: unit.data@,
        }),
        !announces(WriterPhase::AwaitingPicture, WriterEvent::Picture(Some(unit))),
{
}

/// A round of the side that writes, where all can be sent: it looks whether to stop, empties the queue
/// message by message, waits for a picture, and looks again. Only being told to stop and a message that
/// cannot be sent end it, and only the announcement of a format throws a picture away.
pub proof fn the_writer_goes_round(p: WriterPhase, e: WriterEvent, now_us: u64)
    ensures
        writing(WriterPhase::Top, WriterEvent::Stopped(false)) == (
            WriterPhase::Draining,
            WriterActionView::TakeItem,
        ),
        writing(WriterPhase::SendingItem, WriterEvent::Sent(true)) == (
            WriterPhase::Draining,
            WriterActionView::TakeItem,
        ),
        writing(WriterPhase::Draining, WriterEvent::Next { item: None, now_us }) == (
            WriterPhase::AwaitingPicture,
            WriterActionView::TakePicture,
        ),
        writing(WriterPhase::AwaitingPicture, WriterEvent::Picture(None)) == (
            WriterPhase::Top,
            WriterActionView::LookForStop { picture_sent: false },
        ),
        writing(WriterPhase::SendingPicture, WriterEvent::Sent(true)) == (
            WriterPhase::Top,
            WriterActionView::LookForStop { picture_sent: true },
        ),
        writing(p, e).1 is Exit <==> (p == WriterPhase::Top && e == WriterEvent::Stopped(true)) || ((p
            == WriterPhase::SendingItem || p == WriterPhase::SendingPicture) && e
            == WriterEvent::Sent(false)),
        writing(p, e).1 is Exit ==> writing(p, e).0 == WriterPhase::Ended,
        writing(p, e).1 is Nothing ==> writing(p, e).0 == p,
        announces(p, e) ==> writing(p, e).1 is Send,
{
}

/// A stream that ends between two messages was closed; one that ends inside a message was cut off.
pub proof fn an_end_inside_a_message_is_a_cut(total: u32, acc: Seq<u8>)
    ensures
        ending(noise::Assembly { total: None, acc }) == Ok::<ReceivedView, ReceiveError>(
            ReceivedView::Closed,
        ),
        ending(noise::Assembly { total: Some(total), acc }) == Err::<ReceivedView, ReceiveError>(
            ReceiveError::CutOff,
        ),
{
}

/// A frame that cannot be opened is refused and counts for nothing: the number of the next message and
/// what has arrived stay as they were. Every frame that can be opened counts as one.
pub proof fn a_frame_counts_where_it_opens(
    key: Seq<u8>,
    nonce: int,
    a: noise::Assembly,
    c: Seq<u8>,
)
    ensures
        noise::opening(key, nonce, c) is None ==> taking_frame(key, nonce, a, c) == (
            Err::<Option<MessageView>, ReceiveError>(ReceiveError::Channel(NoiseError::Decrypt)),
            nonce,
            a,
        ),
        noise::opening(key, nonce, c) is Some ==> taking_frame(key, nonce, a, c).1 == nonce + 1,
{
}

/// A payload of nothing holds no message; one whose message cannot be read is refused with the reason.
pub proof fn a_payload_holds_a_message_or_is_refused(payload: Seq<u8>)
    ensures
        payload.len() == 0 ==> message_in(payload) == Err::<MessageView, ReceiveError>(
            ReceiveError::NoMessage,
        ),
        proto::reading(payload).0 matches Err(e) ==> message_in(payload) == Err::<
            MessageView,
            ReceiveError,
        >(ReceiveError::Message(e)),
{
}

/// What is taken off the channel leads to what its kind is for: a `Ping` is answered with its number
/// and its time, a known mode is switched to and an unknown one is not guessed at, input is injected as
/// it is, and anything else is passed over. The end of the connection ends the session.
pub proof fn each_message_leads_to_what_it_is_for(m: Message, res: ReaderStep)
    requires
        call_ensures(run_network_reader, (Incoming::Message(m),), res),
    ensures
        match m {
            Message::Ping { nonce, t_client_us } => res == (ReaderStep::Reply { nonce, t_client_us }),
            Message::SetMode { mode } => {
                &&& mode == 0 ==> res == ReaderStep::SwitchMode(Mode::Sync)
                &&& mode == 1 ==> res == ReaderStep::SwitchMode(Mode::Balanced)
                &&& mode == 2 ==> res == ReaderStep::SwitchMode(Mode::Quality)
                &&& mode == 3 ==> res == ReaderStep::SwitchMode(Mode::Battery)
                &&& mode > 3 ==> res == ReaderStep::UnknownMode(mode)
            },
            Message::PointerMotionRelative { .. } => res == ReaderStep::Inject(m),
            Message::PointerMotionAbsolute { .. } => res == ReaderStep::Inject(m),
            Message::PointerButton { .. } => res == ReaderStep::Inject(m),
            Message::Scroll { .. } => res == ReaderStep::Inject(m),
            Message::Key { .. } => res == ReaderStep::Inject(m),
            Message::Text { .. } => res == ReaderStep::Inject(m),
            _ => res is Skip,
        },
{
}

/// Where the connection is closed or fails, the session ends.
pub proof fn the_end_of_the_connection_ends_the_session(closed: ReaderStep, failed: ReaderStep)
    requires
        call_ensures(run_network_reader, (Incoming::Closed,), closed),
        call_ensures(run_network_reader, (Incoming::Failed,), failed),
    ensures
        closed is Stop,
        failed is Stop,
{
}

/// The client is told that nothing has come where the time is up and no picture was sent, unless the
/// session has stopped; until then the watch goes on.
pub proof fn silence_is_told_once_the_time_is_up(
    time_is_up: bool,
    stopped: bool,
    sent_a_frame: bool,
    res: WatchStep,
)
    requires
        call_ensures(watch_first_frame, (time_is_up, stopped, sent_a_frame), res),
    ensures
        res is Done <==> stopped || sent_a_frame,
        res is Wait <==> !stopped && !sent_a_frame && !time_is_up,
        res is Tell <==> !stopped && !sent_a_frame && time_is_up,
        res matches WatchStep::Tell(Outgoing::Status { stage, ok, detail }) ==> stage@ == "stream"@
            && !ok,
        res matches WatchStep::Tell(o) ==> o is Status,
        FIRST_FRAME_GRACE_SECS == 8,
{
    if let WatchStep::Tell(o) = res {
        assert(outgoing_view(o, 0) is Status);
    }
}

/// A capture that ended is told with its error.
pub proof fn the_end_of_the_capture_is_told(error: &str, res: Outgoing)
    requires
        call_ensures(capture_stopped, (error,), res),
    ensures
        res matches Outgoing::Status { stage, ok, detail } && stage@ == "capture"@ && !ok && detail@
            == "screen capture stopped: "@ + error@,
{
}

/// A session begins admitted, in the balanced mode, with what it was given.
pub proof fn a_session_begins_balanced(
    profile: DeviceProfile,
    codec: String,
    backend: String,
    s: Session,
    preset: Preset,
)
    requires
        call_ensures(Session::new, (profile, codec, backend), s),
        call_ensures(Session::preset, (&s,), preset),
    ensures
        s@.phase == Phase::Admitted,
        s@.mode == Mode::Balanced,
        s@.profile == profile@,
        s@.codec == codec@,
        s@.backend == backend@,
        preset == modes::fitted(modes::preset_of(Mode::Balanced), profile@),
{
}

/// A running session that is handed a request for a mode is in that mode from then on, and starts one
/// encoder, with the preset of that mode.
pub proof fn handling_a_request_switches_to_its_mode(
    s: &mut Session,
    m: Mode,
    out: Vec<SessionAction>,
    i: int,
)
    requires
        call_ensures(Session::handle, (s, SessionEvent::ModeRequested(m)), out),
        old(s)@.phase == Phase::Streaming,
    ensures
        final(s)@.mode == m,
        final(s)@.profile == old(s)@.profile,
        out@.len() == 3,
        out@[2]@ == ActionView::StartEncoder(
            modes::fitted(modes::preset_of(m), old(s)@.profile),
        ),
        0 <= i < 2 ==> out@[i]@ !is StartEncoder,
{
    let views = action_views(out@);
    assert(views.len() == out@.len());
    assert(views[2] == out@[2]@);
    if 0 <= i < 2 {
        assert(views[i] == out@[i]@);
    }
}

/// A client that was let in gets the screen, and whoever had it is named; what the client said of
/// itself is handed on. A client that was not changes nothing.
pub proof fn who_is_let_in_gets_the_screen(
    registry: &mut Registry,
    id: u64,
    g: Greeting,
    res: Option<Admission>,
)
    requires
        call_ensures(Registry::enter, (registry, id, g), res),
    ensures
        res is Some <==> g is Accept,
        g matches Greeting::Accept(p) ==> final(registry)@ == Some(id) && (res matches Some(a)
            && a.displaced == old(registry)@ && a.profile@ == p@),
        g !is Accept ==> final(registry)@ == old(registry)@,
{
}

/// What is done is seen as it is: each action with its message, its preset or its size.
pub proof fn actions_are_seen_as_they_are(
    m: Message,
    n: usize,
    p: Preset,
    failed: bool,
    stage: String,
    ok: bool,
    detail: String,
)
    ensures
        SessionAction::SendNow(m)@ == ActionView::SendNow(m@),
        SessionAction::AskForScreen@ is AskForScreen,
        SessionAction::StartCapture@ is StartCapture,
        SessionAction::SetSendBuffer(n)@ == ActionView::SetSendBuffer(n),
        SessionAction::StartEncoder(p)@ == ActionView::StartEncoder(p),
        SessionAction::StopEncoder@ is StopEncoder,
        SessionAction::StartWriter@ is StartWriter,
        SessionAction::StartWatch@ is StartWatch,
        SessionAction::StartReader@ is StartReader,
        SessionAction::Queue(Outgoing::Reconfigure(m))@ == ActionView::Announce(m@),
        SessionAction::Queue((Outgoing::Status { stage, ok, detail }))@ == ActionView::Queue(
            (MessageView::Status { stage: stage@, ok, detail: detail@ }),
        ),
        SessionAction::SendQueued@ is SendQueued,
        SessionAction::SignalStop@ is SignalStop,
        SessionAction::Disconnect@ is Disconnect,
        SessionAction::WaitForAll@ is WaitForAll,
        (SessionAction::Finish { failed })@ == (ActionView::Finish { failed }),
{
}

/// What the side that writes does, and what it has received, is seen as it is.
pub proof fn steps_are_seen_as_they_are(m: Message, picture_sent: bool)
    ensures
        (WriterAction::LookForStop { picture_sent })@ == (WriterActionView::LookForStop {
            picture_sent,
        }),
        WriterAction::TakeItem@ is TakeItem,
        WriterAction::TakePicture@ is TakePicture,
        WriterAction::Send(m)@ == WriterActionView::Send(m@),
        WriterAction::Exit@ is Exit,
        WriterAction::Nothing@ is Nothing,
        Received::Message(m)@ == ReceivedView::Message(m@),
        Received::Partial@ is Partial,
        Received::Closed@ is Closed,
{
}

/// Whoever greets with version 5 and the host's token is let in as it described itself, and is told so;
/// whoever does not is refused, and is told why, or was no client at all.
pub proof fn a_connection_is_decided_by_its_first_message(
    version: u16,
    token: String,
    profile: DeviceProfile,
    first: Option<Message>,
    expected: &str,
    res: Greeting,
    said: Option<Message>,
)
    requires
        call_ensures(handshake, (first, expected), res),
        call_ensures(greeting_answer, (&res,), said),
    ensures
        first == Some((Message::Hello { protocol_version: version, token, profile })) ==> {
            let paired = version == 5 && token@ == expected@ && token@.len() > 0;
            &&& paired ==> (res matches Greeting::Accept(p) && p@ == profile@)
            &&& !paired ==> res is Refuse
            &&& said matches Some(Message::HelloAck { ok, reason })
            &&& ok <==> paired
            &&& paired ==> reason@.len() == 0
            &&& res matches Greeting::Refuse(why) ==> reason@ == why@
        },
        !(first matches Some(Message::Hello { .. })) ==> res is NoGreeting && said is None,
{
    if let Some(m) = said {
        assert(opt_message(said) == Some(m@));
    }
}

/// A frame that opens is added to what has arrived: it gives nothing while the payload is not complete,
/// and then the message in it, or why there is none.
pub proof fn a_frame_that_opens_is_added(
    key: Seq<u8>,
    nonce: int,
    a: noise::Assembly,
    c: Seq<u8>,
    p: Seq<u8>,
)
    requires
        noise::opening(key, nonce, c) == Some(p),
    ensures
        ({
            let got = taking_frame(key, nonce, a, c);
            let (whole, left) = noise::assemble(a, p);
            &&& got.2 == left
            &&& whole matches Err(e) ==> got.0 == Err::<Option<MessageView>, _>(
                ReceiveError::Channel(e),
            )
            &&& whole == Ok::<Option<Seq<u8>>, NoiseError>(None) ==> got.0 == Ok::<
                Option<MessageView>,
                ReceiveError,
            >(None)
            &&& whole matches Ok(Some(payload)) ==> {
                &&& message_in(payload) matches Ok(m) ==> got.0 == Ok::<_, ReceiveError>(Some(m))
                &&& message_in(payload) matches Err(e) ==> got.0 == Err::<Option<MessageView>, _>(e)
            }
        }),
{
}

/// A payload whose message can be read holds that message, whatever lies behind it.
pub proof fn a_payload_holds_what_is_read_off_it(payload: Seq<u8>, m: MessageView)
    ensures
        message_in(payload) == Ok::<MessageView, ReceiveError>(m) <==> proto::reading(payload).0
            == Ok::<Option<MessageView>, ProtoError>(Some(m)),
{
}

/// What is sent arrives: the frames that a message is encrypted into, received under the same key and
/// number, hold that message, and use up as many numbers on either side.
pub proof fn a_message_that_is_sent_arrives(
    t: &mut NoiseTransport,
    msg: &Message,
    pieces: Vec<Vec<u8>>,
    rest: Seq<u8>,
)
    requires
        call_ensures(
            send_encrypted,
            (t, msg),
            Ok::<Vec<Vec<u8>>, NoiseError>(pieces),
        ),
        proto::payload(msg@).len() <= 16777216,
    ensures
        ({
            let sent = noise::joined(pieces@.map_values(|f: Vec<u8>| f@));
            let (got, next, left) = noise::receiving(
                old(t)@.send_key,
                old(t)@.send_nonce as int,
                noise::nothing_arrived(),
                sent + rest,
            );
            &&& got matches Ok(Some(payload))
            &&& message_in(payload) == Ok::<MessageView, ReceiveError>(msg@)
            &&& next == final(t)@.send_nonce
            &&& left == rest
            &&& final(t)@.send_key == old(t)@.send_key
        }),
{
    a_message_arrives(old(t)@.send_key, old(t)@.send_nonce as int, msg@, rest);
}

/// The end of the stream is a clean one between messages, and a cut inside of one; a frame that does
/// not open is refused, and leaves the channel and what has arrived as they were.
pub proof fn what_is_received_is_judged(
    t: &mut NoiseTransport,
    r: &mut Reassembler,
    c: Option<&[u8]>,
    res: Result<Received, ReceiveError>,
)
    requires
        call_ensures(recv_encrypted, (t, r, c), res),
    ensures
        c is None && old(r)@.total is None ==> res == Ok::<Received, ReceiveError>(Received::Closed),
        c is None && old(r)@.total is Some ==> res == Err::<Received, ReceiveError>(
            ReceiveError::CutOff,
        ),
        c is None ==> final(t)@ == old(t)@ && final(r)@ == old(r)@,
        c matches Some(f) ==> {
            let p = noise::opening(old(t)@.recv_key, old(t)@.recv_nonce as int, f@);
            &&& p is None ==> res == Err::<Received, ReceiveError>(
                ReceiveError::Channel(NoiseError::Decrypt),
            ) && final(t)@ == old(t)@ && final(r)@ == old(r)@
            &&& p is Some ==> final(t)@.recv_nonce == old(t)@.recv_nonce + 1 && final(r)@
                == noise::assemble(old(r)@, p.unwrap()).1
        },
{
    if c is None {
        match res {
            Ok(x) => {
                assert(x@ == ending(old(r)@).unwrap());
            },
            Err(_) => {},
        }
    }
}

/// A picture that waits is thrown away where a new format is announced, and only there.
pub proof fn a_new_format_throws_a_waiting_picture_away(
    w: &mut Writer,
    e: WriterEvent,
    latest: &mut LatestEncoded,
    res: WriterAction,
)
    requires
        call_ensures(Writer::step, (w, e, latest), res),
    ensures
        old(w)@ == WriterPhase::Draining && (e matches WriterEvent::Next {
            item: Some(Outgoing::Reconfigure(_)),
            ..
        }) ==> final(latest)@ is None,
        !(old(w)@ == WriterPhase::Draining && (e matches WriterEvent::Next {
            item: Some(Outgoing::Reconfigure(_)),
            ..
        })) ==> final(latest)@ == old(latest)@,
{
}

/// What the client is told where no picture has come.
pub proof fn silence_is_explained(res: WatchStep)
    requires
        call_ensures(watch_first_frame, (true, false, false), res),
    ensures
        res matches WatchStep::Tell(Outgoing::Status { detail, .. }) && detail@
            == "no video has arrived after 8s, although the connection is fine. The laptop is capturing but producing no encoded frames -- run `palmtopd --doctor` on it; a GPU render node that cannot encode is the usual cause."@,
{
}

} // verus!
