//! A client that tries out a host: it connects, takes a few seconds of video, and then moves the
//! pointer, clicks and types.
//!
//! The connection and the clock are the program's around this; here is what the client expects of
//! the host, and what it does next.
use vstd::prelude::*;

use crate::proto::{Button, Message, MessageView, Modifiers, F32};

verus! {

/// The letter that is typed, as the kernel numbers it.
pub const KEY_H: u32 = 35;

/// How long the host may take to switch modes, in seconds.
pub const SWITCH_SECS: u64 = 10;

/// How long video is taken, in seconds.
pub const COLLECT_SECS: u64 = 4;

/// How far the client has come.
#[derive(Debug, Clone, Copy, PartialEq, Eq, Structural)]
pub enum ClientPhase {
    /// It has greeted, and waits to be let in.
    AwaitingAck,
    /// It waits for the format of the video.
    AwaitingConfig,
    /// It has asked for another mode, and waits for the new format.
    Switching,
    /// It takes video.
    Collecting,
    Ended,
}

/// What happened.
pub enum ClientEvent {
    Message(Message),
    /// The host closed the connection.
    Closed,
    /// The time of this phase is up.
    TimeUp,
}

/// What the host did wrong.
pub enum ClientError {
    ClosedInHandshake,
    /// The client was not let in, for this reason.
    Rejected(String),
    /// Something else came in place of an answer to the greeting.
    NotAnAck(Message),
    ClosedBeforeConfig,
    /// Something else came in place of the format.
    NotAConfig(Message),
    /// The format is not that of the mode that was asked for.
    WrongSize { width: u32, height: u32 },
    WrongMode(u8),
    ClosedInSwitch,
    NeverSwitched,
    /// No video came.
    NoFrames,
}

/// What the client does next.
pub enum ClientAction {
    /// It waits for the next message.
    Wait,
    Send(Message),
    /// The bytes are added to the recording.
    Store(Vec<u8>),
    /// A message that was not expected is shown, and nothing else is done about it.
    Show(Message),
    /// The client gives up.
    Fail(ClientError),
    /// The messages are sent, and the client is done. `stalls` tells that the video did not begin
    /// with a keyframe, so that a decoder could not begin either.
    Finish { input: Vec<Message>, stalls: bool },
}

/// A `ClientError` with its texts as sequences.
#[verifier::ext_equal]
pub enum ClientErrorView {
    ClosedInHandshake,
    Rejected(Seq<char>),
    NotAnAck(MessageView),
    ClosedBeforeConfig,
    NotAConfig(MessageView),
    WrongSize { width: u32, height: u32 },
    WrongMode(u8),
    ClosedInSwitch,
    NeverSwitched,
    NoFrames,
}

impl View for ClientError {
    type V = ClientErrorView;

    open spec fn view(&self) -> ClientErrorView {
        match *self {
            ClientError::ClosedInHandshake => ClientErrorView::ClosedInHandshake,
            ClientError::Rejected(reason) => ClientErrorView::Rejected(reason@),
            ClientError::NotAnAck(m) => ClientErrorView::NotAnAck(m@),
            ClientError::ClosedBeforeConfig => ClientErrorView::ClosedBeforeConfig,
            ClientError::NotAConfig(m) => ClientErrorView::NotAConfig(m@),
            ClientError::WrongSize { width, height } => ClientErrorView::WrongSize { width, height },
            ClientError::WrongMode(m) => ClientErrorView::WrongMode(m),
            ClientError::ClosedInSwitch => ClientErrorView::ClosedInSwitch,
            ClientError::NeverSwitched => ClientErrorView::NeverSwitched,
            ClientError::NoFrames => ClientErrorView::NoFrames,
        }
    }
}

/// A `ClientAction` with its messages as views.
#[verifier::ext_equal]
pub enum ClientActionView {
    Wait,
    Send(MessageView),
    Store(Seq<u8>),
    Show(MessageView),
    Fail(ClientErrorView),
    Finish { input: Seq<MessageView>, stalls: bool },
}

/// The views of a list of messages.
pub open spec fn message_views(v: Seq<Message>) -> Seq<MessageView> {
    v.map_values(|m: Message| m@)
}

impl View for ClientAction {
    type V = ClientActionView;

    open spec fn view(&self) -> ClientActionView {
        match *self {
            ClientAction::Wait => ClientActionView::Wait,
            ClientAction::Send(m) => ClientActionView::Send(m@),
            ClientAction::Store(data) => ClientActionView::Store(data@),
            ClientAction::Show(m) => ClientActionView::Show(m@),
            ClientAction::Fail(e) => ClientActionView::Fail(e@),
            ClientAction::Finish { input, stalls } => ClientActionView::Finish {
                input: message_views(input@),
                stalls,
            },
        }
    }
}

/// Where a client stands.
#[verifier::ext_equal]
pub struct ClientView {
    pub phase: ClientPhase,
    /// Whether it is to ask for another mode.
    pub switch: bool,
    pub frames: nat,
    pub bytes: nat,
    /// Whether the first frame was a keyframe, once there was one.
    pub first_keyframe: Option<bool>,
}

/// The input that is tried: the pointer goes to the middle, clicks, and a letter is typed.
pub open spec fn trial_input() -> Seq<MessageView> {
    seq![
        MessageView::PointerMotionAbsolute { x: F32(0x3f00_0000), y: F32(0x3f00_0000) },
        MessageView::PointerButton { button: Button::Left, pressed: true },
        MessageView::PointerButton { button: Button::Left, pressed: false },
        MessageView::Key { evdev_code: KEY_H, pressed: true, modifiers: 0 },
        MessageView::Key { evdev_code: KEY_H, pressed: false, modifiers: 0 },
    ]
}

fn make_trial_input() -> (v: Vec<Message>)
    ensures
        message_views(v@) == trial_input(),
{
    let middle = F32(0x3f00_0000);
    let mut v: Vec<Message> = Vec::new();
    v.push(Message::PointerMotionAbsolute { x: middle, y: middle });
    v.push(Message::PointerButton { button: Button::Left, pressed: true });
    v.push(Message::PointerButton { button: Button::Left, pressed: false });
    v.push(Message::Key { evdev_code: KEY_H, pressed: true, modifiers: Modifiers::none() });
    v.push(Message::Key { evdev_code: KEY_H, pressed: false, modifiers: Modifiers::none() });
    assert(message_views(v@) =~= trial_input());
    v
}

/// The client gives up.
pub open spec fn failing(s: ClientView, e: ClientErrorView) -> (ClientView, ClientActionView) {
    (ClientView { phase: ClientPhase::Ended, ..s }, ClientActionView::Fail(e))
}

/// What a new format shows about the switch to the first mode, whose size is 1280 by 720.
pub open spec fn switched(s: ClientView, width: u32, height: u32, mode: u8) -> (
    ClientView,
    ClientActionView,
) {
    if width != 1280 || height != 720 {
        failing(s, ClientErrorView::WrongSize { width, height })
    } else if mode != 0 {
        failing(s, ClientErrorView::WrongMode(mode))
    } else {
        (ClientView { phase: ClientPhase::Collecting, ..s }, ClientActionView::Wait)
    }
}

/// What a message leads to.
pub open spec fn on_message(s: ClientView, m: MessageView) -> (ClientView, ClientActionView) {
    match s.phase {
        ClientPhase::AwaitingAck => match m {
            MessageView::HelloAck { ok: true, .. } => (
                ClientView { phase: ClientPhase::AwaitingConfig, ..s },
                ClientActionView::Wait,
            ),
            MessageView::HelloAck { ok: false, reason } => failing(
                s,
                ClientErrorView::Rejected(reason),
            ),
            _ => failing(s, ClientErrorView::NotAnAck(m)),
        },
        ClientPhase::AwaitingConfig => match m {
            MessageView::VideoConfig { .. } => if s.switch {
                (
                    ClientView { phase: ClientPhase::Switching, ..s },
                    ClientActionView::Send(MessageView::SetMode { mode: 0 }),
                )
            } else {
                (ClientView { phase: ClientPhase::Collecting, ..s }, ClientActionView::Wait)
            },
            _ => failing(s, ClientErrorView::NotAConfig(m)),
        },
        ClientPhase::Switching => match m {
            MessageView::VideoConfig { width, height, mode, .. } => switched(
                s,
                width,
                height,
                mode,
            ),
            _ => (s, ClientActionView::Wait),
        },
        ClientPhase::Collecting => match m {
            MessageView::VideoFrame { keyframe, data, .. } => (
                ClientView {
                    frames: s.frames + 1,
                    bytes: s.bytes + data.len(),
                    first_keyframe: match s.first_keyframe {
                        Some(k) => Some(k),
                        None => Some(keyframe),
                    },
                    ..s
                },
                ClientActionView::Store(data),
            ),
            _ => (s, ClientActionView::Show(m)),
        },
        ClientPhase::Ended => (s, ClientActionView::Wait),
    }
}

/// What the end of the video leads to.
pub open spec fn on_collected(s: ClientView) -> (ClientView, ClientActionView) {
    if s.frames == 0 {
        failing(s, ClientErrorView::NoFrames)
    } else {
        (
            ClientView { phase: ClientPhase::Ended, ..s },
            ClientActionView::Finish {
                input: trial_input(),
                stalls: s.first_keyframe != Some(true),
            },
        )
    }
}

/// What an event leads to: where the client stands then, and what it does.
pub open spec fn client_transition(s: ClientView, e: ClientEvent) -> (
    ClientView,
    ClientActionView,
) {
    match e {
        ClientEvent::Message(m) => on_message(s, m@),
        ClientEvent::Closed => match s.phase {
            ClientPhase::AwaitingAck => failing(s, ClientErrorView::ClosedInHandshake),
            ClientPhase::AwaitingConfig => failing(s, ClientErrorView::ClosedBeforeConfig),
            ClientPhase::Switching => failing(s, ClientErrorView::ClosedInSwitch),
            ClientPhase::Collecting => on_collected(s),
            ClientPhase::Ended => (s, ClientActionView::Wait),
        },
        ClientEvent::TimeUp => match s.phase {
            ClientPhase::Switching => failing(s, ClientErrorView::NeverSwitched),
            ClientPhase::Collecting => on_collected(s),
            _ => (s, ClientActionView::Wait),
        },
    }
}

/// Whether the counts of a client have room for an event.
pub open spec fn has_room_for(s: ClientView, e: ClientEvent) -> bool {
    let after = client_transition(s, e).0;
    after.frames <= u32::MAX && after.bytes <= u64::MAX
}

/// A client that tries out a host.
pub struct TestClient {
    phase: ClientPhase,
    switch: bool,
    frames: u32,
    bytes: u64,
    first_keyframe: Option<bool>,
}

impl View for TestClient {
    type V = ClientView;

    closed spec fn view(&self) -> ClientView {
        ClientView {
            phase: self.phase,
            switch: self.switch,
            frames: self.frames as nat,
            bytes: self.bytes as nat,
            first_keyframe: self.first_keyframe,
        }
    }
}

impl TestClient {
    /// A client that has greeted; `switch` tells whether it is to try a switch of modes.
    pub fn new(switch: bool) -> (res: Self)
        ensures
            res@ == (ClientView {
                phase: ClientPhase::AwaitingAck,
                switch,
                frames: 0,
                bytes: 0,
                first_keyframe: None,
            }),
    {
        TestClient {
            phase: ClientPhase::AwaitingAck,
            switch,
            frames: 0,
            bytes: 0,
            first_keyframe: None,
        }
    }

    pub fn phase(&self) -> (res: ClientPhase)
        ensures
            res == self@.phase,
    {
        self.phase
    }

    /// How many frames have come.
    pub fn frames(&self) -> (res: u32)
        ensures
            res == self@.frames,
    {
        self.frames
    }

    /// How many bytes the frames had.
    pub fn bytes(&self) -> (res: u64)
        ensures
            res == self@.bytes,
    {
        self.bytes
    }

    /// Whether the first frame was a keyframe.
    pub fn first_keyframe(&self) -> (res: Option<bool>)
        ensures
            res == self@.first_keyframe,
    {
        self.first_keyframe
    }

    /// Whether the counts have room for an event.
    pub fn has_room(&self, event: &ClientEvent) -> (res: bool)
        ensures
            res == has_room_for(self@, *event),
    {
        match event {
            ClientEvent::Message(Message::VideoFrame { keyframe: _, capture_us: _, data }) => {
                self.phase != ClientPhase::Collecting || (self.frames < u32::MAX
                    && data.len() as u64 <= u64::MAX - self.bytes)
            },
            _ => true,
        }
    }

    fn fail(&mut self, e: ClientError) -> (res: ClientAction)
        ensures
            (final(self)@, res@) == failing(old(self)@, e@),
    {
        self.phase = ClientPhase::Ended;
        ClientAction::Fail(e)
    }

    fn collected(&mut self) -> (res: ClientAction)
        ensures
            (final(self)@, res@) == on_collected(old(self)@),
    {
        if self.frames == 0 {
            return self.fail(ClientError::NoFrames);
        }
        self.phase = ClientPhase::Ended;
        let stalls = match self.first_keyframe {
            Some(k) => !k,
            None => true,
        };
        ClientAction::Finish { input: make_trial_input(), stalls }
    }

    fn take(&mut self, m: Message) -> (res: ClientAction)
        requires
            has_room_for(old(self)@, ClientEvent::Message(m)),
        ensures
            (final(self)@, res@) == on_message(old(self)@, m@),
    {
        match self.phase {
            ClientPhase::AwaitingAck => match m {
                Message::HelloAck { ok, reason } => {
                    if ok {
                        self.phase = ClientPhase::AwaitingConfig;
                        ClientAction::Wait
                    } else {
                        self.fail(ClientError::Rejected(reason))
                    }
                },
                _ => self.fail(ClientError::NotAnAck(m)),
            },
            ClientPhase::AwaitingConfig => match m {
                Message::VideoConfig { .. } => {
                    if self.switch {
                        self.phase = ClientPhase::Switching;
                        ClientAction::Send(Message::SetMode { mode: 0 })
                    } else {
                        self.phase = ClientPhase::Collecting;
                        ClientAction::Wait
                    }
                },
                _ => self.fail(ClientError::NotAConfig(m)),
            },
            ClientPhase::Switching => match m {
                Message::VideoConfig { width, height, mode, .. } => {
                    if width != 1280 || height != 720 {
                        self.fail(ClientError::WrongSize { width, height })
                    } else if mode != 0 {
                        self.fail(ClientError::WrongMode(mode))
                    } else {
                        self.phase = ClientPhase::Collecting;
                        ClientAction::Wait
                    }
                },
                _ => ClientAction::Wait,
            },
            ClientPhase::Collecting => match m {
                Message::VideoFrame { keyframe, data, .. } => {
                    if self.first_keyframe.is_none() {
                        self.first_keyframe = Some(keyframe);
                    }
                    self.frames = self.frames + 1;
                    self.bytes = self.bytes + data.len() as u64;
                    ClientAction::Store(data)
                },
                _ => ClientAction::Show(m),
            },
            ClientPhase::Ended => ClientAction::Wait,
        }
    }

    /// Takes what happened, and tells what is to be done.
    pub fn handle(&mut self, event: ClientEvent) -> (res: ClientAction)
        requires
            has_room_for(old(self)@, event),
        ensures
            (final(self)@, res@) == client_transition(old(self)@, event),
    {
        match event {
            ClientEvent::Message(m) => self.take(m),
            ClientEvent::Closed => match self.phase {
                ClientPhase::AwaitingAck => self.fail(ClientError::ClosedInHandshake),
                ClientPhase::AwaitingConfig => self.fail(ClientError::ClosedBeforeConfig),
                ClientPhase::Switching => self.fail(ClientError::ClosedInSwitch),
                ClientPhase::Collecting => self.collected(),
                ClientPhase::Ended => ClientAction::Wait,
            },
            ClientEvent::TimeUp => match self.phase {
                ClientPhase::Switching => self.fail(ClientError::NeverSwitched),
                ClientPhase::Collecting => self.collected(),
                _ => ClientAction::Wait,
            },
        }
    }
}

/// The client touches the host's pointer and keyboard only where it was let in, was told a format
/// and got video.
pub proof fn input_is_tried_only_with_video(s: ClientView, e: ClientEvent)
    requires
        client_transition(s, e).1 is Finish,
    ensures
        s.phase == ClientPhase::Collecting,
        s.frames > 0,
{
}

// ---- laws ----

/// The client is let in by an answer that says so, and gives up on any other: with the reason where it
/// was refused, and with what came in its place. A connection that ends here ends the trial.
pub proof fn the_client_waits_to_be_let_in(s: ClientView, reason: Seq<char>, m: MessageView)
    requires
        s.phase == ClientPhase::AwaitingAck,
    ensures
        on_message(s, MessageView::HelloAck { ok: true, reason }) == (
            ClientView { phase: ClientPhase::AwaitingConfig, ..s },
            ClientActionView::Wait,
        ),
        on_message(s, MessageView::HelloAck { ok: false, reason }).1 == ClientActionView::Fail(
            ClientErrorView::Rejected(reason),
        ),
        m !is HelloAck ==> on_message(s, m).1 == ClientActionView::Fail(
            ClientErrorView::NotAnAck(m),
        ),
        client_transition(s, ClientEvent::Closed).1 == ClientActionView::Fail(
            ClientErrorView::ClosedInHandshake,
        ),
{
}

/// The client then waits for the format, and either takes video or first asks for the mode with the
/// number 0; anything else than a format ends the trial.
pub proof fn the_client_waits_for_the_format(s: ClientView, m: MessageView)
    requires
        s.phase == ClientPhase::AwaitingConfig,
    ensures
        m is VideoConfig && !s.switch ==> on_message(s, m) == (
            ClientView { phase: ClientPhase::Collecting, ..s },
            ClientActionView::Wait,
        ),
        m is VideoConfig && s.switch ==> on_message(s, m) == (
            ClientView { phase: ClientPhase::Switching, ..s },
            ClientActionView::Send(MessageView::SetMode { mode: 0 }),
        ),
        m !is VideoConfig ==> on_message(s, m).1 == ClientActionView::Fail(
            ClientErrorView::NotAConfig(m),
        ),
        client_transition(s, ClientEvent::Closed).1 == ClientActionView::Fail(
            ClientErrorView::ClosedBeforeConfig,
        ),
{
}

/// A switch has worked where the next format is of 1280 by 720 pixels and of the mode 0; the size is
/// looked at first. What else comes meanwhile is passed over, and the ten seconds for it and the
/// connection must not end before.
pub proof fn a_switch_is_judged_by_the_next_format(
    s: ClientView,
    m: MessageView,
    codec: Seq<char>,
    width: u32,
    height: u32,
    fps: u32,
    mode: u8,
    drop_budget_ms: u32,
)
    requires
        s.phase == ClientPhase::Switching,
    ensures
        ({
            let got = on_message(
                s,
                MessageView::VideoConfig { codec, width, height, fps, mode, drop_budget_ms },
            );
            &&& (width, height) == (1280u32, 720u32) && mode == 0 ==> got == (
                ClientView { phase: ClientPhase::Collecting, ..s },
                ClientActionView::Wait,
            )
            &&& (width, height) == (1280u32, 720u32) && mode != 0 ==> got.1
                == ClientActionView::Fail(ClientErrorView::WrongMode(mode))
            &&& (width, height) != (1280u32, 720u32) ==> got.1 == ClientActionView::Fail(
                ClientErrorView::WrongSize { width, height },
            )
        }),
        SWITCH_SECS == 10,
        m !is VideoConfig ==> on_message(s, m) == (s, ClientActionView::Wait),
        client_transition(s, ClientEvent::Closed).1 == ClientActionView::Fail(
            ClientErrorView::ClosedInSwitch,
        ),
        client_transition(s, ClientEvent::TimeUp).1 == ClientActionView::Fail(
            ClientErrorView::NeverSwitched,
        ),
{
}

/// Each frame is counted, with its bytes, and recorded; whether the first was a keyframe is kept. Any
/// other message is shown and changes nothing.
pub proof fn every_frame_is_counted_and_recorded(
    s: ClientView,
    m: MessageView,
    keyframe: bool,
    capture_us: u64,
    data: Seq<u8>,
)
    requires
        s.phase == ClientPhase::Collecting,
    ensures
        ({
            let (t, done) = on_message(s, MessageView::VideoFrame { keyframe, capture_us, data });
            &&& t.phase == ClientPhase::Collecting && t.switch == s.switch
            &&& t.frames == s.frames + 1
            &&& t.bytes == s.bytes + data.len()
            &&& s.first_keyframe is None ==> t.first_keyframe == Some(keyframe)
            &&& s.first_keyframe is Some ==> t.first_keyframe == s.first_keyframe
            &&& done == ClientActionView::Store(data)
        }),
        m !is VideoFrame ==> on_message(s, m) == (s, ClientActionView::Show(m)),
{
}

/// When the four seconds are up or the connection ends, video must have come; the input is then tried: the
/// pointer goes to the middle, the left button is pressed and released, and so is the key 35, without
/// modifiers. Where the first frame was no keyframe, that is told.
pub proof fn input_is_tried_at_the_end(s: ClientView)
    requires
        s.phase == ClientPhase::Collecting,
    ensures
        COLLECT_SECS == 4,
        client_transition(s, ClientEvent::Closed) == client_transition(s, ClientEvent::TimeUp),
        client_transition(s, ClientEvent::TimeUp).0.phase == ClientPhase::Ended,
        s.frames == 0 ==> client_transition(s, ClientEvent::TimeUp).1 == ClientActionView::Fail(
            ClientErrorView::NoFrames,
        ),
        s.frames > 0 ==> (client_transition(s, ClientEvent::TimeUp).1 matches ClientActionView::Finish {
            input,
            stalls,
        } && input == seq![
            MessageView::PointerMotionAbsolute { x: F32(0x3f00_0000), y: F32(0x3f00_0000) },
            MessageView::PointerButton { button: Button::Left, pressed: true },
            MessageView::PointerButton { button: Button::Left, pressed: false },
            MessageView::Key { evdev_code: 35, pressed: true, modifiers: 0 },
            MessageView::Key { evdev_code: 35, pressed: false, modifiers: 0 },
        ] && stalls == !(s.first_keyframe == Some(true))),
{
}

/// A client that has given up or is done does nothing more, and one that gives up is done. Time that
/// runs out while it waits to be let in or for the format changes nothing.
pub proof fn a_client_that_has_ended_stays_so(s: ClientView, e: ClientEvent)
    ensures
        s.phase == ClientPhase::Ended ==> client_transition(s, e) == (s, ClientActionView::Wait),
        client_transition(s, e).1 is Fail || client_transition(s, e).1 is Finish
            ==> client_transition(s, e).0 == (ClientView { phase: ClientPhase::Ended, ..s }),
        s.phase == ClientPhase::AwaitingAck || s.phase == ClientPhase::AwaitingConfig
            ==> client_transition(s, ClientEvent::TimeUp) == (s, ClientActionView::Wait),
        e matches ClientEvent::Message(m) ==> client_transition(s, e) == on_message(s, m@),
{
}

/// A client begins by waiting to be let in, with nothing counted.
pub proof fn a_client_begins_with_nothing(switch: bool, c: TestClient)
    requires
        call_ensures(TestClient::new, (switch,), c),
    ensures
        c@.phase == ClientPhase::AwaitingAck,
        c@.switch == switch,
        c@.frames == 0 && c@.bytes == 0,
        c@.first_keyframe is None,
{
}

/// What a client does, and what the host did wrong, is seen as it is.
pub proof fn actions_are_seen_as_they_are(
    m: Message,
    data: Vec<u8>,
    input: Vec<Message>,
    stalls: bool,
    e: ClientError,
    reason: String,
    width: u32,
    height: u32,
    mode: u8,
)
    ensures
        ClientAction::Wait@ is Wait,
        ClientAction::Send(m)@ == ClientActionView::Send(m@),
        ClientAction::Store(data)@ == ClientActionView::Store(data@),
        ClientAction::Show(m)@ == ClientActionView::Show(m@),
        ClientAction::Fail(e)@ == ClientActionView::Fail(e@),
        (ClientAction::Finish { input, stalls })@ == (ClientActionView::Finish {
            input: message_views(input@),
            stalls,
        }),
        ClientError::ClosedInHandshake@ is ClosedInHandshake,
        ClientError::Rejected(reason)@ == ClientErrorView::Rejected(reason@),
        ClientError::NotAnAck(m)@ == ClientErrorView::NotAnAck(m@),
        ClientError::ClosedBeforeConfig@ is ClosedBeforeConfig,
        ClientError::NotAConfig(m)@ == ClientErrorView::NotAConfig(m@),
        (ClientError::WrongSize { width, height })@ == (ClientErrorView::WrongSize {
            width,
            height,
        }),
        ClientError::WrongMode(mode)@ == ClientErrorView::WrongMode(mode),
        ClientError::ClosedInSwitch@ is ClosedInSwitch,
        ClientError::NeverSwitched@ is NeverSwitched,
        ClientError::NoFrames@ is NoFrames,
{
}

/// The counts have room for anything but a frame too many, or one with too many bytes.
pub proof fn there_is_room_for_all_but_too_many_frames(c: &TestClient, e: &ClientEvent, res: bool)
    requires
        call_ensures(TestClient::has_room, (c, e), res),
        c@.frames <= u32::MAX,
        c@.bytes <= u64::MAX,
    ensures
        !res <==> c@.phase == ClientPhase::Collecting && (*e matches ClientEvent::Message(
            Message::VideoFrame { data, .. },
        ) && (c@.frames == u32::MAX || c@.bytes + data@.len() > u64::MAX)),
{
}

} // verus!
