//! The messages between the host and the client, and their form on the wire.
//!
//! One connection carries all of them. A message is framed as one tag byte, the length of the
//! payload as four bytes, and the payload. All integers are big-endian.
use vstd::prelude::*;
use vstd::utf8::*;

use crate::bytes;
use crate::text;

verus! {

/// Raised whenever the wire changes. `Hello` carries it, so that two sides that differ refuse each
/// other cleanly.
pub const PROTOCOL_VERSION: u16 = 5;

/// The longest payload that is accepted.
pub const MAX_PAYLOAD: u32 = 0x100_0000;

/// An IEEE 754 single-precision number, held by its bit pattern.
#[derive(Debug, Clone, Copy, PartialEq, Eq, Structural)]
pub struct F32(pub u32);

impl F32 {
    /// Whether the number is zero, of either sign.
    pub fn is_zero(self) -> (res: bool)
        ensures
            res == (self.0 == 0 || self.0 == 0x8000_0000),
    {
        self.0 == 0 || self.0 == 0x8000_0000
    }
}

#[derive(Debug, Clone, Copy, PartialEq, Eq, Structural)]
pub enum Button {
    Left,
    Right,
    Middle,
}

/// The byte that stands for a button on the wire.
pub open spec fn button_code(b: Button) -> u8 {
    match b {
        Button::Left => 0,
        Button::Right => 1,
        Button::Middle => 2,
    }
}

impl Button {
    pub fn to_u8(self) -> (v: u8)
        ensures
            v == button_code(self),
    {
        match self {
            Button::Left => 0,
            Button::Right => 1,
            Button::Middle => 2,
        }
    }

    pub fn from_u8(v: u8) -> (res: Result<Self, ProtoError>)
        ensures
            res == button_of(v),
    {
        match v {
            0 => Ok(Button::Left),
            1 => Ok(Button::Right),
            2 => Ok(Button::Middle),
            _ => Err(ProtoError::UnknownButton(v)),
        }
    }
}

/// The button that a byte stands for.
pub open spec fn button_of(v: u8) -> Result<Button, ProtoError> {
    if v == 0 {
        Ok(Button::Left)
    } else if v == 1 {
        Ok(Button::Right)
    } else if v == 2 {
        Ok(Button::Middle)
    } else {
        Err(ProtoError::UnknownButton(v))
    }
}

/// The modifier keys held during a `Key` event, one bit each.
#[derive(Debug, Clone, Copy, PartialEq, Eq, Structural)]
pub struct Modifiers(u8);

impl Modifiers {
    pub closed spec fn spec_bits(self) -> u8 {
        self.0
    }

    pub fn shift() -> (res: Self)
        ensures
            res.spec_bits() == 1,
    {
        Modifiers(1)
    }

    pub fn ctrl() -> (res: Self)
        ensures
            res.spec_bits() == 2,
    {
        Modifiers(2)
    }

    pub fn alt() -> (res: Self)
        ensures
            res.spec_bits() == 4,
    {
        Modifiers(4)
    }

    pub fn super_key() -> (res: Self)
        ensures
            res.spec_bits() == 8,
    {
        Modifiers(8)
    }

    pub fn none() -> (res: Self)
        ensures
            res.spec_bits() == 0,
    {
        Modifiers(0)
    }

    /// Whether every key of `flag` is held.
    pub fn contains(self, flag: Modifiers) -> (res: bool)
        ensures
            res == (self.spec_bits() & flag.spec_bits() == flag.spec_bits()),
    {
        self.0 & flag.0 == flag.0
    }

    pub fn bits(self) -> (res: u8)
        ensures
            res == self.spec_bits(),
    {
        self.0
    }

    /// The set with exactly these bits; a bit without a key is kept.
    pub fn from_bits_truncate(bits: u8) -> (res: Self)
        ensures
            res.spec_bits() == bits,
    {
        Modifiers(bits)
    }
}

impl Default for Modifiers {
    fn default() -> (res: Self)
        ensures
            res.spec_bits() == 0,
    {
        Modifiers(0)
    }
}

impl vstd::std_specs::ops::BitOrSpecImpl for Modifiers {
    open spec fn obeys_bitor_spec() -> bool {
        true
    }

    open spec fn bitor_req(self, rhs: Modifiers) -> bool {
        true
    }

    closed spec fn bitor_spec(self, rhs: Modifiers) -> Modifiers {
        Modifiers(self.0 | rhs.0)
    }
}

impl std::ops::BitOr for Modifiers {
    type Output = Modifiers;

    fn bitor(self, rhs: Modifiers) -> (res: Modifiers)
        ensures
            res.spec_bits() == self.spec_bits() | rhs.spec_bits(),
    {
        Modifiers(self.0 | rhs.0)
    }
}

/// Why bytes are not a message.
#[derive(Debug, Clone, Copy, PartialEq, Eq, Structural)]
pub enum ProtoError {
    /// The stream ends inside the length of a payload.
    TruncatedLength,
    /// The payload would be longer than `MAX_PAYLOAD`.
    PayloadTooLarge(u32),
    /// The stream ends inside a payload.
    TruncatedPayload,
    TruncatedString,
    TruncatedU8,
    TruncatedU16,
    TruncatedU32,
    TruncatedU64,
    /// A text is not well-formed: how many of its bytes are, and how long the invalid sequence
    /// behind them is, or nothing where the bytes end inside a character.
    InvalidUtf8 { valid_up_to: usize, error_len: Option<usize> },
    UnknownButton(u8),
    UnknownTag(u8),
}

/// What a client says about itself, so that the host can fit the stream to it.
#[derive(Debug, Clone, PartialEq, Eq)]
pub struct DeviceProfile {
    /// For logs and for the list of paired devices.
    pub model: String,
    /// The size of the screen in pixels.
    pub screen_width: u32,
    pub screen_height: u32,
    pub density_dpi: u32,
    /// Rounded to whole hertz.
    pub refresh_hz: u32,
    /// The largest frame that the decoder claims, and the frame rate that it claims at that size.
    pub max_decode_width: u32,
    pub max_decode_height: u32,
    pub max_decode_fps: u32,
    /// Whether a decoder made for low latency was found.
    pub low_latency_decoder: bool,
}

/// A `DeviceProfile` with its text as a sequence.
#[verifier::ext_equal]
pub struct ProfileView {
    pub model: Seq<char>,
    pub screen_width: u32,
    pub screen_height: u32,
    pub density_dpi: u32,
    pub refresh_hz: u32,
    pub max_decode_width: u32,
    pub max_decode_height: u32,
    pub max_decode_fps: u32,
    pub low_latency_decoder: bool,
}

impl View for DeviceProfile {
    type V = ProfileView;

    open spec fn view(&self) -> ProfileView {
        ProfileView {
            model: self.model@,
            screen_width: self.screen_width,
            screen_height: self.screen_height,
            density_dpi: self.density_dpi,
            refresh_hz: self.refresh_hz,
            max_decode_width: self.max_decode_width,
            max_decode_height: self.max_decode_height,
            max_decode_fps: self.max_decode_fps,
            low_latency_decoder: self.low_latency_decoder,
        }
    }
}

impl DeviceProfile {
    /// What is taken for a client that says nothing useful about itself: values that nearly every
    /// phone can handle.
    pub fn conservative_default() -> (res: Self)
        ensures
            res@ == (ProfileView {
                model: "unknown"@,
                screen_width: 1280,
                screen_height: 720,
                density_dpi: 320,
                refresh_hz: 60,
                max_decode_width: 1280,
                max_decode_height: 720,
                max_decode_fps: 30,
                low_latency_decoder: false,
            }),
    {
        DeviceProfile {
            model: "unknown".to_string(),
            screen_width: 1280,
            screen_height: 720,
            density_dpi: 320,
            refresh_hz: 60,
            max_decode_width: 1280,
            max_decode_height: 720,
            max_decode_fps: 30,
            low_latency_decoder: false,
        }
    }
}

/// A message, in either direction.
#[derive(Debug, Clone)]
pub enum Message {
    /// Client to host, first on the connection. The token is the pairing secret.
    Hello { protocol_version: u16, token: String, profile: DeviceProfile },
    /// Host to client, in answer to `Hello`. Where `ok` is false the connection is closed.
    HelloAck { ok: bool, reason: String },
    /// Host to client, at the start and whenever the stream changes: all frames behind it have this
    /// format. A frame older than the drop budget should be skipped.
    VideoConfig {
        codec: String,
        width: u32,
        height: u32,
        fps: u32,
        mode: u8,
        drop_budget_ms: u32,
    },
    /// Host to client. The time of capture is on the host's clock; 0 means unknown.
    VideoFrame { keyframe: bool, capture_us: u64, data: Vec<u8> },
    /// Client to host.
    PointerMotionRelative { dx: F32, dy: F32 },
    /// Client to host; both coordinates run from 0 to 1.
    PointerMotionAbsolute { x: F32, y: F32 },
    /// Client to host.
    PointerButton { button: Button, pressed: bool },
    /// Client to host; positive is down and right.
    Scroll { dx: F32, dy: F32 },
    /// Host to client: what the host is doing, and at which stage it failed.
    Status { stage: String, ok: bool, detail: String },
    /// Client to host: a key by its evdev code.
    Key { evdev_code: u32, pressed: bool, modifiers: Modifiers },
    /// Client to host: text that is no plain key.
    Text { utf8: String },
    /// Client to host: selects a preset.
    SetMode { mode: u8 },
    /// Client to host: keeps the connection alive and probes the clock.
    Ping { nonce: u64, t_client_us: u64 },
    /// Host to client: the answer to `Ping`, with the host's clock at both ends.
    Pong { nonce: u64, t_client_us: u64, t_host_recv_us: u64, t_host_send_us: u64 },
}

/// A `Message` with its texts and bytes as sequences.
#[verifier::ext_equal]
pub enum MessageView {
    Hello { protocol_version: u16, token: Seq<char>, profile: ProfileView },
    HelloAck { ok: bool, reason: Seq<char> },
    VideoConfig {
        codec: Seq<char>,
        width: u32,
        height: u32,
        fps: u32,
        mode: u8,
        drop_budget_ms: u32,
    },
    VideoFrame { keyframe: bool, capture_us: u64, data: Seq<u8> },
    PointerMotionRelative { dx: F32, dy: F32 },
    PointerMotionAbsolute { x: F32, y: F32 },
    PointerButton { button: Button, pressed: bool },
    Scroll { dx: F32, dy: F32 },
    Status { stage: Seq<char>, ok: bool, detail: Seq<char> },
    Key { evdev_code: u32, pressed: bool, modifiers: u8 },
    Text { utf8: Seq<char> },
    SetMode { mode: u8 },
    Ping { nonce: u64, t_client_us: u64 },
    Pong { nonce: u64, t_client_us: u64, t_host_recv_us: u64, t_host_send_us: u64 },
}

impl View for Message {
    type V = MessageView;

    open spec fn view(&self) -> MessageView {
        match *self {
            Message::Hello { protocol_version, token, profile } => MessageView::Hello {
                protocol_version,
                token: token@,
                profile: profile@,
            },
            Message::HelloAck { ok, reason } => MessageView::HelloAck { ok, reason: reason@ },
            Message::VideoConfig { codec, width, height, fps, mode, drop_budget_ms } => {
                MessageView::VideoConfig { codec: codec@, width, height, fps, mode, drop_budget_ms }
            },
            Message::VideoFrame { keyframe, capture_us, data } => MessageView::VideoFrame {
                keyframe,
                capture_us,
                data: data@,
            },
            Message::PointerMotionRelative { dx, dy } => MessageView::PointerMotionRelative {
                dx,
                dy,
            },
            Message::PointerMotionAbsolute { x, y } => MessageView::PointerMotionAbsolute { x, y },
            Message::PointerButton { button, pressed } => MessageView::PointerButton {
                button,
                pressed,
            },
            Message::Scroll { dx, dy } => MessageView::Scroll { dx, dy },
            Message::Status { stage, ok, detail } => MessageView::Status {
                stage: stage@,
                ok,
                detail: detail@,
            },
            Message::Key { evdev_code, pressed, modifiers } => MessageView::Key {
                evdev_code,
                pressed,
                modifiers: modifiers.spec_bits(),
            },
            Message::Text { utf8 } => MessageView::Text { utf8: utf8@ },
            Message::SetMode { mode } => MessageView::SetMode { mode },
            Message::Ping { nonce, t_client_us } => MessageView::Ping { nonce, t_client_us },
            Message::Pong { nonce, t_client_us, t_host_recv_us, t_host_send_us } => {
                MessageView::Pong { nonce, t_client_us, t_host_recv_us, t_host_send_us }
            },
        }
    }
}

// ---- the form on the wire ----

/// A flag as one byte.
pub open spec fn flag(b: bool) -> u8 {
    if b {
        1
    } else {
        0
    }
}

pub open spec fn u16_bytes(v: u16) -> Seq<u8> {
    bytes::be(v as nat, 2)
}

pub open spec fn u32_bytes(v: u32) -> Seq<u8> {
    bytes::be(v as nat, 4)
}

pub open spec fn u64_bytes(v: u64) -> Seq<u8> {
    bytes::be(v as nat, 8)
}

/// A text: the length of its UTF-8 form, and that form.
pub open spec fn str_bytes(s: Seq<char>) -> Seq<u8> {
    bytes::be(encode_utf8(s).len(), 4) + encode_utf8(s)
}

/// The tag byte of a message.
pub open spec fn tag(m: MessageView) -> u8 {
    match m {
        MessageView::Hello { .. } => 1,
        MessageView::HelloAck { .. } => 2,
        MessageView::VideoConfig { .. } => 3,
        MessageView::VideoFrame { .. } => 4,
        MessageView::PointerMotionRelative { .. } => 5,
        MessageView::PointerMotionAbsolute { .. } => 6,
        MessageView::PointerButton { .. } => 7,
        MessageView::Scroll { .. } => 8,
        MessageView::Key { .. } => 9,
        MessageView::Text { .. } => 10,
        MessageView::Ping { .. } => 11,
        MessageView::Pong { .. } => 12,
        MessageView::SetMode { .. } => 13,
        MessageView::Status { .. } => 14,
    }
}

/// What a profile adds to the payload of `Hello`.
pub open spec fn profile_bytes(p: ProfileView) -> Seq<u8> {
    str_bytes(p.model) + (u32_bytes(p.screen_width) + (u32_bytes(p.screen_height) + (u32_bytes(
        p.density_dpi,
    ) + (u32_bytes(p.refresh_hz) + (u32_bytes(p.max_decode_width) + (u32_bytes(p.max_decode_height)
        + (u32_bytes(p.max_decode_fps) + seq![flag(p.low_latency_decoder)])))))))
}

/// The payload of a message.
pub open spec fn payload(m: MessageView) -> Seq<u8> {
    match m {
        MessageView::Hello { protocol_version, token, profile } => u16_bytes(protocol_version) + (
        str_bytes(token) + profile_bytes(profile)),
        MessageView::HelloAck { ok, reason } => seq![flag(ok)] + str_bytes(reason),
        MessageView::VideoConfig { codec, width, height, fps, mode, drop_budget_ms } => str_bytes(
            codec,
        ) + (u32_bytes(width) + (u32_bytes(height) + (u32_bytes(fps) + (seq![mode] + u32_bytes(
            drop_budget_ms,
        ))))),
        MessageView::VideoFrame { keyframe, capture_us, data } => seq![flag(keyframe)] + (u64_bytes(
            capture_us,
        ) + data),
        MessageView::PointerMotionRelative { dx, dy } => u32_bytes(dx.0) + u32_bytes(dy.0),
        MessageView::PointerMotionAbsolute { x, y } => u32_bytes(x.0) + u32_bytes(y.0),
        MessageView::PointerButton { button, pressed } => seq![button_code(button), flag(pressed)],
        MessageView::Scroll { dx, dy } => u32_bytes(dx.0) + u32_bytes(dy.0),
        MessageView::Status { stage, ok, detail } => str_bytes(stage) + (seq![flag(ok)] + str_bytes(
            detail,
        )),
        MessageView::Key { evdev_code, pressed, modifiers } => u32_bytes(evdev_code) + seq![
            flag(pressed),
            modifiers,
        ],
        MessageView::Text { utf8 } => str_bytes(utf8),
        MessageView::SetMode { mode } => seq![mode],
        MessageView::Ping { nonce, t_client_us } => u64_bytes(nonce) + u64_bytes(t_client_us),
        MessageView::Pong { nonce, t_client_us, t_host_recv_us, t_host_send_us } => u64_bytes(nonce)
            + (u64_bytes(t_client_us) + (u64_bytes(t_host_recv_us) + u64_bytes(t_host_send_us))),
    }
}

/// A message on the wire: its tag, the length of its payload, its payload.
pub open spec fn wire(m: MessageView) -> Seq<u8> {
    seq![tag(m)] + bytes::be(payload(m).len(), 4) + payload(m)
}

fn push_u32(buf: &mut Vec<u8>, v: u32)
    ensures
        final(buf)@ == old(buf)@ + u32_bytes(v),
{
    bytes::push_be(buf, v as u64, 4);
}

fn push_u64(buf: &mut Vec<u8>, v: u64)
    ensures
        final(buf)@ == old(buf)@ + u64_bytes(v),
{
    bytes::push_be(buf, v, 8);
}

fn push_flag(buf: &mut Vec<u8>, b: bool)
    ensures
        final(buf)@ == old(buf)@.push(flag(b)),
{
    buf.push(
        if b {
            1
        } else {
            0
        },
    );
}

fn write_str(buf: &mut Vec<u8>, s: &str)
    ensures
        final(buf)@ == old(buf)@ + str_bytes(s@),
{
    let utf8 = s.as_bytes();
    bytes::push_be(buf, utf8.len() as u64, 4);
    buf.extend_from_slice(utf8);
    assert(buf@ =~= old(buf)@ + str_bytes(s@));
}

fn write_profile(buf: &mut Vec<u8>, profile: &DeviceProfile)
    ensures
        final(buf)@ == old(buf)@ + profile_bytes(profile@),
{
    write_str(buf, profile.model.as_str());
    push_u32(buf, profile.screen_width);
    push_u32(buf, profile.screen_height);
    push_u32(buf, profile.density_dpi);
    push_u32(buf, profile.refresh_hz);
    push_u32(buf, profile.max_decode_width);
    push_u32(buf, profile.max_decode_height);
    push_u32(buf, profile.max_decode_fps);
    push_flag(buf, profile.low_latency_decoder);
    assert(buf@ =~= old(buf)@ + profile_bytes(profile@));
}

impl Message {
    /// Appends the message in its wire form.
    pub fn write_to(&self, w: &mut Vec<u8>)
        ensures
            final(w)@ == old(w)@ + wire(self@),
    {
        let mut payload: Vec<u8> = Vec::new();
        let tag: u8 = match self {
            Message::Hello { protocol_version, token, profile } => {
                bytes::push_be(&mut payload, *protocol_version as u64, 2);
                write_str(&mut payload, token.as_str());
                write_profile(&mut payload, profile);
                assert(payload@ =~= self::payload(self@));
                1
            },
            Message::HelloAck { ok, reason } => {
                push_flag(&mut payload, *ok);
                write_str(&mut payload, reason.as_str());
                assert(payload@ =~= self::payload(self@));
                2
            },
            Message::VideoConfig { codec, width, height, fps, mode, drop_budget_ms } => {
                write_str(&mut payload, codec.as_str());
                push_u32(&mut payload, *width);
                push_u32(&mut payload, *height);
                push_u32(&mut payload, *fps);
                payload.push(*mode);
                push_u32(&mut payload, *drop_budget_ms);
                assert(payload@ =~= self::payload(self@));
                3
            },
            Message::VideoFrame { keyframe, capture_us, data } => {
                push_flag(&mut payload, *keyframe);
                push_u64(&mut payload, *capture_us);
                payload.extend_from_slice(data.as_slice());
                assert(payload@ =~= self::payload(self@));
                4
            },
            Message::PointerMotionRelative { dx, dy } => {
                push_u32(&mut payload, dx.0);
                push_u32(&mut payload, dy.0);
                assert(payload@ =~= self::payload(self@));
                5
            },
            Message::PointerMotionAbsolute { x, y } => {
                push_u32(&mut payload, x.0);
                push_u32(&mut payload, y.0);
                assert(payload@ =~= self::payload(self@));
                6
            },
            Message::PointerButton { button, pressed } => {
                payload.push(button.to_u8());
                push_flag(&mut payload, *pressed);
                assert(payload@ =~= self::payload(self@));
                7
            },
            Message::Scroll { dx, dy } => {
                push_u32(&mut payload, dx.0);
                push_u32(&mut payload, dy.0);
                assert(payload@ =~= self::payload(self@));
                8
            },
            Message::Key { evdev_code, pressed, modifiers } => {
                push_u32(&mut payload, *evdev_code);
                push_flag(&mut payload, *pressed);
                payload.push(modifiers.bits());
                assert(payload@ =~= self::payload(self@));
                9
            },
            Message::Text { utf8 } => {
                write_str(&mut payload, utf8.as_str());
                assert(payload@ =~= self::payload(self@));
                10
            },
            Message::SetMode { mode } => {
                payload.push(*mode);
                assert(payload@ =~= self::payload(self@));
                13
            },
            Message::Ping { nonce, t_client_us } => {
                push_u64(&mut payload, *nonce);
                push_u64(&mut payload, *t_client_us);
                assert(payload@ =~= self::payload(self@));
                11
            },
            Message::Pong { nonce, t_client_us, t_host_recv_us, t_host_send_us } => {
                push_u64(&mut payload, *nonce);
                push_u64(&mut payload, *t_client_us);
                push_u64(&mut payload, *t_host_recv_us);
                push_u64(&mut payload, *t_host_send_us);
                assert(payload@ =~= self::payload(self@));
                12
            },
            Message::Status { stage, ok, detail } => {
                write_str(&mut payload, stage.as_str());
                push_flag(&mut payload, *ok);
                write_str(&mut payload, detail.as_str());
                assert(payload@ =~= self::payload(self@));
                14
            },
        };
        w.push(tag);
        bytes::push_be(w, payload.len() as u64, 4);
        w.extend_from_slice(payload.as_slice());
        assert(w@ =~= old(w)@ + wire(self@));
    }
}

// ---- reading ----

/// A field taken off the front of some bytes, and what is left of them.
pub type Taken<T> = Result<(T, Seq<u8>), ProtoError>;

pub open spec fn take_u8(p: Seq<u8>) -> Taken<u8> {
    if p.len() < 1 {
        Err(ProtoError::TruncatedU8)
    } else {
        Ok((p[0], p.skip(1)))
    }
}

pub open spec fn take_u16(p: Seq<u8>) -> Taken<u16> {
    if p.len() < 2 {
        Err(ProtoError::TruncatedU16)
    } else {
        Ok((bytes::be_value(p.take(2)) as u16, p.skip(2)))
    }
}

pub open spec fn take_u32(p: Seq<u8>) -> Taken<u32> {
    if p.len() < 4 {
        Err(ProtoError::TruncatedU32)
    } else {
        Ok((bytes::be_value(p.take(4)) as u32, p.skip(4)))
    }
}

pub open spec fn take_u64(p: Seq<u8>) -> Taken<u64> {
    if p.len() < 8 {
        Err(ProtoError::TruncatedU64)
    } else {
        Ok((bytes::be_value(p.take(8)) as u64, p.skip(8)))
    }
}

/// Any byte but 0 is a set flag.
pub open spec fn take_flag(p: Seq<u8>) -> Taken<bool> {
    match take_u8(p) {
        Err(e) => Err(e),
        Ok((v, p)) => Ok((v != 0, p)),
    }
}

/// The error for bytes that are no text.
pub open spec fn invalid_text(b: Seq<u8>) -> ProtoError {
    ProtoError::InvalidUtf8 {
        valid_up_to: text::longest_text(b, b.len() as int) as usize,
        error_len: text::utf8_error_len(b),
    }
}

/// What reading a text leaves of some bytes, whether it can be read or not: its length is taken off
/// where there is one, and then its bytes where they are all there.
pub open spec fn behind_str(p: Seq<u8>) -> Seq<u8> {
    match take_u32(p) {
        Err(_) => p,
        Ok((n, q)) => if q.len() < n {
            q
        } else {
            q.skip(n as int)
        },
    }
}

pub open spec fn take_str(p: Seq<u8>) -> Taken<Seq<char>> {
    match take_u32(p) {
        Err(e) => Err(e),
        Ok((n, p)) => if p.len() < n {
            Err(ProtoError::TruncatedString)
        } else if !valid_utf8(p.take(n as int)) {
            Err(invalid_text(p.take(n as int)))
        } else {
            Ok((decode_utf8(p.take(n as int)), p.skip(n as int)))
        },
    }
}

/// Two numbers of 32 bits.
pub open spec fn take_pair(p: Seq<u8>) -> Taken<(u32, u32)> {
    match take_u32(p) {
        Err(e) => Err(e),
        Ok((a, p)) => match take_u32(p) {
            Err(e) => Err(e),
            Ok((b, p)) => Ok(((a, b), p)),
        },
    }
}

/// Two numbers of 64 bits.
pub open spec fn take_times(p: Seq<u8>) -> Taken<(u64, u64)> {
    match take_u64(p) {
        Err(e) => Err(e),
        Ok((a, p)) => match take_u64(p) {
            Err(e) => Err(e),
            Ok((b, p)) => Ok(((a, b), p)),
        },
    }
}

pub open spec fn take_profile(p: Seq<u8>) -> Taken<ProfileView> {
    match take_str(p) {
        Err(e) => Err(e),
        Ok((model, p)) => match take_pair(p) {
            Err(e) => Err(e),
            Ok(((screen_width, screen_height), p)) => match take_pair(p) {
                Err(e) => Err(e),
                Ok(((density_dpi, refresh_hz), p)) => match take_pair(p) {
                    Err(e) => Err(e),
                    Ok(((max_decode_width, max_decode_height), p)) => match take_u32(p) {
                        Err(e) => Err(e),
                        Ok((max_decode_fps, p)) => match take_flag(p) {
                            Err(e) => Err(e),
                            Ok((low_latency_decoder, p)) => Ok(
                                (
                                    ProfileView {
                                        model,
                                        screen_width,
                                        screen_height,
                                        density_dpi,
                                        refresh_hz,
                                        max_decode_width,
                                        max_decode_height,
                                        max_decode_fps,
                                        low_latency_decoder,
                                    },
                                    p,
                                ),
                            ),
                        },
                    },
                },
            },
        },
    }
}

pub open spec fn decode_hello(p: Seq<u8>) -> Result<MessageView, ProtoError> {
    match take_u16(p) {
        Err(e) => Err(e),
        Ok((protocol_version, p)) => match take_str(p) {
            Err(e) => Err(e),
            Ok((token, p)) => match take_profile(p) {
                Err(e) => Err(e),
                Ok((profile, _)) => Ok(MessageView::Hello { protocol_version, token, profile }),
            },
        },
    }
}

pub open spec fn decode_hello_ack(p: Seq<u8>) -> Result<MessageView, ProtoError> {
    match take_flag(p) {
        Err(e) => Err(e),
        Ok((ok, p)) => match take_str(p) {
            Err(e) => Err(e),
            Ok((reason, _)) => Ok(MessageView::HelloAck { ok, reason }),
        },
    }
}

pub open spec fn decode_video_config(p: Seq<u8>) -> Result<MessageView, ProtoError> {
    match take_str(p) {
        Err(e) => Err(e),
        Ok((codec, p)) => match take_pair(p) {
            Err(e) => Err(e),
            Ok(((width, height), p)) => match take_u32(p) {
                Err(e) => Err(e),
                Ok((fps, p)) => match take_u8(p) {
                    Err(e) => Err(e),
                    Ok((mode, p)) => match take_u32(p) {
                        Err(e) => Err(e),
                        Ok((drop_budget_ms, _)) => Ok(
                            MessageView::VideoConfig {
                                codec,
                                width,
                                height,
                                fps,
                                mode,
                                drop_budget_ms,
                            },
                        ),
                    },
                },
            },
        },
    }
}

pub open spec fn decode_video_frame(p: Seq<u8>) -> Result<MessageView, ProtoError> {
    match take_flag(p) {
        Err(e) => Err(e),
        Ok((keyframe, p)) => match take_u64(p) {
            Err(e) => Err(e),
            Ok((capture_us, data)) => Ok(MessageView::VideoFrame { keyframe, capture_us, data }),
        },
    }
}

pub open spec fn decode_button(p: Seq<u8>) -> Result<MessageView, ProtoError> {
    match take_u8(p) {
        Err(e) => Err(e),
        Ok((code, p)) => match button_of(code) {
            Err(e) => Err(e),
            Ok(button) => match take_flag(p) {
                Err(e) => Err(e),
                Ok((pressed, _)) => Ok(MessageView::PointerButton { button, pressed }),
            },
        },
    }
}

pub open spec fn decode_key(p: Seq<u8>) -> Result<MessageView, ProtoError> {
    match take_u32(p) {
        Err(e) => Err(e),
        Ok((evdev_code, p)) => match take_flag(p) {
            Err(e) => Err(e),
            Ok((pressed, p)) => match take_u8(p) {
                Err(e) => Err(e),
                Ok((modifiers, _)) => Ok(MessageView::Key { evdev_code, pressed, modifiers }),
            },
        },
    }
}

pub open spec fn decode_status(p: Seq<u8>) -> Result<MessageView, ProtoError> {
    match take_str(p) {
        Err(e) => Err(e),
        Ok((stage, p)) => match take_flag(p) {
            Err(e) => Err(e),
            Ok((ok, p)) => match take_str(p) {
                Err(e) => Err(e),
                Ok((detail, _)) => Ok(MessageView::Status { stage, ok, detail }),
            },
        },
    }
}

pub open spec fn decode_pong(p: Seq<u8>) -> Result<MessageView, ProtoError> {
    match take_times(p) {
        Err(e) => Err(e),
        Ok(((nonce, t_client_us), p)) => match take_times(p) {
            Err(e) => Err(e),
            Ok(((t_host_recv_us, t_host_send_us), _)) => Ok(
                MessageView::Pong { nonce, t_client_us, t_host_recv_us, t_host_send_us },
            ),
        },
    }
}

/// What a payload says under a tag. Bytes behind the last field are ignored.
pub open spec fn decode(tag: u8, p: Seq<u8>) -> Result<MessageView, ProtoError> {
    if tag == 1 {
        decode_hello(p)
    } else if tag == 2 {
        decode_hello_ack(p)
    } else if tag == 3 {
        decode_video_config(p)
    } else if tag == 4 {
        decode_video_frame(p)
    } else if tag == 5 {
        match take_pair(p) {
            Err(e) => Err(e),
            Ok(((dx, dy), _)) => Ok(
                MessageView::PointerMotionRelative { dx: F32(dx), dy: F32(dy) },
            ),
        }
    } else if tag == 6 {
        match take_pair(p) {
            Err(e) => Err(e),
            Ok(((x, y), _)) => Ok(MessageView::PointerMotionAbsolute { x: F32(x), y: F32(y) }),
        }
    } else if tag == 7 {
        decode_button(p)
    } else if tag == 8 {
        match take_pair(p) {
            Err(e) => Err(e),
            Ok(((dx, dy), _)) => Ok(MessageView::Scroll { dx: F32(dx), dy: F32(dy) }),
        }
    } else if tag == 9 {
        decode_key(p)
    } else if tag == 10 {
        match take_str(p) {
            Err(e) => Err(e),
            Ok((utf8, _)) => Ok(MessageView::Text { utf8 }),
        }
    } else if tag == 11 {
        match take_times(p) {
            Err(e) => Err(e),
            Ok(((nonce, t_client_us), _)) => Ok(MessageView::Ping { nonce, t_client_us }),
        }
    } else if tag == 12 {
        decode_pong(p)
    } else if tag == 13 {
        match take_u8(p) {
            Err(e) => Err(e),
            Ok((mode, _)) => Ok(MessageView::SetMode { mode }),
        }
    } else if tag == 14 {
        decode_status(p)
    } else {
        Err(ProtoError::UnknownTag(tag))
    }
}

/// What reading one message off a stream gives, and what is left of the stream.
pub open spec fn reading(d: Seq<u8>) -> (Result<Option<MessageView>, ProtoError>, Seq<u8>) {
    if d.len() == 0 {
        (Ok(None), d)
    } else if d.len() < 5 {
        (Err(ProtoError::TruncatedLength), Seq::empty())
    } else {
        let n = bytes::be_value(d.subrange(1, 5)) as int;
        if n > MAX_PAYLOAD {
            (Err(ProtoError::PayloadTooLarge(n as u32)), d.skip(5))
        } else if d.len() < 5 + n {
            (Err(ProtoError::TruncatedPayload), Seq::empty())
        } else {
            (
                match decode(d[0], d.subrange(5, 5 + n)) {
                    Ok(m) => Ok(Some(m)),
                    Err(e) => Err(e),
                },
                d.skip(5 + n),
            )
        }
    }
}

fn read_u8(p: &mut &[u8]) -> (res: Result<u8, ProtoError>)
    ensures
        take_u8(old(p)@) == (match res {
            Ok(v) => Ok((v, final(p)@)),
            Err(e) => Err(e),
        }),
        res is Err ==> final(p)@ == old(p)@,
{
    match bytes::take_bytes(p, 1) {
        None => Err(ProtoError::TruncatedU8),
        Some(b) => Ok(b[0]),
    }
}

fn read_flag(p: &mut &[u8]) -> (res: Result<bool, ProtoError>)
    ensures
        take_flag(old(p)@) == (match res {
            Ok(v) => Ok((v, final(p)@)),
            Err(e) => Err(e),
        }),
        res is Err ==> final(p)@ == old(p)@,
{
    match read_u8(p) {
        Err(e) => Err(e),
        Ok(v) => Ok(v != 0),
    }
}

fn read_u16(p: &mut &[u8]) -> (res: Result<u16, ProtoError>)
    ensures
        take_u16(old(p)@) == (match res {
            Ok(v) => Ok((v, final(p)@)),
            Err(e) => Err(e),
        }),
        res is Err ==> final(p)@ == old(p)@,
{
    match bytes::take_bytes(p, 2) {
        None => Err(ProtoError::TruncatedU16),
        Some(b) => {
            proof {
                bytes::lemma_pow256();
            }
            Ok(bytes::read_be(b) as u16)
        },
    }
}

fn read_u32(p: &mut &[u8]) -> (res: Result<u32, ProtoError>)
    ensures
        take_u32(old(p)@) == (match res {
            Ok(v) => Ok((v, final(p)@)),
            Err(e) => Err(e),
        }),
        res is Err ==> final(p)@ == old(p)@,
{
    match bytes::take_bytes(p, 4) {
        None => Err(ProtoError::TruncatedU32),
        Some(b) => {
            proof {
                bytes::lemma_pow256();
            }
            Ok(bytes::read_be(b) as u32)
        },
    }
}

fn read_u64(p: &mut &[u8]) -> (res: Result<u64, ProtoError>)
    ensures
        take_u64(old(p)@) == (match res {
            Ok(v) => Ok((v, final(p)@)),
            Err(e) => Err(e),
        }),
        res is Err ==> final(p)@ == old(p)@,
{
    match bytes::take_bytes(p, 8) {
        None => Err(ProtoError::TruncatedU64),
        Some(b) => Ok(bytes::read_be(b)),
    }
}

fn read_str(p: &mut &[u8]) -> (res: Result<String, ProtoError>)
    ensures
        take_str(old(p)@) == (match res {
            Ok(v) => Ok((v@, final(p)@)),
            Err(e) => Err(e),
        }),
        final(p)@ == behind_str(old(p)@),
{
    let n: u32 = read_u32(p)?;
    match bytes::take_bytes(p, n as usize) {
        None => Err(ProtoError::TruncatedString),
        Some(b) => match text::text_of(b) {
            Err(f) => Err(
                ProtoError::InvalidUtf8 { valid_up_to: f.valid_up_to, error_len: f.error_len },
            ),
            Ok(s) => Ok(s),
        },
    }
}

fn read_pair(p: &mut &[u8]) -> (res: Result<(u32, u32), ProtoError>)
    ensures
        take_pair(old(p)@) == (match res {
            Ok(v) => Ok((v, final(p)@)),
            Err(e) => Err(e),
        }),
{
    let a: u32 = read_u32(p)?;
    let b: u32 = read_u32(p)?;
    Ok((a, b))
}

fn read_times(p: &mut &[u8]) -> (res: Result<(u64, u64), ProtoError>)
    ensures
        take_times(old(p)@) == (match res {
            Ok(v) => Ok((v, final(p)@)),
            Err(e) => Err(e),
        }),
{
    let a: u64 = read_u64(p)?;
    let b: u64 = read_u64(p)?;
    Ok((a, b))
}

fn read_profile(p: &mut &[u8]) -> (res: Result<DeviceProfile, ProtoError>)
    ensures
        take_profile(old(p)@) == (match res {
            Ok(v) => Ok((v@, final(p)@)),
            Err(e) => Err(e),
        }),
{
    let model = read_str(p)?;
    let (screen_width, screen_height) = read_pair(p)?;
    let (density_dpi, refresh_hz) = read_pair(p)?;
    let (max_decode_width, max_decode_height) = read_pair(p)?;
    let max_decode_fps: u32 = read_u32(p)?;
    let low_latency_decoder = read_flag(p)?;
    Ok(
        DeviceProfile {
            model,
            screen_width,
            screen_height,
            density_dpi,
            refresh_hz,
            max_decode_width,
            max_decode_height,
            max_decode_fps,
            low_latency_decoder,
        },
    )
}

/// What a payload says under a tag.
fn decode_payload(tag: u8, payload: &[u8]) -> (res: Result<Message, ProtoError>)
    ensures
        decode(tag, payload@) == (match res {
            Ok(m) => Ok(m@),
            Err(e) => Err(e),
        }),
{
    let mut p: &[u8] = payload;
    match tag {
        1 => {
            let protocol_version: u16 = read_u16(&mut p)?;
            let token = read_str(&mut p)?;
            let profile = read_profile(&mut p)?;
            Ok(Message::Hello { protocol_version, token, profile })
        },
        2 => {
            let ok = read_flag(&mut p)?;
            let reason = read_str(&mut p)?;
            Ok(Message::HelloAck { ok, reason })
        },
        3 => {
            let codec = read_str(&mut p)?;
            let (width, height) = read_pair(&mut p)?;
            let fps: u32 = read_u32(&mut p)?;
            let mode: u8 = read_u8(&mut p)?;
            let drop_budget_ms: u32 = read_u32(&mut p)?;
            Ok(Message::VideoConfig { codec, width, height, fps, mode, drop_budget_ms })
        },
        4 => {
            let keyframe = read_flag(&mut p)?;
            let capture_us: u64 = read_u64(&mut p)?;
            Ok(
                Message::VideoFrame {
                    keyframe,
                    capture_us,
                    data: vstd::slice::slice_to_vec(p),
                },
            )
        },
        5 => {
            let (dx, dy) = read_pair(&mut p)?;
            Ok(Message::PointerMotionRelative { dx: F32(dx), dy: F32(dy) })
        },
        6 => {
            let (x, y) = read_pair(&mut p)?;
            Ok(Message::PointerMotionAbsolute { x: F32(x), y: F32(y) })
        },
        7 => {
            let code: u8 = read_u8(&mut p)?;
            let button = Button::from_u8(code)?;
            let pressed = read_flag(&mut p)?;
            Ok(Message::PointerButton { button, pressed })
        },
        8 => {
            let (dx, dy) = read_pair(&mut p)?;
            Ok(Message::Scroll { dx: F32(dx), dy: F32(dy) })
        },
        9 => {
            let evdev_code: u32 = read_u32(&mut p)?;
            let pressed = read_flag(&mut p)?;
            let bits: u8 = read_u8(&mut p)?;
            Ok(
                Message::Key {
                    evdev_code,
                    pressed,
                    modifiers: Modifiers::from_bits_truncate(bits),
                },
            )
        },
        10 => {
            let utf8 = read_str(&mut p)?;
            Ok(Message::Text { utf8 })
        },
        11 => {
            let (nonce, t_client_us) = read_times(&mut p)?;
            Ok(Message::Ping { nonce, t_client_us })
        },
        12 => {
            let (nonce, t_client_us) = read_times(&mut p)?;
            let (t_host_recv_us, t_host_send_us) = read_times(&mut p)?;
            Ok(Message::Pong { nonce, t_client_us, t_host_recv_us, t_host_send_us })
        },
        13 => {
            let mode: u8 = read_u8(&mut p)?;
            Ok(Message::SetMode { mode })
        },
        14 => {
            let stage = read_str(&mut p)?;
            let ok = read_flag(&mut p)?;
            let detail = read_str(&mut p)?;
            Ok(Message::Status { stage, ok, detail })
        },
        other => Err(ProtoError::UnknownTag(other)),
    }
}

impl Message {
    /// Reads one message off a stream; `None` where the stream ends before it.
    pub fn read_from(r: &mut &[u8]) -> (res: Result<Option<Message>, ProtoError>)
        ensures
            final(r)@ == reading(old(r)@).1,
            reading(old(r)@).0 == (match res {
                Ok(Some(m)) => Ok(Some(m@)),
                Ok(None) => Ok(None),
                Err(e) => Err(e),
            }),
    {
        let d: &[u8] = *r;
        if d.len() == 0 {
            return Ok(None);
        }
        if d.len() < 5 {
            *r = vstd::slice::slice_subrange(d, d.len(), d.len());
            assert(r@ =~= Seq::<u8>::empty());
            return Err(ProtoError::TruncatedLength);
        }
        proof {
            bytes::lemma_pow256();
        }
        let len: u32 = bytes::read_be(vstd::slice::slice_subrange(d, 1, 5)) as u32;
        let rest = vstd::slice::slice_subrange(d, 5, d.len());
        assert(rest@ =~= d@.skip(5));
        *r = rest;
        if len > MAX_PAYLOAD {
            return Err(ProtoError::PayloadTooLarge(len));
        }
        let n: usize = len as usize;
        if rest.len() < n {
            *r = vstd::slice::slice_subrange(d, d.len(), d.len());
            assert(r@ =~= Seq::<u8>::empty());
            return Err(ProtoError::TruncatedPayload);
        }
        let payload = vstd::slice::slice_subrange(rest, 0, n);
        *r = vstd::slice::slice_subrange(rest, n, rest.len());
        assert(payload@ =~= d@.subrange(5, 5 + n));
        assert(r@ =~= d@.skip(5 + n));
        match decode_payload(d[0], payload) {
            Ok(m) => Ok(Some(m)),
            Err(e) => Err(e),
        }
    }
}

// ---- laws ----

proof fn lemma_take_u8(v: u8, rest: Seq<u8>)
    ensures
        take_u8(seq![v] + rest) == Ok::<(u8, Seq<u8>), ProtoError>((v, rest)),
{
    assert((seq![v] + rest).skip(1) =~= rest);
}

proof fn lemma_take_flag(b: bool, rest: Seq<u8>)
    ensures
        take_flag(seq![flag(b)] + rest) == Ok::<(bool, Seq<u8>), ProtoError>((b, rest)),
{
    lemma_take_u8(flag(b), rest);
}

proof fn lemma_take_u16(v: u16, rest: Seq<u8>)
    ensures
        take_u16(u16_bytes(v) + rest) == Ok::<(u16, Seq<u8>), ProtoError>((v, rest)),
{
    bytes::lemma_pow256();
    bytes::be_round_trip(v as nat, 2);
    let p = u16_bytes(v) + rest;
    assert(p.take(2) =~= u16_bytes(v));
    assert(p.skip(2) =~= rest);
}

proof fn lemma_take_u32(v: u32, rest: Seq<u8>)
    ensures
        take_u32(u32_bytes(v) + rest) == Ok::<(u32, Seq<u8>), ProtoError>((v, rest)),
{
    bytes::lemma_pow256();
    bytes::be_round_trip(v as nat, 4);
    let p = u32_bytes(v) + rest;
    assert(p.take(4) =~= u32_bytes(v));
    assert(p.skip(4) =~= rest);
}

proof fn lemma_take_u64(v: u64, rest: Seq<u8>)
    ensures
        take_u64(u64_bytes(v) + rest) == Ok::<(u64, Seq<u8>), ProtoError>((v, rest)),
{
    bytes::lemma_pow256();
    bytes::be_round_trip(v as nat, 8);
    let p = u64_bytes(v) + rest;
    assert(p.take(8) =~= u64_bytes(v));
    assert(p.skip(8) =~= rest);
}

/// A text that was written is read back, whatever comes behind it: what stands in front of it is the
/// number of its bytes, not that of its characters.
pub proof fn a_text_reads_back(s: Seq<char>, rest: Seq<u8>)
    requires
        encode_utf8(s).len() <= u32::MAX,
    ensures
        take_str(str_bytes(s) + rest) == Ok::<(Seq<char>, Seq<u8>), ProtoError>((s, rest)),
{
    let e = encode_utf8(s);
    let n = e.len() as u32;
    assert(str_bytes(s) + rest =~= u32_bytes(n) + (e + rest));
    lemma_take_u32(n, e + rest);
    assert((e + rest).take(n as int) =~= e);
    assert((e + rest).skip(n as int) =~= rest);
    encode_utf8_valid_utf8(s);
    encode_utf8_decode_utf8(s);
}

proof fn lemma_take_pair(a: u32, b: u32, rest: Seq<u8>)
    ensures
        take_pair(u32_bytes(a) + (u32_bytes(b) + rest)) == Ok::<((u32, u32), Seq<u8>), ProtoError>(
            ((a, b), rest),
        ),
{
    lemma_take_u32(a, u32_bytes(b) + rest);
    lemma_take_u32(b, rest);
}

proof fn lemma_take_times(a: u64, b: u64, rest: Seq<u8>)
    ensures
        take_times(u64_bytes(a) + (u64_bytes(b) + rest)) == Ok::<((u64, u64), Seq<u8>), ProtoError>(
            ((a, b), rest),
        ),
{
    lemma_take_u64(a, u64_bytes(b) + rest);
    lemma_take_u64(b, rest);
}

proof fn lemma_take_profile(p: ProfileView)
    requires
        encode_utf8(p.model).len() <= u32::MAX,
    ensures
        take_profile(profile_bytes(p)) == Ok::<(ProfileView, Seq<u8>), ProtoError>(
            (p, Seq::<u8>::empty()),
        ),
{
    let none = Seq::<u8>::empty();
    let last = seq![flag(p.low_latency_decoder)];
    assert(last + none =~= last);
    let fps = u32_bytes(p.max_decode_fps) + last;
    let decode = u32_bytes(p.max_decode_width) + (u32_bytes(p.max_decode_height) + fps);
    let density = u32_bytes(p.density_dpi) + (u32_bytes(p.refresh_hz) + decode);
    let screen = u32_bytes(p.screen_width) + (u32_bytes(p.screen_height) + density);
    assert(profile_bytes(p) == str_bytes(p.model) + screen);
    a_text_reads_back(p.model, screen);
    lemma_take_pair(p.screen_width, p.screen_height, density);
    lemma_take_pair(p.density_dpi, p.refresh_hz, decode);
    lemma_take_pair(p.max_decode_width, p.max_decode_height, fps);
    lemma_take_u32(p.max_decode_fps, last);
    lemma_take_flag(p.low_latency_decoder, none);
}

proof fn lemma_hello(m: MessageView)
    requires
        m is Hello,
        payload(m).len() <= MAX_PAYLOAD,
    ensures
        decode(tag(m), payload(m)) == Ok::<MessageView, ProtoError>(m),
{
    if let MessageView::Hello { protocol_version, token, profile } = m {
        lemma_take_u16(protocol_version, str_bytes(token) + profile_bytes(profile));
        a_text_reads_back(token, profile_bytes(profile));
        lemma_take_profile(profile);
    }
}

proof fn lemma_hello_ack(m: MessageView)
    requires
        m is HelloAck,
        payload(m).len() <= MAX_PAYLOAD,
    ensures
        decode(tag(m), payload(m)) == Ok::<MessageView, ProtoError>(m),
{
    let none = Seq::<u8>::empty();
    if let MessageView::HelloAck { ok, reason } = m {
        assert(str_bytes(reason) + none =~= str_bytes(reason));
        lemma_take_flag(ok, str_bytes(reason));
        a_text_reads_back(reason, none);
    }
}

proof fn lemma_video_config(m: MessageView)
    requires
        m is VideoConfig,
        payload(m).len() <= MAX_PAYLOAD,
    ensures
        decode(tag(m), payload(m)) == Ok::<MessageView, ProtoError>(m),
{
    let none = Seq::<u8>::empty();
    if let MessageView::VideoConfig { codec, width, height, fps, mode, drop_budget_ms } = m {
        let last = u32_bytes(drop_budget_ms);
        assert(last + none =~= last);
        let tail = u32_bytes(fps) + (seq![mode] + last);
        a_text_reads_back(codec, u32_bytes(width) + (u32_bytes(height) + tail));
        lemma_take_pair(width, height, tail);
        lemma_take_u32(fps, seq![mode] + last);
        lemma_take_u8(mode, last);
        lemma_take_u32(drop_budget_ms, none);
    }
}

proof fn lemma_button(m: MessageView)
    requires
        m is PointerButton,
        payload(m).len() <= MAX_PAYLOAD,
    ensures
        decode(tag(m), payload(m)) == Ok::<MessageView, ProtoError>(m),
{
    let none = Seq::<u8>::empty();
    if let MessageView::PointerButton { button, pressed } = m {
        let last = seq![flag(pressed)];
        assert(last + none =~= last);
        assert(payload(m) =~= seq![button_code(button)] + last);
        lemma_take_u8(button_code(button), last);
        lemma_take_flag(pressed, none);
    }
}

proof fn lemma_status(m: MessageView)
    requires
        m is Status,
        payload(m).len() <= MAX_PAYLOAD,
    ensures
        decode(tag(m), payload(m)) == Ok::<MessageView, ProtoError>(m),
{
    let none = Seq::<u8>::empty();
    if let MessageView::Status { stage, ok, detail } = m {
        assert(str_bytes(detail) + none =~= str_bytes(detail));
        a_text_reads_back(stage, seq![flag(ok)] + str_bytes(detail));
        lemma_take_flag(ok, str_bytes(detail));
        a_text_reads_back(detail, none);
    }
}

proof fn lemma_key(m: MessageView)
    requires
        m is Key,
        payload(m).len() <= MAX_PAYLOAD,
    ensures
        decode(tag(m), payload(m)) == Ok::<MessageView, ProtoError>(m),
{
    let none = Seq::<u8>::empty();
    if let MessageView::Key { evdev_code, pressed, modifiers } = m {
        let last = seq![modifiers];
        assert(last + none =~= last);
        assert(payload(m) =~= u32_bytes(evdev_code) + (seq![flag(pressed)] + last));
        lemma_take_u32(evdev_code, seq![flag(pressed)] + last);
        lemma_take_flag(pressed, last);
        lemma_take_u8(modifiers, none);
    }
}

proof fn lemma_pong(m: MessageView)
    requires
        m is Pong,
        payload(m).len() <= MAX_PAYLOAD,
    ensures
        decode(tag(m), payload(m)) == Ok::<MessageView, ProtoError>(m),
{
    let none = Seq::<u8>::empty();
    if let MessageView::Pong { nonce, t_client_us, t_host_recv_us, t_host_send_us } = m {
        let last = u64_bytes(t_host_recv_us) + u64_bytes(t_host_send_us);
        assert(u64_bytes(t_host_send_us) + none =~= u64_bytes(t_host_send_us));
        lemma_take_times(nonce, t_client_us, last);
        lemma_take_times(t_host_recv_us, t_host_send_us, none);
    }
}

/// The payload of a message, under its tag, says that message.
pub proof fn decoding_undoes_encoding(m: MessageView)
    requires
        payload(m).len() <= MAX_PAYLOAD,
    ensures
        decode(tag(m), payload(m)) == Ok::<MessageView, ProtoError>(m),
{
    match m {
        MessageView::Hello { .. } => lemma_hello(m),
        MessageView::HelloAck { .. } => lemma_hello_ack(m),
        MessageView::VideoConfig { .. } => lemma_video_config(m),
        MessageView::VideoFrame { keyframe, capture_us, data } => {
            lemma_take_flag(keyframe, u64_bytes(capture_us) + data);
            lemma_take_u64(capture_us, data);
        },
        MessageView::PointerMotionRelative { dx, dy } => {
            let none = Seq::<u8>::empty();
            assert(u32_bytes(dy.0) + none =~= u32_bytes(dy.0));
            lemma_take_pair(dx.0, dy.0, none);
        },
        MessageView::PointerMotionAbsolute { x, y } => {
            let none = Seq::<u8>::empty();
            assert(u32_bytes(y.0) + none =~= u32_bytes(y.0));
            lemma_take_pair(x.0, y.0, none);
        },
        MessageView::PointerButton { .. } => lemma_button(m),
        MessageView::Scroll { dx, dy } => {
            let none = Seq::<u8>::empty();
            assert(u32_bytes(dy.0) + none =~= u32_bytes(dy.0));
            lemma_take_pair(dx.0, dy.0, none);
        },
        MessageView::Status { .. } => lemma_status(m),
        MessageView::Key { .. } => lemma_key(m),
        MessageView::Text { utf8 } => {
            let none = Seq::<u8>::empty();
            assert(str_bytes(utf8) + none =~= str_bytes(utf8));
            a_text_reads_back(utf8, none);
        },
        MessageView::SetMode { mode } => {
            let none = Seq::<u8>::empty();
            assert(seq![mode] + none =~= seq![mode]);
            lemma_take_u8(mode, none);
        },
        MessageView::Ping { nonce, t_client_us } => {
            let none = Seq::<u8>::empty();
            assert(u64_bytes(t_client_us) + none =~= u64_bytes(t_client_us));
            lemma_take_times(nonce, t_client_us, none);
        },
        MessageView::Pong { .. } => lemma_pong(m),
    }
}

proof fn lemma_wire_header(m: MessageView, rest: Seq<u8>)
    requires
        payload(m).len() <= u32::MAX,
    ensures
        wire(m).len() == 5 + payload(m).len(),
        (wire(m) + rest)[0] == tag(m),
        bytes::be_value((wire(m) + rest).subrange(1, 5)) == payload(m).len(),
        (wire(m) + rest).subrange(5, 5 + payload(m).len() as int) == payload(m),
        (wire(m) + rest).skip(5 + payload(m).len() as int) == rest,
{
    bytes::lemma_pow256();
    let n = payload(m).len();
    bytes::be_round_trip(n, 4);
    let d = wire(m) + rest;
    assert(d.subrange(1, 5) =~= bytes::be(n, 4));
    assert(d.subrange(5, 5 + n as int) =~= payload(m));
    assert(d.skip(5 + n as int) =~= rest);
}

/// Reading gives back what was written, and leaves whatever comes behind it.
pub proof fn reading_undoes_writing(m: MessageView, rest: Seq<u8>)
    requires
        payload(m).len() <= MAX_PAYLOAD,
    ensures
        reading(wire(m) + rest) == (Ok::<Option<MessageView>, ProtoError>(Some(m)), rest),
{
    lemma_wire_header(m, rest);
    decoding_undoes_encoding(m);
}

/// A message with too long a payload is refused by the side that reads it.
pub proof fn a_message_too_long_is_refused(m: MessageView, rest: Seq<u8>)
    requires
        MAX_PAYLOAD < payload(m).len() <= u32::MAX,
    ensures
        reading(wire(m) + rest).0 == Err::<Option<MessageView>, ProtoError>(
            ProtoError::PayloadTooLarge(payload(m).len() as u32),
        ),
{
    lemma_wire_header(m, rest);
}

/// A stream that ends inside a message gives an error, never a message and never a clean end.
pub proof fn a_cut_message_is_refused(m: MessageView, k: int)
    requires
        payload(m).len() <= MAX_PAYLOAD,
        0 < k < wire(m).len(),
    ensures
        reading(wire(m).take(k)).0 == Err::<Option<MessageView>, ProtoError>(
            if k < 5 {
                ProtoError::TruncatedLength
            } else {
                ProtoError::TruncatedPayload
            },
        ),
{
    lemma_wire_header(m, Seq::empty());
    let d = wire(m).take(k);
    if k >= 5 {
        assert(d.subrange(1, 5) =~= (wire(m) + Seq::<u8>::empty()).subrange(1, 5));
    }
}

/// No two messages share a form on the wire, whatever comes behind them.
pub proof fn forms_are_distinct(a: MessageView, b: MessageView, x: Seq<u8>, y: Seq<u8>)
    requires
        payload(a).len() <= MAX_PAYLOAD,
        payload(b).len() <= MAX_PAYLOAD,
        wire(a) + x == wire(b) + y,
    ensures
        a == b,
        x == y,
{
    reading_undoes_writing(a, x);
    reading_undoes_writing(b, y);
}

/// What is said of an error.
pub open spec fn error_text(e: ProtoError) -> Seq<char> {
    match e {
        ProtoError::TruncatedLength => "read length"@,
        ProtoError::PayloadTooLarge(n) => "payload length "@ + text::decimal(n as nat)
            + " exceeds max 16777216 -- corrupt stream?"@,
        ProtoError::TruncatedPayload => "read payload"@,
        ProtoError::TruncatedString => "truncated string field"@,
        ProtoError::TruncatedU8 => "truncated u8 field"@,
        ProtoError::TruncatedU16 => "truncated u16 field"@,
        ProtoError::TruncatedU32 => "truncated u32 field"@,
        ProtoError::TruncatedU64 => "truncated u64 field"@,
        ProtoError::InvalidUtf8 { valid_up_to, error_len: Some(n) } =>
            "invalid utf-8 sequence of "@ + text::decimal(n as nat) + " bytes from index "@
                + text::decimal(valid_up_to as nat),
        ProtoError::InvalidUtf8 { valid_up_to, error_len: None } =>
            "incomplete utf-8 byte sequence from index "@ + text::decimal(valid_up_to as nat),
        ProtoError::UnknownButton(v) => "unknown button "@ + text::decimal(v as nat),
        ProtoError::UnknownTag(v) => "unknown message tag "@ + text::decimal(v as nat),
    }
}

impl ProtoError {
    /// What is said of the error.
    pub fn to_string(&self) -> (res: String)
        ensures
            res@ == error_text(*self),
    {
        match self {
            ProtoError::TruncatedLength => "read length".to_owned(),
            ProtoError::PayloadTooLarge(n) => {
                let mut out = "payload length ".to_owned();
                text::push_decimal(&mut out, *n as u64);
                out.append(" exceeds max 16777216 -- corrupt stream?");
                out
            },
            ProtoError::TruncatedPayload => "read payload".to_owned(),
            ProtoError::TruncatedString => "truncated string field".to_owned(),
            ProtoError::TruncatedU8 => "truncated u8 field".to_owned(),
            ProtoError::TruncatedU16 => "truncated u16 field".to_owned(),
            ProtoError::TruncatedU32 => "truncated u32 field".to_owned(),
            ProtoError::TruncatedU64 => "truncated u64 field".to_owned(),
            ProtoError::InvalidUtf8 { valid_up_to, error_len } => match error_len {
                Some(n) => {
                    let mut out = "invalid utf-8 sequence of ".to_owned();
                    text::push_decimal(&mut out, *n as u64);
                    out.append(" bytes from index ");
                    text::push_decimal(&mut out, *valid_up_to as u64);
                    out
                },
                None => {
                    let mut out = "incomplete utf-8 byte sequence from index ".to_owned();
                    text::push_decimal(&mut out, *valid_up_to as u64);
                    out
                },
            },
            ProtoError::UnknownButton(v) => {
                let mut out = "unknown button ".to_owned();
                text::push_decimal(&mut out, *v as u64);
                out
            },
            ProtoError::UnknownTag(v) => {
                let mut out = "unknown message tag ".to_owned();
                text::push_decimal(&mut out, *v as u64);
                out
            },
        }
    }
}

/// Each kind of message has its number, from 1 to 14, which comes first on the wire; the length of
/// what follows comes next, in four bytes.
pub proof fn messages_begin_with_number_and_length(m: MessageView)
    ensures
        ({
            let w = wire(m);
            let kind = match m {
                MessageView::Hello { .. } => 1u8,
                MessageView::HelloAck { .. } => 2,
                MessageView::VideoConfig { .. } => 3,
                MessageView::VideoFrame { .. } => 4,
                MessageView::PointerMotionRelative { .. } => 5,
                MessageView::PointerMotionAbsolute { .. } => 6,
                MessageView::PointerButton { .. } => 7,
                MessageView::Scroll { .. } => 8,
                MessageView::Key { .. } => 9,
                MessageView::Text { .. } => 10,
                MessageView::Ping { .. } => 11,
                MessageView::Pong { .. } => 12,
                MessageView::SetMode { .. } => 13,
                MessageView::Status { .. } => 14,
            };
            &&& w.len() == 5 + payload(m).len()
            &&& w[0] == kind && tag(m) == kind
            &&& w.subrange(1, 5) == bytes::be((w.len() - 5) as nat, 4)
            &&& w.skip(5) == payload(m)
        }),
{
    bytes::lemma_be_len(payload(m).len(), 4);
    let w = wire(m);
    assert(w.subrange(1, 5) =~= bytes::be(payload(m).len(), 4));
    assert(w.skip(5) =~= payload(m));
}

/// What the host sends, field by field: a flag is a byte of 1 or 0, a number is big-endian, and a text
/// is the number of its bytes and those bytes.
pub proof fn what_the_host_sends_has_this_form(
    on: bool,
    a: Seq<char>,
    b: Seq<char>,
    w: u32,
    h: u32,
    fps: u32,
    mode: u8,
    budget: u32,
)
    ensures
        ({
            let (x, y) = (encode_utf8(a), encode_utf8(b));
            let set: u8 = if on {
                1
            } else {
                0
            };
            &&& payload(MessageView::HelloAck { ok: on, reason: a }) == seq![set] + bytes::be(
                x.len(),
                4,
            ) + x
            &&& payload(
                MessageView::VideoConfig {
                    codec: a,
                    width: w,
                    height: h,
                    fps,
                    mode,
                    drop_budget_ms: budget,
                },
            ) == bytes::be(x.len(), 4) + x + bytes::be(w as nat, 4) + bytes::be(h as nat, 4)
                + bytes::be(fps as nat, 4) + seq![mode] + bytes::be(budget as nat, 4)
            &&& payload(MessageView::Status { stage: a, ok: on, detail: b }) == bytes::be(x.len(), 4)
                + x + seq![set] + bytes::be(y.len(), 4) + y
        }),
{
    let (x, y) = (encode_utf8(a), encode_utf8(b));
    let set: u8 = if on {
        1
    } else {
        0
    };
    assert(payload(MessageView::HelloAck { ok: on, reason: a }) =~= seq![set] + bytes::be(x.len(), 4)
        + x);
    assert(payload(
        MessageView::VideoConfig {
            codec: a,
            width: w,
            height: h,
            fps,
            mode,
            drop_budget_ms: budget,
        },
    ) =~= bytes::be(x.len(), 4) + x + bytes::be(w as nat, 4) + bytes::be(h as nat, 4) + bytes::be(
        fps as nat,
        4,
    ) + seq![mode] + bytes::be(budget as nat, 4));
    assert(payload(MessageView::Status { stage: a, ok: on, detail: b }) =~= bytes::be(x.len(), 4) + x
        + seq![set] + bytes::be(y.len(), 4) + y);
}

/// A picture is sent as a flag, the time of its capture in eight bytes, and its bytes; a `Pong` as its
/// number and the three times, in the order in which they were taken.
pub proof fn pictures_and_pongs_have_this_form(
    on: bool,
    data: Seq<u8>,
    n: u64,
    t0: u64,
    t1: u64,
    t2: u64,
)
    ensures
        payload(MessageView::VideoFrame { keyframe: on, capture_us: n, data }) == seq![
            if on {
                1u8
            } else {
                0
            },
        ] + bytes::be(n as nat, 8) + data,
        payload(
            MessageView::Pong {
                nonce: n,
                t_client_us: t0,
                t_host_recv_us: t1,
                t_host_send_us: t2,
            },
        ) == bytes::be(n as nat, 8) + bytes::be(t0 as nat, 8) + bytes::be(t1 as nat, 8) + bytes::be(
            t2 as nat,
            8,
        ),
{
    assert(payload(MessageView::VideoFrame { keyframe: on, capture_us: n, data }) =~= seq![
        if on {
            1u8
        } else {
            0
        },
    ] + bytes::be(n as nat, 8) + data);
    assert(payload(
        MessageView::Pong { nonce: n, t_client_us: t0, t_host_recv_us: t1, t_host_send_us: t2 },
    ) =~= bytes::be(n as nat, 8) + bytes::be(t0 as nat, 8) + bytes::be(t1 as nat, 8) + bytes::be(
        t2 as nat,
        8,
    ));
}

/// What a client greets with, field by field.
pub proof fn a_greeting_has_this_form(version: u16, token: Seq<char>, d: ProfileView)
    ensures
        ({
            let (x, y) = (encode_utf8(token), encode_utf8(d.model));
            payload(MessageView::Hello { protocol_version: version, token, profile: d })
                == bytes::be(version as nat, 2) + bytes::be(x.len(), 4) + x + bytes::be(y.len(), 4)
                + y + bytes::be(d.screen_width as nat, 4) + bytes::be(d.screen_height as nat, 4)
                + bytes::be(d.density_dpi as nat, 4) + bytes::be(d.refresh_hz as nat, 4)
                + bytes::be(d.max_decode_width as nat, 4) + bytes::be(
                d.max_decode_height as nat,
                4,
            ) + bytes::be(d.max_decode_fps as nat, 4) + seq![
                if d.low_latency_decoder {
                    1u8
                } else {
                    0
                },
            ]
        }),
{
    let (x, y) = (encode_utf8(token), encode_utf8(d.model));
    let last = seq![
        if d.low_latency_decoder {
            1u8
        } else {
            0
        },
    ];
    let front = bytes::be(version as nat, 2) + bytes::be(x.len(), 4) + x + bytes::be(y.len(), 4) + y;
    let screen = bytes::be(d.screen_width as nat, 4) + bytes::be(d.screen_height as nat, 4)
        + bytes::be(d.density_dpi as nat, 4) + bytes::be(d.refresh_hz as nat, 4);
    let decode = bytes::be(d.max_decode_width as nat, 4) + bytes::be(d.max_decode_height as nat, 4)
        + bytes::be(d.max_decode_fps as nat, 4);
    assert(profile_bytes(d) =~= bytes::be(y.len(), 4) + y + (screen + (decode + last)));
    assert(payload(MessageView::Hello { protocol_version: version, token, profile: d }) =~= front + (
    screen + (decode + last)));
}

/// What a client sends for the pointer, the keyboard and the stream, field by field: a coordinate is
/// the four bytes of its number, a button is 0 for the left one, 1 for the right one and 2 for the
/// middle one, and behind a key comes whether it is pressed and which modifiers are held.
pub proof fn what_a_client_sends_has_this_form(
    on: bool,
    x: F32,
    y: F32,
    button: Button,
    key: u32,
    held: u8,
    s: Seq<char>,
    n: u64,
    t: u64,
)
    ensures
        ({
            let set: u8 = if on {
                1
            } else {
                0
            };
            let pair = bytes::be(x.0 as nat, 4) + bytes::be(y.0 as nat, 4);
            let code: u8 = match button {
                Button::Left => 0,
                Button::Right => 1,
                Button::Middle => 2,
            };
            &&& payload(MessageView::PointerMotionRelative { dx: x, dy: y }) == pair
            &&& payload(MessageView::PointerMotionAbsolute { x, y }) == pair
            &&& payload(MessageView::Scroll { dx: x, dy: y }) == pair
            &&& payload(MessageView::PointerButton { button, pressed: on }) == seq![code, set]
            &&& payload(MessageView::Key { evdev_code: key, pressed: on, modifiers: held })
                == bytes::be(key as nat, 4) + seq![set, held]
            &&& payload(MessageView::Text { utf8: s }) == bytes::be(encode_utf8(s).len(), 4)
                + encode_utf8(s)
            &&& payload(MessageView::SetMode { mode: held }) == seq![held]
            &&& payload(MessageView::Ping { nonce: n, t_client_us: t }) == bytes::be(n as nat, 8)
                + bytes::be(t as nat, 8)
        }),
{
}

/// A field is read where all its bytes are there, and its kind is named where they are not; the number
/// in it is big-endian, and any byte but 0 sets a flag.
pub proof fn a_field_that_is_cut_off_is_named(p: Seq<u8>)
    ensures
        p.len() < 1 ==> take_u8(p) == Err::<(u8, Seq<u8>), _>(ProtoError::TruncatedU8),
        p.len() >= 1 ==> take_u8(p) == Ok::<_, ProtoError>((p[0], p.skip(1))),
        p.len() < 1 ==> take_flag(p) == Err::<(bool, Seq<u8>), _>(ProtoError::TruncatedU8),
        p.len() >= 1 ==> take_flag(p) == Ok::<_, ProtoError>((p[0] != 0, p.skip(1))),
        p.len() < 2 ==> take_u16(p) == Err::<(u16, Seq<u8>), _>(ProtoError::TruncatedU16),
        p.len() >= 2 ==> (take_u16(p) matches Ok((v, q)) && v == bytes::be_value(p.take(2)) && q
            == p.skip(2)),
        p.len() < 4 ==> take_u32(p) == Err::<(u32, Seq<u8>), _>(ProtoError::TruncatedU32),
        p.len() >= 4 ==> (take_u32(p) matches Ok((v, q)) && v == bytes::be_value(p.take(4)) && q
            == p.skip(4)),
        p.len() < 8 ==> take_u64(p) == Err::<(u64, Seq<u8>), _>(ProtoError::TruncatedU64),
        p.len() >= 8 ==> (take_u64(p) matches Ok((v, q)) && v == bytes::be_value(p.take(8)) && q
            == p.skip(8)),
{
    bytes::lemma_pow256();
    if p.len() >= 2 {
        bytes::be_value_round_trip(p.take(2));
    }
    if p.len() >= 4 {
        bytes::be_value_round_trip(p.take(4));
    }
    if p.len() >= 8 {
        bytes::be_value_round_trip(p.take(8));
    }
}

/// A text is read where its length and as many bytes as that says are there, and those bytes are text;
/// what was wrong is named, and a text is never mended.
pub proof fn a_text_is_read_as_it_is_or_refused(p: Seq<u8>)
    ensures
        p.len() < 4 ==> take_str(p) == Err::<(Seq<char>, Seq<u8>), _>(ProtoError::TruncatedU32),
        p.len() >= 4 ==> ({
            let n = bytes::be_value(p.take(4)) as int;
            let b = p.subrange(4, 4 + n);
            &&& p.len() < 4 + n ==> take_str(p) == Err::<(Seq<char>, Seq<u8>), _>(
                ProtoError::TruncatedString,
            )
            &&& p.len() >= 4 + n && !valid_utf8(b) ==> (take_str(p) matches Err(
                ProtoError::InvalidUtf8 { valid_up_to, .. },
            ) && valid_up_to == text::longest_text(b, n))
            &&& p.len() >= 4 + n && valid_utf8(b) ==> (take_str(p) matches Ok((s, q)) && encode_utf8(
                s,
            ) == b && q == p.skip(4 + n))
        }),
{
    a_field_that_is_cut_off_is_named(p);
    if p.len() >= 4 {
        let n = bytes::be_value(p.take(4)) as int;
        let b = p.subrange(4, 4 + n);
        if p.len() >= 4 + n {
            assert(p.skip(4).take(n) =~= b);
            assert(p.skip(4).skip(n) =~= p.skip(4 + n));
            if valid_utf8(b) {
                decode_utf8_encode_utf8(b);
            } else {
                text::the_longest_text_in_front_is_found(b, n);
                assert(n <= u32::MAX);
            }
        }
    }
}

/// Numbers that stand for no kind of message, and bytes that stand for no button, are refused and
/// named.
pub proof fn what_is_unknown_is_refused(t: u8, p: Seq<u8>)
    ensures
        t == 0 || t > 14 ==> decode(t, p) == Err::<MessageView, ProtoError>(
            ProtoError::UnknownTag(t),
        ),
        p.len() > 0 && p[0] > 2 ==> decode(7, p) == Err::<MessageView, ProtoError>(
            ProtoError::UnknownButton(p[0]),
        ),
        t <= 2 ==> button_of(t) is Ok,
        t > 2 ==> button_of(t) == Err::<Button, ProtoError>(ProtoError::UnknownButton(t)),
        button_of(0) == Ok::<Button, ProtoError>(Button::Left),
        button_of(1) == Ok::<Button, ProtoError>(Button::Right),
        button_of(2) == Ok::<Button, ProtoError>(Button::Middle),
        button_code(Button::Left) == 0 && button_code(Button::Right) == 1 && button_code(
            Button::Middle,
        ) == 2,
{
}

proof fn lemma_assoc(a: Seq<u8>, b: Seq<u8>, c: Seq<u8>)
    ensures
        (a + b) + c == a + (b + c),
{
    assert((a + b) + c =~= a + (b + c));
}

proof fn lemma_profile_chain(
    d: ProfileView,
    p: Seq<u8>,
    screen: Seq<u8>,
    density: Seq<u8>,
    decode: Seq<u8>,
    fps: Seq<u8>,
    last: Seq<u8>,
    more: Seq<u8>,
)
    requires
        take_str(p) == Ok::<(Seq<char>, Seq<u8>), ProtoError>((d.model, screen)),
        take_pair(screen) == Ok::<((u32, u32), Seq<u8>), ProtoError>(
            ((d.screen_width, d.screen_height), density),
        ),
        take_pair(density) == Ok::<((u32, u32), Seq<u8>), ProtoError>(
            ((d.density_dpi, d.refresh_hz), decode),
        ),
        take_pair(decode) == Ok::<((u32, u32), Seq<u8>), ProtoError>(
            ((d.max_decode_width, d.max_decode_height), fps),
        ),
        take_u32(fps) == Ok::<(u32, Seq<u8>), ProtoError>((d.max_decode_fps, last)),
        take_flag(last) == Ok::<(bool, Seq<u8>), ProtoError>((d.low_latency_decoder, more)),
    ensures
        take_profile(p) == Ok::<(ProfileView, Seq<u8>), ProtoError>((d, more)),
{
}

proof fn lemma_pair_before(a: u32, b: u32, tail: Seq<u8>, more: Seq<u8>)
    ensures
        take_pair((u32_bytes(a) + (u32_bytes(b) + tail)) + more) == Ok::<
            ((u32, u32), Seq<u8>),
            ProtoError,
        >(((a, b), tail + more)),
{
    lemma_assoc(u32_bytes(a), u32_bytes(b) + tail, more);
    lemma_assoc(u32_bytes(b), tail, more);
    lemma_take_pair(a, b, tail + more);
}

proof fn lemma_take_profile_before(d: ProfileView, more: Seq<u8>)
    requires
        encode_utf8(d.model).len() <= u32::MAX,
    ensures
        take_profile(profile_bytes(d) + more) == Ok::<(ProfileView, Seq<u8>), ProtoError>((d, more)),
{
    let last = seq![flag(d.low_latency_decoder)];
    let fps = u32_bytes(d.max_decode_fps) + last;
    let decode = u32_bytes(d.max_decode_width) + (u32_bytes(d.max_decode_height) + fps);
    let density = u32_bytes(d.density_dpi) + (u32_bytes(d.refresh_hz) + decode);
    let screen = u32_bytes(d.screen_width) + (u32_bytes(d.screen_height) + density);
    assert(profile_bytes(d) == str_bytes(d.model) + screen);
    assert(take_str(profile_bytes(d) + more) == Ok::<(Seq<char>, Seq<u8>), ProtoError>(
        (d.model, screen + more),
    )) by {
        lemma_assoc(str_bytes(d.model), screen, more);
        a_text_reads_back(d.model, screen + more);
    }
    lemma_pair_before(d.screen_width, d.screen_height, density, more);
    lemma_pair_before(d.density_dpi, d.refresh_hz, decode, more);
    lemma_pair_before(d.max_decode_width, d.max_decode_height, fps, more);
    assert(take_u32(fps + more) == Ok::<(u32, Seq<u8>), ProtoError>(
        (d.max_decode_fps, last + more),
    )) by {
        lemma_assoc(u32_bytes(d.max_decode_fps), last, more);
        lemma_take_u32(d.max_decode_fps, last + more);
    }
    lemma_take_flag(d.low_latency_decoder, more);
    lemma_profile_chain(
        d,
        profile_bytes(d) + more,
        screen + more,
        density + more,
        decode + more,
        fps + more,
        last + more,
        more,
    );
}

proof fn lemma_hello_before(m: MessageView, more: Seq<u8>)
    requires
        m is Hello,
        payload(m).len() <= MAX_PAYLOAD,
    ensures
        decode(tag(m), payload(m) + more) == Ok::<MessageView, ProtoError>(m),
{
    if let MessageView::Hello { protocol_version, token, profile } = m {
        let tail = profile_bytes(profile);
        lemma_assoc(u16_bytes(protocol_version), str_bytes(token) + tail, more);
        lemma_assoc(str_bytes(token), tail, more);
        lemma_take_u16(protocol_version, str_bytes(token) + (tail + more));
        a_text_reads_back(token, tail + more);
        lemma_take_profile_before(profile, more);
    }
}

proof fn lemma_video_config_before(m: MessageView, more: Seq<u8>)
    requires
        m is VideoConfig,
        payload(m).len() <= MAX_PAYLOAD,
    ensures
        decode(tag(m), payload(m) + more) == Ok::<MessageView, ProtoError>(m),
{
    if let MessageView::VideoConfig { codec, width, height, fps, mode, drop_budget_ms } = m {
        let last = u32_bytes(drop_budget_ms);
        let rate = u32_bytes(fps) + (seq![mode] + last);
        let low = u32_bytes(height) + rate;
        lemma_assoc(str_bytes(codec), u32_bytes(width) + low, more);
        lemma_assoc(u32_bytes(width), low, more);
        lemma_assoc(u32_bytes(height), rate, more);
        lemma_assoc(u32_bytes(fps), seq![mode] + last, more);
        lemma_assoc(seq![mode], last, more);
        a_text_reads_back(codec, u32_bytes(width) + (u32_bytes(height) + (rate + more)));
        lemma_take_pair(width, height, rate + more);
        lemma_take_u32(fps, seq![mode] + (last + more));
        lemma_take_u8(mode, last + more);
        lemma_take_u32(drop_budget_ms, more);
    }
}

proof fn lemma_status_before(m: MessageView, more: Seq<u8>)
    requires
        m is Status,
        payload(m).len() <= MAX_PAYLOAD,
    ensures
        decode(tag(m), payload(m) + more) == Ok::<MessageView, ProtoError>(m),
{
    if let MessageView::Status { stage, ok, detail } = m {
        let last = str_bytes(detail);
        lemma_assoc(str_bytes(stage), seq![flag(ok)] + last, more);
        lemma_assoc(seq![flag(ok)], last, more);
        a_text_reads_back(stage, seq![flag(ok)] + (last + more));
        lemma_take_flag(ok, last + more);
        a_text_reads_back(detail, more);
    }
}

proof fn lemma_input_before(m: MessageView, more: Seq<u8>)
    requires
        m is PointerButton || m is Key || m is PointerMotionRelative || m is PointerMotionAbsolute
            || m is Scroll,
    ensures
        decode(tag(m), payload(m) + more) == Ok::<MessageView, ProtoError>(m),
{
    match m {
        MessageView::PointerButton { button, pressed } => {
            let last = seq![flag(pressed)];
            assert(payload(m) =~= seq![button_code(button)] + last);
            lemma_assoc(seq![button_code(button)], last, more);
            lemma_take_u8(button_code(button), last + more);
            lemma_take_flag(pressed, more);
        },
        MessageView::Key { evdev_code, pressed, modifiers } => {
            let last = seq![modifiers];
            let tail = seq![flag(pressed)] + last;
            assert(seq![flag(pressed), modifiers] =~= tail);
            lemma_assoc(u32_bytes(evdev_code), tail, more);
            lemma_assoc(seq![flag(pressed)], last, more);
            lemma_take_u32(evdev_code, seq![flag(pressed)] + (last + more));
            lemma_take_flag(pressed, last + more);
            lemma_take_u8(modifiers, more);
        },
        MessageView::PointerMotionRelative { dx, dy } => {
            lemma_assoc(u32_bytes(dx.0), u32_bytes(dy.0), more);
            lemma_take_pair(dx.0, dy.0, more);
        },
        MessageView::PointerMotionAbsolute { x, y } => {
            lemma_assoc(u32_bytes(x.0), u32_bytes(y.0), more);
            lemma_take_pair(x.0, y.0, more);
        },
        MessageView::Scroll { dx, dy } => {
            lemma_assoc(u32_bytes(dx.0), u32_bytes(dy.0), more);
            lemma_take_pair(dx.0, dy.0, more);
        },
        _ => {},
    }
}

/// Bytes behind the last field of a payload are ignored, whatever they are; only a picture takes all
/// that is there.
pub proof fn what_lies_behind_the_last_field_is_ignored(m: MessageView, more: Seq<u8>)
    requires
        payload(m).len() <= MAX_PAYLOAD,
        m !is VideoFrame,
    ensures
        decode(tag(m), payload(m) + more) == Ok::<MessageView, ProtoError>(m),
{
    match m {
        MessageView::Hello { .. } => lemma_hello_before(m, more),
        MessageView::HelloAck { ok, reason } => {
            lemma_assoc(seq![flag(ok)], str_bytes(reason), more);
            lemma_take_flag(ok, str_bytes(reason) + more);
            a_text_reads_back(reason, more);
        },
        MessageView::VideoConfig { .. } => lemma_video_config_before(m, more),
        MessageView::Status { .. } => lemma_status_before(m, more),
        MessageView::Text { utf8 } => a_text_reads_back(utf8, more),
        MessageView::SetMode { mode } => lemma_take_u8(mode, more),
        MessageView::Ping { nonce, t_client_us } => {
            lemma_assoc(u64_bytes(nonce), u64_bytes(t_client_us), more);
            lemma_take_times(nonce, t_client_us, more);
        },
        MessageView::Pong { nonce, t_client_us, t_host_recv_us, t_host_send_us } => {
            let last = u64_bytes(t_host_send_us);
            let times = u64_bytes(t_host_recv_us) + last;
            lemma_assoc(u64_bytes(nonce), u64_bytes(t_client_us) + times, more);
            lemma_assoc(u64_bytes(t_client_us), times, more);
            lemma_assoc(u64_bytes(t_host_recv_us), last, more);
            lemma_take_times(nonce, t_client_us, times + more);
            lemma_take_times(t_host_recv_us, t_host_send_us, more);
        },
        _ => lemma_input_before(m, more),
    }
}

proof fn lemma_str_len(p: Seq<u8>)
    ensures
        take_str(p) matches Ok((s, q)) ==> p.len() == str_bytes(s).len() + q.len(),
{
    if let Ok((n, rest)) = take_u32(p) {
        let b = rest.take(n as int);
        if rest.len() >= n && valid_utf8(b) {
            decode_utf8_encode_utf8(b);
            bytes::lemma_be_len(b.len(), 4);
        }
    }
}

proof fn lemma_profile_len(p: Seq<u8>)
    ensures
        take_profile(p) matches Ok((d, q)) ==> p.len() == profile_bytes(d).len() + q.len(),
{
    lemma_str_len(p);
    if let Ok((d, q)) = take_profile(p) {
        bytes::lemma_be_len(d.screen_width as nat, 4);
        bytes::lemma_be_len(d.screen_height as nat, 4);
        bytes::lemma_be_len(d.density_dpi as nat, 4);
        bytes::lemma_be_len(d.refresh_hz as nat, 4);
        bytes::lemma_be_len(d.max_decode_width as nat, 4);
        bytes::lemma_be_len(d.max_decode_height as nat, 4);
        bytes::lemma_be_len(d.max_decode_fps as nat, 4);
    }
}

/// A message is read only under its number, and only where all of its fields are there: nothing is
/// made up for one that is missing.
pub proof fn no_field_is_made_up(t: u8, p: Seq<u8>)
    ensures
        decode(t, p) matches Ok(m) ==> tag(m) == t && p.len() >= payload(m).len() && (m is VideoFrame
            ==> p.len() == payload(m).len()),
{
    if let Ok(m) = decode(t, p) {
        match m {
            MessageView::Hello { protocol_version, .. } => {
                bytes::lemma_be_len(protocol_version as nat, 2);
                lemma_str_len(p.skip(2));
                if let Ok((_, q)) = take_str(p.skip(2)) {
                    lemma_profile_len(q);
                }
            },
            MessageView::HelloAck { .. } => {
                lemma_str_len(p.skip(1));
            },
            MessageView::VideoConfig { width, height, fps, drop_budget_ms, .. } => {
                lemma_str_len(p);
                bytes::lemma_be_len(width as nat, 4);
                bytes::lemma_be_len(height as nat, 4);
                bytes::lemma_be_len(fps as nat, 4);
                bytes::lemma_be_len(drop_budget_ms as nat, 4);
            },
            MessageView::VideoFrame { capture_us, .. } => {
                bytes::lemma_be_len(capture_us as nat, 8);
            },
            MessageView::PointerMotionRelative { dx, dy } => {
                bytes::lemma_be_len(dx.0 as nat, 4);
                bytes::lemma_be_len(dy.0 as nat, 4);
            },
            MessageView::PointerMotionAbsolute { x, y } => {
                bytes::lemma_be_len(x.0 as nat, 4);
                bytes::lemma_be_len(y.0 as nat, 4);
            },
            MessageView::PointerButton { .. } => {},
            MessageView::Scroll { dx, dy } => {
                bytes::lemma_be_len(dx.0 as nat, 4);
                bytes::lemma_be_len(dy.0 as nat, 4);
            },
            MessageView::Status { .. } => {
                lemma_str_len(p);
                if let Ok((_, q)) = take_str(p) {
                    lemma_str_len(q.skip(1));
                }
            },
            MessageView::Key { evdev_code, .. } => {
                bytes::lemma_be_len(evdev_code as nat, 4);
            },
            MessageView::Text { .. } => {
                lemma_str_len(p);
            },
            MessageView::SetMode { .. } => {},
            MessageView::Ping { nonce, t_client_us } => {
                bytes::lemma_be_len(nonce as nat, 8);
                bytes::lemma_be_len(t_client_us as nat, 8);
            },
            MessageView::Pong { nonce, t_client_us, t_host_recv_us, t_host_send_us } => {
                bytes::lemma_be_len(nonce as nat, 8);
                bytes::lemma_be_len(t_client_us as nat, 8);
                bytes::lemma_be_len(t_host_recv_us as nat, 8);
                bytes::lemma_be_len(t_host_send_us as nat, 8);
            },
        }
    }
}

/// A message is read off a stream by its header: nothing where the stream has ended, an error where it
/// ends inside the header or the payload, a refusal where the header says more than 16777216 bytes,
/// and else what the payload says. A payload that makes no sense is passed over all the same, so that
/// the next message can be read.
pub proof fn a_stream_is_read_by_its_headers(d: Seq<u8>)
    ensures
        d.len() == 0 ==> reading(d) == (Ok::<Option<MessageView>, ProtoError>(None), d),
        0 < d.len() < 5 ==> reading(d).0 == Err::<Option<MessageView>, _>(
            ProtoError::TruncatedLength,
        ),
        d.len() >= 5 ==> ({
            let n = bytes::be_value(d.subrange(1, 5));
            &&& n > 16777216 ==> (reading(d).0 matches Err(ProtoError::PayloadTooLarge(k)) && k == n)
            &&& n <= 16777216 && d.len() < 5 + n ==> reading(d).0 == Err::<Option<MessageView>, _>(
                ProtoError::TruncatedPayload,
            )
            &&& n <= 16777216 && d.len() >= 5 + n ==> reading(d).1 == d.skip(5 + n as int) && (
            match decode(d[0], d.subrange(5, 5 + n as int)) {
                Ok(m) => reading(d).0 == Ok::<Option<MessageView>, ProtoError>(Some(m)),
                Err(e) => reading(d).0 == Err::<Option<MessageView>, ProtoError>(e),
            })
        }),
{
    if d.len() >= 5 {
        bytes::lemma_pow256();
        bytes::be_value_round_trip(d.subrange(1, 5));
    }
}

/// What is said of each error.
pub proof fn errors_are_told_apart(n: u32, v: u8, at: usize, len: usize)
    ensures
        error_text(ProtoError::TruncatedLength) == "read length"@,
        error_text(ProtoError::TruncatedPayload) == "read payload"@,
        error_text(ProtoError::TruncatedString) == "truncated string field"@,
        error_text(ProtoError::TruncatedU8) == "truncated u8 field"@,
        error_text(ProtoError::TruncatedU16) == "truncated u16 field"@,
        error_text(ProtoError::TruncatedU32) == "truncated u32 field"@,
        error_text(ProtoError::TruncatedU64) == "truncated u64 field"@,
        error_text(ProtoError::PayloadTooLarge(n)) == "payload length "@ + text::decimal(n as nat)
            + " exceeds max 16777216 -- corrupt stream?"@,
        error_text(ProtoError::UnknownButton(v)) == "unknown button "@ + text::decimal(v as nat),
        error_text(ProtoError::UnknownTag(v)) == "unknown message tag "@ + text::decimal(v as nat),
        error_text(ProtoError::InvalidUtf8 { valid_up_to: at, error_len: Some(len) })
            == "invalid utf-8 sequence of "@ + text::decimal(len as nat) + " bytes from index "@
            + text::decimal(at as nat),
        error_text(ProtoError::InvalidUtf8 { valid_up_to: at, error_len: None })
            == "incomplete utf-8 byte sequence from index "@ + text::decimal(at as nat),
{
}

/// A message is seen as it is, field by field.
pub proof fn messages_are_seen_as_they_are(m: Message)
    ensures
        match m {
            Message::Hello { protocol_version, token, profile } => m@ == (MessageView::Hello {
                protocol_version,
                token: token@,
                profile: profile@,
            }),
            Message::HelloAck { ok, reason } => m@ == (MessageView::HelloAck { ok, reason: reason@ }),
            Message::VideoConfig { codec, width, height, fps, mode, drop_budget_ms } => m@ == (
            MessageView::VideoConfig { codec: codec@, width, height, fps, mode, drop_budget_ms }),
            Message::VideoFrame { keyframe, capture_us, data } => m@ == (MessageView::VideoFrame {
                keyframe,
                capture_us,
                data: data@,
            }),
            Message::PointerMotionRelative { dx, dy } => m@ == (MessageView::PointerMotionRelative {
                dx,
                dy,
            }),
            Message::PointerMotionAbsolute { x, y } => m@ == (MessageView::PointerMotionAbsolute {
                x,
                y,
            }),
            Message::PointerButton { button, pressed } => m@ == (MessageView::PointerButton {
                button,
                pressed,
            }),
            Message::Scroll { dx, dy } => m@ == (MessageView::Scroll { dx, dy }),
            Message::Status { stage, ok, detail } => m@ == (MessageView::Status {
                stage: stage@,
                ok,
                detail: detail@,
            }),
            Message::Key { evdev_code, pressed, modifiers } => m@ == (MessageView::Key {
                evdev_code,
                pressed,
                modifiers: modifiers.spec_bits(),
            }),
            Message::Text { utf8 } => m@ == (MessageView::Text { utf8: utf8@ }),
            Message::SetMode { mode } => m@ == (MessageView::SetMode { mode }),
            Message::Ping { nonce, t_client_us } => m@ == (MessageView::Ping { nonce, t_client_us }),
            Message::Pong { nonce, t_client_us, t_host_recv_us, t_host_send_us } => m@ == (
            MessageView::Pong { nonce, t_client_us, t_host_recv_us, t_host_send_us }),
        },
{
}

/// A profile is seen as it is, field by field.
pub proof fn a_profile_is_seen_as_it_is(p: DeviceProfile)
    ensures
        p@.model == p.model@,
        p@.screen_width == p.screen_width && p@.screen_height == p.screen_height,
        p@.density_dpi == p.density_dpi && p@.refresh_hz == p.refresh_hz,
        p@.max_decode_width == p.max_decode_width && p@.max_decode_height == p.max_decode_height,
        p@.max_decode_fps == p.max_decode_fps && p@.low_latency_decoder == p.low_latency_decoder,
{
}

/// The modifiers are bits of a byte: Shift 1, Ctrl 2, Alt 4 and the logo key 8. A set is read back as
/// it was made, and holds a key where it has all of the key's bits.
pub proof fn modifiers_are_bits(
    shift: Modifiers,
    ctrl: Modifiers,
    alt: Modifiers,
    logo: Modifiers,
    none: Modifiers,
    bits: u8,
    made: Modifiers,
    back: u8,
    held: bool,
)
    requires
        call_ensures(Modifiers::shift, (), shift),
        call_ensures(Modifiers::ctrl, (), ctrl),
        call_ensures(Modifiers::alt, (), alt),
        call_ensures(Modifiers::super_key, (), logo),
        call_ensures(Modifiers::none, (), none),
        call_ensures(Modifiers::from_bits_truncate, (bits,), made),
        call_ensures(Modifiers::bits, (made,), back),
        call_ensures(Modifiers::contains, (made, ctrl), held),
    ensures
        shift.spec_bits() == 1,
        ctrl.spec_bits() == 2,
        alt.spec_bits() == 4,
        logo.spec_bits() == 8,
        none.spec_bits() == 0,
        back == bits,
        held <==> (bits / 2) % 2 == 1,
{
    assert(bits & 2 == 2u8 <==> (bits / 2) % 2 == 1) by (bit_vector);
}

/// A client that says nothing useful is taken for one with a screen of 1280 by 720 pixels, which
/// decodes as much at 30 frames a second.
pub proof fn little_is_expected_of_an_unknown_client(p: DeviceProfile)
    requires
        call_ensures(DeviceProfile::conservative_default, (), p),
    ensures
        p.model@ == "unknown"@,
        (p.screen_width, p.screen_height) == (1280u32, 720u32),
        (p.max_decode_width, p.max_decode_height) == (1280u32, 720u32),
        p.max_decode_fps == 30 && p.refresh_hz == 60 && p.density_dpi == 320,
        !p.low_latency_decoder,
{
}

/// A number is zero where all its bits are clear but for the sign.
pub proof fn both_zeros_are_zero(v: F32, res: bool)
    requires
        call_ensures(F32::is_zero, (v,), res),
    ensures
        res <==> v.0 % 0x8000_0000 == 0,
{
}

/// Wherever a message has a flag, any byte but 0 sets it.
pub proof fn any_byte_but_zero_sets_a_flag(f: u8, a: Seq<char>, b: Seq<char>, data: Seq<u8>, n: u64)
    requires
        encode_utf8(a).len() <= u32::MAX,
        encode_utf8(b).len() <= u32::MAX,
    ensures
        decode(2, seq![f] + str_bytes(a)) == Ok::<MessageView, ProtoError>(
            MessageView::HelloAck { ok: f != 0, reason: a },
        ),
        decode(4, seq![f] + (bytes::be(n as nat, 8) + data)) == Ok::<MessageView, ProtoError>(
            MessageView::VideoFrame { keyframe: f != 0, capture_us: n, data },
        ),
        decode(14, str_bytes(a) + (seq![f] + str_bytes(b))) == Ok::<MessageView, ProtoError>(
            MessageView::Status { stage: a, ok: f != 0, detail: b },
        ),
{
    let none = Seq::<u8>::empty();
    let (x, y) = (str_bytes(a), str_bytes(b));
    assert(x + none =~= x && y + none =~= y);
    lemma_take_u8(f, x);
    a_text_reads_back(a, none);
    lemma_take_u8(f, u64_bytes(n) + data);
    lemma_take_u64(n, data);
    a_text_reads_back(a, seq![f] + y);
    lemma_take_u8(f, y);
    a_text_reads_back(b, none);
}

/// So it is for what is pressed.
pub proof fn any_byte_but_zero_is_a_press(f: u8, button: Button, key: u32, held: u8)
    ensures
        decode(7, seq![button_code(button), f]) == Ok::<MessageView, ProtoError>(
            MessageView::PointerButton { button, pressed: f != 0 },
        ),
        decode(9, bytes::be(key as nat, 4) + seq![f, held]) == Ok::<MessageView, ProtoError>(
            MessageView::Key { evdev_code: key, pressed: f != 0, modifiers: held },
        ),
{
    let none = Seq::<u8>::empty();
    assert(seq![button_code(button), f] =~= seq![button_code(button)] + seq![f]);
    lemma_take_u8(button_code(button), seq![f]);
    assert(seq![f] + none =~= seq![f]);
    lemma_take_u8(f, none);
    assert(seq![f, held] =~= seq![f] + seq![held]);
    lemma_take_u32(key, seq![f] + seq![held]);
    lemma_take_u8(f, seq![held]);
    assert(seq![held] + none =~= seq![held]);
    lemma_take_u8(held, none);
}

/// What is left of a stream behind a message that could not be read: nothing where the stream ended in
/// it, and what follows the header where its length was refused.
pub proof fn a_refused_header_is_passed_over(d: Seq<u8>)
    ensures
        0 < d.len() < 5 ==> reading(d).1 == Seq::<u8>::empty(),
        d.len() >= 5 ==> ({
            let n = bytes::be_value(d.subrange(1, 5));
            &&& n > 16777216 ==> reading(d).1 == d.skip(5)
            &&& n <= 16777216 && d.len() < 5 + n ==> reading(d).1 == Seq::<u8>::empty()
        }),
{
}

/// And so it is for the last byte of a greeting, which says whether a client has a quick decoder.
pub proof fn any_byte_but_zero_is_a_quick_decoder(
    f: u8,
    version: u16,
    token: Seq<char>,
    d: ProfileView,
    p: Seq<u8>,
)
    requires
        encode_utf8(token).len() <= u32::MAX,
        encode_utf8(d.model).len() <= u32::MAX,
        p.len() > 0,
        p.last() == f,
        p.drop_last() == profile_bytes(d).drop_last(),
    ensures
        decode(1, bytes::be(version as nat, 2) + (str_bytes(token) + p)) == Ok::<
            MessageView,
            ProtoError,
        >(
            MessageView::Hello {
                protocol_version: version,
                token,
                profile: ProfileView { low_latency_decoder: f != 0, ..d },
            },
        ),
{
    let e = ProfileView { low_latency_decoder: f != 0, ..d };
    let q = str_bytes(token) + p;
    assert(take_profile(p) == Ok::<(ProfileView, Seq<u8>), ProtoError>((e, Seq::<u8>::empty()))) by {
        lemma_last_replaced(p, f);
        lemma_profile_front(d, f);
        lemma_profile_with_last(d, f, p);
    }
    assert(take_u16(u16_bytes(version) + q) == Ok::<(u16, Seq<u8>), ProtoError>((version, q))) by {
        lemma_take_u16(version, q);
    }
    assert(take_str(q) == Ok::<(Seq<char>, Seq<u8>), ProtoError>((token, p))) by {
        a_text_reads_back(token, p);
    }
    lemma_hello_chain(version, token, e, u16_bytes(version) + q, q, p);
}

proof fn lemma_last_replaced(p: Seq<u8>, f: u8)
    requires
        p.len() > 0,
        p.last() == f,
    ensures
        p == p.drop_last().push(f),
{
    assert(p =~= p.drop_last().push(f));
}

proof fn lemma_hello_chain(
    version: u16,
    token: Seq<char>,
    profile: ProfileView,
    w: Seq<u8>,
    q: Seq<u8>,
    p: Seq<u8>,
)
    requires
        take_u16(w) == Ok::<(u16, Seq<u8>), ProtoError>((version, q)),
        take_str(q) == Ok::<(Seq<char>, Seq<u8>), ProtoError>((token, p)),
        take_profile(p) == Ok::<(ProfileView, Seq<u8>), ProtoError>((profile, Seq::<u8>::empty())),
    ensures
        decode(1, w) == Ok::<MessageView, ProtoError>(
            MessageView::Hello { protocol_version: version, token, profile },
        ),
{
}

proof fn lemma_profile_with_last(d: ProfileView, f: u8, p: Seq<u8>)
    requires
        encode_utf8(d.model).len() <= u32::MAX,
        p == str_bytes(d.model) + (u32_bytes(d.screen_width) + (u32_bytes(d.screen_height) + (
        u32_bytes(d.density_dpi) + (u32_bytes(d.refresh_hz) + (u32_bytes(d.max_decode_width) + (
        u32_bytes(d.max_decode_height) + (u32_bytes(d.max_decode_fps) + seq![f]))))))),
    ensures
        take_profile(p) == Ok::<(ProfileView, Seq<u8>), ProtoError>(
            (ProfileView { low_latency_decoder: f != 0, ..d }, Seq::<u8>::empty()),
        ),
{
    let none = Seq::<u8>::empty();
    let last = seq![f];
    let fps = u32_bytes(d.max_decode_fps) + last;
    let decode = u32_bytes(d.max_decode_width) + (u32_bytes(d.max_decode_height) + fps);
    let density = u32_bytes(d.density_dpi) + (u32_bytes(d.refresh_hz) + decode);
    let screen = u32_bytes(d.screen_width) + (u32_bytes(d.screen_height) + density);
    let e = ProfileView { low_latency_decoder: f != 0, ..d };
    a_text_reads_back(d.model, screen);
    lemma_take_pair(d.screen_width, d.screen_height, density);
    lemma_take_pair(d.density_dpi, d.refresh_hz, decode);
    lemma_take_pair(d.max_decode_width, d.max_decode_height, fps);
    lemma_take_u32(d.max_decode_fps, last);
    assert(take_flag(last) == Ok::<(bool, Seq<u8>), ProtoError>((f != 0, none))) by {
        assert(last + none =~= last);
        lemma_take_u8(f, none);
    }
    lemma_profile_chain(e, p, screen, density, decode, fps, last, none);
}

proof fn lemma_push_behind(a: Seq<u8>, b: Seq<u8>, f: u8)
    requires
        b.len() > 0,
    ensures
        (a + b).drop_last().push(f) == a + b.drop_last().push(f),
{
    assert((a + b).drop_last().push(f) =~= a + b.drop_last().push(f));
}

proof fn lemma_profile_front(d: ProfileView, f: u8)
    ensures
        profile_bytes(d).drop_last().push(f) == str_bytes(d.model) + (u32_bytes(d.screen_width) + (
        u32_bytes(d.screen_height) + (u32_bytes(d.density_dpi) + (u32_bytes(d.refresh_hz) + (u32_bytes(
            d.max_decode_width,
        ) + (u32_bytes(d.max_decode_height) + (u32_bytes(d.max_decode_fps) + seq![f]))))))),
{
    let last = seq![flag(d.low_latency_decoder)];
    let g = u32_bytes(d.max_decode_fps) + last;
    let h = u32_bytes(d.max_decode_height) + g;
    let i = u32_bytes(d.max_decode_width) + h;
    let j = u32_bytes(d.refresh_hz) + i;
    let k = u32_bytes(d.density_dpi) + j;
    let l = u32_bytes(d.screen_height) + k;
    let m = u32_bytes(d.screen_width) + l;
    lemma_push_behind(str_bytes(d.model), m, f);
    lemma_push_behind(u32_bytes(d.screen_width), l, f);
    lemma_push_behind(u32_bytes(d.screen_height), k, f);
    lemma_push_behind(u32_bytes(d.density_dpi), j, f);
    lemma_push_behind(u32_bytes(d.refresh_hz), i, f);
    lemma_push_behind(u32_bytes(d.max_decode_width), h, f);
    lemma_push_behind(u32_bytes(d.max_decode_height), g, f);
    lemma_push_behind(u32_bytes(d.max_decode_fps), last, f);
    assert(last.drop_last().push(f) =~= seq![f]);
}

/// A message that is written is read back as it was, and what follows it is left.
pub proof fn a_message_that_is_written_is_read(
    m: &Message,
    w: &mut Vec<u8>,
    r: &mut &[u8],
    rest: Seq<u8>,
    res: Result<Option<Message>, ProtoError>,
)
    requires
        call_ensures(Message::write_to, (m, w), ()),
        payload(m@).len() <= 16777216,
        old(r)@ == final(w)@.skip(old(w)@.len() as int) + rest,
        call_ensures(Message::read_from, (r,), res),
    ensures
        final(w)@.take(old(w)@.len() as int) == old(w)@,
        res matches Ok(Some(n)) && n@ == m@,
        final(r)@ == rest,
{
    assert(final(w)@.skip(old(w)@.len() as int) =~= wire(m@));
    assert(final(w)@.take(old(w)@.len() as int) =~= old(w)@);
    reading_undoes_writing(m@, rest);
}

} // verus!
