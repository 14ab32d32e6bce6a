//! What the messages of a client do to the host's pointer and keyboard.
use vstd::prelude::*;

use crate::keymap;
use crate::keymap::Scancode;
use crate::proto::{Button, Message, MessageView, Modifiers, F32};

verus! {

/// The codes of the buttons, as the kernel has them.
pub const BTN_LEFT: u32 = 0x110;

pub const BTN_RIGHT: u32 = 0x111;

pub const BTN_MIDDLE: u32 = 0x112;

/// The width and height of the space for absolute positions.
pub const EXTENT: u32 = 1000;

pub open spec fn button_event_code(b: Button) -> u32 {
    match b {
        Button::Left => BTN_LEFT,
        Button::Right => BTN_RIGHT,
        Button::Middle => BTN_MIDDLE,
    }
}

/// The number of a set bit, and 0 otherwise.
pub open spec fn bit_if(set: bool, value: int) -> int {
    if set {
        value
    } else {
        0
    }
}

/// The modifiers as a keymap with the usual layout numbers them: Shift is bit 0, Ctrl bit 2, Alt bit
/// 3 and the logo key bit 6.
pub open spec fn depressed(bits: u8) -> u32 {
    (bit_if(bits & 1 == 1, 1) + bit_if(bits & 2 == 2, 4) + bit_if(bits & 4 == 4, 8) + bit_if(
        bits & 8 == 8,
        64,
    )) as u32
}

pub fn modifiers_to_depressed(m: Modifiers) -> (bits: u32)
    ensures
        bits == depressed(m.spec_bits()),
{
    let mut bits: u32 = 0;
    if m.contains(Modifiers::shift()) {
        bits = bits + 1;
    }
    if m.contains(Modifiers::ctrl()) {
        bits = bits + 4;
    }
    if m.contains(Modifiers::alt()) {
        bits = bits + 8;
    }
    if m.contains(Modifiers::super_key()) {
        bits = bits + 64;
    }
    bits
}

/// A request to the virtual pointer or keyboard of a Wayland compositor.
#[derive(Debug, Clone, Copy, PartialEq, Eq, Structural)]
pub enum WaylandRequest {
    Motion { dx: F32, dy: F32 },
    /// Both coordinates run from 0 to 1, and are to be scaled to `EXTENT`.
    MotionAbsolute { x: F32, y: F32 },
    Button { code: u32, pressed: bool },
    Axis { vertical: bool, amount: F32 },
    /// Ends what belongs together.
    Frame,
    Modifiers { depressed: u32 },
    Key { evdev_code: u32, pressed: bool },
}

/// Whether a number is zero, of either sign.
pub open spec fn zero(v: F32) -> bool {
    v.0 == 0 || v.0 == 0x8000_0000
}

/// The requests that a scroll makes: one for each direction in which there is one, and the end.
pub open spec fn scroll_requests(dx: F32, dy: F32) -> Seq<WaylandRequest> {
    (if zero(dy) {
        Seq::empty()
    } else {
        seq![WaylandRequest::Axis { vertical: true, amount: dy }]
    }) + (if zero(dx) {
        Seq::empty()
    } else {
        seq![WaylandRequest::Axis { vertical: false, amount: dx }]
    }) + seq![WaylandRequest::Frame]
}

/// The requests that a message makes. Text makes none yet, and what is no input makes none.
pub open spec fn wayland_requests_of(m: MessageView) -> Seq<WaylandRequest> {
    match m {
        MessageView::PointerMotionRelative { dx, dy } => seq![
            WaylandRequest::Motion { dx, dy },
            WaylandRequest::Frame,
        ],
        MessageView::PointerMotionAbsolute { x, y } => seq![
            WaylandRequest::MotionAbsolute { x, y },
            WaylandRequest::Frame,
        ],
        MessageView::PointerButton { button, pressed } => seq![
            WaylandRequest::Button { code: button_event_code(button), pressed },
            WaylandRequest::Frame,
        ],
        MessageView::Scroll { dx, dy } => scroll_requests(dx, dy),
        MessageView::Key { evdev_code, pressed, modifiers } => seq![
            WaylandRequest::Modifiers { depressed: depressed(modifiers) },
            WaylandRequest::Key { evdev_code, pressed },
        ],
        _ => Seq::empty(),
    }
}

/// The requests to a Wayland compositor that a message makes, in order.
pub fn wayland_requests(m: &Message) -> (out: Vec<WaylandRequest>)
    ensures
        out@ == wayland_requests_of(m@),
{
    let mut out: Vec<WaylandRequest> = Vec::new();
    match m {
        Message::PointerMotionRelative { dx, dy } => {
            out.push(WaylandRequest::Motion { dx: *dx, dy: *dy });
            out.push(WaylandRequest::Frame);
        },
        Message::PointerMotionAbsolute { x, y } => {
            out.push(WaylandRequest::MotionAbsolute { x: *x, y: *y });
            out.push(WaylandRequest::Frame);
        },
        Message::PointerButton { button, pressed } => {
            let code: u32 = match button {
                Button::Left => BTN_LEFT,
                Button::Right => BTN_RIGHT,
                Button::Middle => BTN_MIDDLE,
            };
            out.push(WaylandRequest::Button { code, pressed: *pressed });
            out.push(WaylandRequest::Frame);
        },
        Message::Scroll { dx, dy } => {
            if !dy.is_zero() {
                out.push(WaylandRequest::Axis { vertical: true, amount: *dy });
            }
            if !dx.is_zero() {
                out.push(WaylandRequest::Axis { vertical: false, amount: *dx });
            }
            out.push(WaylandRequest::Frame);
        },
        Message::Key { evdev_code, pressed, modifiers } => {
            out.push(WaylandRequest::Modifiers { depressed: modifiers_to_depressed(*modifiers) });
            out.push(WaylandRequest::Key { evdev_code: *evdev_code, pressed: *pressed });
        },
        _ => {},
    }
    assert(out@ =~= wayland_requests_of(m@));
    out
}

/// An event for the input queue of Windows.
#[derive(Debug, Clone, Copy, PartialEq, Eq, Structural)]
pub enum WindowsEvent {
    Move { dx: F32, dy: F32 },
    /// Both coordinates run from 0 to 1, over all screens.
    MoveAbsolute { x: F32, y: F32 },
    Button { button: Button, pressed: bool },
    /// Positive is down; the wheel of Windows counts the other way.
    Wheel { amount: F32 },
    /// Positive is right.
    HorizontalWheel { amount: F32 },
    Key { scancode: Scancode, flags: u32 },
}

/// The events that a message makes. A key without a scan code makes none.
pub open spec fn windows_events_of(m: MessageView) -> Seq<WindowsEvent> {
    match m {
        MessageView::PointerMotionRelative { dx, dy } => seq![WindowsEvent::Move { dx, dy }],
        MessageView::PointerMotionAbsolute { x, y } => seq![WindowsEvent::MoveAbsolute { x, y }],
        MessageView::PointerButton { button, pressed } => seq![
            WindowsEvent::Button { button, pressed },
        ],
        MessageView::Scroll { dx, dy } => (if zero(dy) {
            Seq::empty()
        } else {
            seq![WindowsEvent::Wheel { amount: dy }]
        }) + (if zero(dx) {
            Seq::empty()
        } else {
            seq![WindowsEvent::HorizontalWheel { amount: dx }]
        }),
        MessageView::Key { evdev_code, pressed, modifiers } => match keymap::scancode(evdev_code) {
            Some(s) => seq![
                WindowsEvent::Key { scancode: s, flags: keymap::event_flags(s, pressed) },
            ],
            None => Seq::empty(),
        },
        _ => Seq::empty(),
    }
}

/// The events for the input queue of Windows that a message makes, in order.
pub fn windows_events(m: &Message) -> (out: Vec<WindowsEvent>)
    ensures
        out@ == windows_events_of(m@),
{
    let mut out: Vec<WindowsEvent> = Vec::new();
    match m {
        Message::PointerMotionRelative { dx, dy } => {
            out.push(WindowsEvent::Move { dx: *dx, dy: *dy });
        },
        Message::PointerMotionAbsolute { x, y } => {
            out.push(WindowsEvent::MoveAbsolute { x: *x, y: *y });
        },
        Message::PointerButton { button, pressed } => {
            out.push(WindowsEvent::Button { button: *button, pressed: *pressed });
        },
        Message::Scroll { dx, dy } => {
            if !dy.is_zero() {
                out.push(WindowsEvent::Wheel { amount: *dy });
            }
            if !dx.is_zero() {
                out.push(WindowsEvent::HorizontalWheel { amount: *dx });
            }
        },
        Message::Key { evdev_code, pressed, modifiers: _ } => {
            if let Some(scancode) = keymap::scancode_for(*evdev_code) {
                out.push(
                    WindowsEvent::Key {
                        scancode,
                        flags: keymap::key_event_flags(scancode, *pressed),
                    },
                );
            }
        },
        _ => {},
    }
    assert(out@ =~= windows_events_of(m@));
    out
}

// ---- laws ----

/// Each modifier is seen in its own bit, whatever others are held.
pub proof fn modifiers_keep_apart(a: u8, b: u8)
    requires
        depressed(a) == depressed(b),
    ensures
        a & 0xf == b & 0xf,
{
    assert((a & 1 == 1) == (b & 1 == 1) && (a & 2 == 2) == (b & 2 == 2) && (a & 4 == 4) == (b & 4
        == 4) && (a & 8 == 8) == (b & 8 == 8) ==> a & 0xf == b & 0xf) by (bit_vector);
}

/// The buttons have different codes.
pub proof fn buttons_keep_apart(a: Button, b: Button)
    requires
        button_event_code(a) == button_event_code(b),
    ensures
        a == b,
{
}

/// Every pointer message ends what it does with exactly one frame, at the end.
pub proof fn pointer_requests_end_in_one_frame(m: MessageView)
    requires
        m is PointerMotionRelative || m is PointerMotionAbsolute || m is PointerButton || m is Scroll,
    ensures
        ({
            let r = wayland_requests_of(m);
            &&& r.len() > 0
            &&& r.last() == WaylandRequest::Frame
            &&& forall|i: int| 0 <= i < r.len() - 1 ==> #[trigger] r[i] != WaylandRequest::Frame
        }),
{
}

/// Each button of a message presses or releases the kernel's button of that name: the left one has the
/// code 0x110, the right one 0x111, and the middle one 0x112.
pub proof fn buttons_have_the_kernels_codes(button: Button, pressed: bool)
    ensures
        ({
            let r = wayland_requests_of(MessageView::PointerButton { button, pressed });
            &&& r.len() == 2
            &&& r[0] matches WaylandRequest::Button { code, pressed: p }
            &&& p == pressed
            &&& code == 0x110 <==> button == Button::Left
            &&& code == 0x111 <==> button == Button::Right
            &&& code == 0x112 <==> button == Button::Middle
        }),
        windows_events_of(MessageView::PointerButton { button, pressed }) == seq![
            WindowsEvent::Button { button, pressed },
        ],
{
}

/// A motion moves the pointer by what the message says, or to where it says in a space of 1000 by 1000,
/// in the same directions.
pub proof fn motions_are_passed_on(a: F32, b: F32)
    ensures
        EXTENT == 1000,
        wayland_requests_of(MessageView::PointerMotionRelative { dx: a, dy: b }) == seq![
            WaylandRequest::Motion { dx: a, dy: b },
            WaylandRequest::Frame,
        ],
        wayland_requests_of(MessageView::PointerMotionAbsolute { x: a, y: b }) == seq![
            WaylandRequest::MotionAbsolute { x: a, y: b },
            WaylandRequest::Frame,
        ],
        windows_events_of(MessageView::PointerMotionRelative { dx: a, dy: b }) == seq![
            WindowsEvent::Move { dx: a, dy: b },
        ],
        windows_events_of(MessageView::PointerMotionAbsolute { x: a, y: b }) == seq![
            WindowsEvent::MoveAbsolute { x: a, y: b },
        ],
{
}

/// A scroll turns the vertical wheel by its `dy` and the horizontal one by its `dx`, each once and by
/// just that amount, where that is not zero; a number is zero where no bit but that of the sign is
/// set.
pub proof fn scrolls_turn_the_wheel_they_name(dx: F32, dy: F32)
    ensures
        ({
            let r = wayland_requests_of(MessageView::Scroll { dx, dy });
            let w = windows_events_of(MessageView::Scroll { dx, dy });
            let down = dy.0 % 0x8000_0000 != 0;
            let right = dx.0 % 0x8000_0000 != 0;
            let turns: int = if down && right {
                2
            } else if down || right {
                1
            } else {
                0
            };
            &&& r.len() == turns + 1
            &&& w.len() == turns
            &&& down ==> r[0] == (WaylandRequest::Axis { vertical: true, amount: dy }) && w[0] == (
            WindowsEvent::Wheel { amount: dy })
            &&& right ==> r[turns - 1] == (WaylandRequest::Axis { vertical: false, amount: dx })
                && w[turns - 1] == (WindowsEvent::HorizontalWheel { amount: dx })
        }),
{
}

/// A key is pressed or released by the code that the message has, and the modifiers are set before:
/// the bits of Shift, Ctrl, Alt and the logo key, 1, 2, 4 and 8 in the message, become 1, 4, 8 and 64,
/// and no other bit is ever set.
pub proof fn keys_come_with_their_modifiers(evdev_code: u32, pressed: bool, modifiers: u8)
    ensures
        ({
            let r = wayland_requests_of(MessageView::Key { evdev_code, pressed, modifiers });
            &&& r.len() == 2
            &&& r[1] == WaylandRequest::Key { evdev_code, pressed }
            &&& r[0] matches WaylandRequest::Modifiers { depressed: d }
            &&& d == depressed(modifiers)
            &&& d % 2 == modifiers % 2
            &&& d / 4 % 2 == modifiers / 2 % 2
            &&& d / 8 % 2 == modifiers / 4 % 2
            &&& d / 64 == modifiers / 8 % 2
            &&& d / 2 % 2 == 0
            &&& d / 16 % 4 == 0
        }),
{
    let b = modifiers;
    assert((b & 1 == 1) == (b % 2 == 1)) by (bit_vector);
    assert((b & 2 == 2) == (b / 2 % 2 == 1)) by (bit_vector);
    assert((b & 4 == 4) == (b / 4 % 2 == 1)) by (bit_vector);
    assert((b & 8 == 8) == (b / 8 % 2 == 1)) by (bit_vector);
}

/// On Windows a key is pressed or released by its scan code, with flags that say which; a key without
/// a scan code does nothing.
pub proof fn windows_keys_go_by_scan_code(evdev_code: u32, pressed: bool, modifiers: u8)
    ensures
        ({
            let w = windows_events_of(MessageView::Key { evdev_code, pressed, modifiers });
            &&& w.len() == 1 <==> keymap::scancode(evdev_code) is Some
            &&& w.len() <= 1
            &&& w.len() == 1 ==> {
                &&& w[0] matches WindowsEvent::Key { scancode, flags }
                &&& keymap::scancode(evdev_code) == Some(scancode)
                &&& flags == 8 + (if scancode.extended {
                    1int
                } else {
                    0
                }) + (if pressed {
                    0int
                } else {
                    2
                })
            }
        }),
{
}

/// What is neither of the pointer nor a key injects nothing.
pub proof fn nothing_else_injects(m: MessageView)
    requires
        !(m is PointerMotionRelative || m is PointerMotionAbsolute || m is PointerButton || m is Scroll
            || m is Key),
    ensures
        wayland_requests_of(m).len() == 0,
        windows_events_of(m).len() == 0,
{
}

/// A click of the client is a click of the same button for the compositor, by the kernel's number for
/// it, and ends with a frame.
pub proof fn a_click_is_passed_on(button: Button, pressed: bool, m: &Message, out: Vec<WaylandRequest>)
    requires
        call_ensures(wayland_requests, (m,), out),
        *m == (Message::PointerButton { button, pressed }),
    ensures
        out@.len() == 2,
        out@[0] matches WaylandRequest::Button { code, pressed: down } && down == pressed && (button
            == Button::Left <==> code == 0x110) && (button == Button::Right <==> code == 0x111) && (
        button == Button::Middle <==> code == 0x112),
        out@[1] is Frame,
{
}

} // verus!
