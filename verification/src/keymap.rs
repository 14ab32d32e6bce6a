//! Keys on a Windows host: from evdev codes to scan codes of PS/2 set 1.
use vstd::prelude::*;

verus! {

/// The flags of a key event, as Windows defines them.
pub const KEYEVENTF_EXTENDEDKEY: u32 = 0x0001;

pub const KEYEVENTF_KEYUP: u32 = 0x0002;

pub const KEYEVENTF_SCANCODE: u32 = 0x0008;

/// A scan code of set 1, and whether it has the prefix `E0`.
#[derive(Debug, Clone, Copy, PartialEq, Eq, Structural)]
pub struct Scancode {
    pub code: u16,
    pub extended: bool,
}

/// A scan code without the prefix.
pub fn sc(code: u16) -> (res: Scancode)
    ensures
        res == (Scancode { code, extended: false }),
{
    Scancode { code, extended: false }
}

/// A scan code with the prefix.
pub fn sc_ext(code: u16) -> (res: Scancode)
    ensures
        res == (Scancode { code, extended: true }),
{
    Scancode { code, extended: true }
}

/// The scan code of a key. In the main block, from Escape to the slash, and for the left Alt key and
/// the space bar, the two codes are the same number; the keys with the prefix are the left logo key
/// and those for the volume. No other key is known.
pub open spec fn scancode(evdev: u32) -> Option<Scancode> {
    if 1 <= evdev <= 53 || evdev == 56 || evdev == 57 {
        Some(Scancode { code: evdev as u16, extended: false })
    } else if evdev == 125 {
        Some(Scancode { code: 0x5B, extended: true })
    } else if evdev == 113 {
        Some(Scancode { code: 0x20, extended: true })
    } else if evdev == 114 {
        Some(Scancode { code: 0x2E, extended: true })
    } else if evdev == 115 {
        Some(Scancode { code: 0x30, extended: true })
    } else {
        None
    }
}

/// The scan code of the key with an evdev code; `None` for a key that is not known, whose events are
/// to be dropped.
pub fn scancode_for(evdev_code: u32) -> (res: Option<Scancode>)
    ensures
        res == scancode(evdev_code),
{
    let found = match evdev_code {
        1 => sc(0x01),  // Esc
        14 => sc(0x0E),  // Backspace
        15 => sc(0x0F),  // Tab
        28 => sc(0x1C),  // Enter
        57 => sc(0x39),  // Space
        // digits, as they stand in the top row
        2 => sc(0x02),
        3 => sc(0x03),
        4 => sc(0x04),
        5 => sc(0x05),
        6 => sc(0x06),
        7 => sc(0x07),
        8 => sc(0x08),
        9 => sc(0x09),
        10 => sc(0x0A),
        11 => sc(0x0B),
        // letters
        30 => sc(0x1E),  // a
        48 => sc(0x30),  // b
        46 => sc(0x2E),  // c
        32 => sc(0x20),  // d
        18 => sc(0x12),  // e
        33 => sc(0x21),  // f
        34 => sc(0x22),  // g
        35 => sc(0x23),  // h
        23 => sc(0x17),  // i
        36 => sc(0x24),  // j
        37 => sc(0x25),  // k
        38 => sc(0x26),  // l
        50 => sc(0x32),  // m
        49 => sc(0x31),  // n
        24 => sc(0x18),  // o
        25 => sc(0x19),  // p
        16 => sc(0x10),  // q
        19 => sc(0x13),  // r
        31 => sc(0x1F),  // s
        20 => sc(0x14),  // t
        22 => sc(0x16),  // u
        47 => sc(0x2F),  // v
        17 => sc(0x11),  // w
        45 => sc(0x2D),  // x
        21 => sc(0x15),  // y
        44 => sc(0x2C),  // z
        // punctuation
        12 => sc(0x0C),  // -
        13 => sc(0x0D),  // =
        26 => sc(0x1A),  // [
        27 => sc(0x1B),  // ]
        39 => sc(0x27),  // ;
        40 => sc(0x28),  // '
        41 => sc(0x29),  // `
        43 => sc(0x2B),  // backslash
        51 => sc(0x33),  // ,
        52 => sc(0x34),  // .
        53 => sc(0x35),  // /
        // modifiers
        29 => sc(0x1D),  // left Ctrl
        42 => sc(0x2A),  // left Shift
        56 => sc(0x38),  // left Alt
        125 => sc_ext(0x5B),  // left logo
        // volume
        113 => sc_ext(0x20),  // mute
        114 => sc_ext(0x2E),  // down
        115 => sc_ext(0x30),  // up
        _ => {
            return None;
        },
    };
    Some(found)
}

/// The flags of the event for a key: always by scan code, with a bit for the prefix and a bit for
/// the release.
pub open spec fn event_flags(s: Scancode, pressed: bool) -> u32 {
    (8 + (if s.extended {
        1int
    } else {
        0
    }) + (if pressed {
        0int
    } else {
        2
    })) as u32
}

pub fn key_event_flags(scancode: Scancode, pressed: bool) -> (flags: u32)
    ensures
        flags == event_flags(scancode, pressed),
{
    assert(8u32 | 1 == 9 && 8u32 | 2 == 10 && 9u32 | 2 == 11) by (bit_vector);
    let mut flags: u32 = KEYEVENTF_SCANCODE;
    if scancode.extended {
        flags = flags | KEYEVENTF_EXTENDEDKEY;
    }
    if !pressed {
        flags = flags | KEYEVENTF_KEYUP;
    }
    flags
}

/// No two keys press the same key on the host.
pub proof fn scancodes_are_distinct(a: u32, b: u32)
    requires
        scancode(a) is Some,
        scancode(a) == scancode(b),
    ensures
        a == b,
{
}

/// Whether an event presses or releases, and whether its key has the prefix, can be told from its
/// flags.
pub proof fn flags_are_distinct(s: Scancode, pressed: bool, t: Scancode, released: bool)
    requires
        event_flags(s, pressed) == event_flags(t, released),
    ensures
        s.extended == t.extended,
        pressed == released,
{
}

/// From Escape to the slash, and for the left Alt key and the space bar, a key has the same number in
/// both numberings, and no prefix.
pub proof fn the_main_block_keeps_its_numbers(evdev: u32)
    requires
        1 <= evdev <= 53 || evdev == 56 || evdev == 57,
    ensures
        scancode(evdev) matches Some(s) && s.code == evdev && !s.extended,
{
}

/// The keys outside of the main block that are known are the left logo key and the three for the
/// volume, and those have the prefix; a key is known only where it is one of them or in the block.
pub proof fn only_the_logo_and_the_volume_have_the_prefix(evdev: u32)
    ensures
        scancode(evdev) matches Some(s) && s.extended <==> evdev == 125 || 113 <= evdev <= 115,
        scancode(evdev) is None <==> !(1 <= evdev <= 53) && evdev != 56 && evdev != 57 && !(113
            <= evdev <= 115) && evdev != 125,
        evdev == 125 ==> scancode(evdev).unwrap().code == 0x5B,
        evdev == 113 ==> scancode(evdev).unwrap().code == 0x20,
        evdev == 114 ==> scancode(evdev).unwrap().code == 0x2E,
        evdev == 115 ==> scancode(evdev).unwrap().code == 0x30,
{
}

/// The bits of the flags, by their numbers: 8 that the key is given by its scan code, 1 that it has the
/// prefix, 2 that it is released, and no other.
pub proof fn flags_are_those_of_windows(s: Scancode, pressed: bool)
    ensures
        event_flags(s, pressed) / 8 == 1,
        event_flags(s, pressed) % 2 == 1 <==> s.extended,
        event_flags(s, pressed) / 2 % 2 == 1 <==> !pressed,
        event_flags(s, pressed) / 4 % 2 == 0,
{
}

/// A key of the main block is looked up by the number that it has.
pub proof fn looking_up_a_key_of_the_main_block(evdev: u32, res: Option<Scancode>)
    requires
        call_ensures(scancode_for, (evdev,), res),
        1 <= evdev <= 53 || evdev == 56 || evdev == 57,
    ensures
        res matches Some(s) && s.code == evdev && !s.extended,
{
}

} // verus!
