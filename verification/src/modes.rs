//! Quality presets: named points between picture quality and power on one side and latency on the
//! other.
use vstd::prelude::*;

use crate::proto::{DeviceProfile, ProfileView};

verus! {

/// A preset by its name. The numbers cross the wire and must stay as they are.
#[derive(Copy, Clone, Debug, PartialEq, Eq, Structural)]
pub enum Mode {
    Sync,
    Balanced,
    Quality,
    Battery,
}

/// What a preset fixes.
#[derive(Copy, Clone, Debug, PartialEq, Eq, Structural)]
pub struct Preset {
    pub width: u32,
    pub height: u32,
    pub fps: u32,
    pub maxrate_kbps: u32,
    /// Frames from one keyframe to the next. A lost frame spoils the picture until then.
    pub gop: u32,
    /// How old a frame may be before the client skips it.
    pub drop_budget_ms: u32,
    /// The size of the kernel's send buffer.
    pub sndbuf_bytes: usize,
}

/// The least send buffer: a keyframe has to fit.
pub const SNDBUF_FLOOR: usize = 65536;

/// How much airtime the send buffer holds.
pub const SNDBUF_MILLIS: usize = 100;

/// The send buffer for a bit rate: what it carries in `SNDBUF_MILLIS`, and never less than the
/// floor.
pub open spec fn sndbuf(maxrate_kbps: int) -> int {
    let bytes = (maxrate_kbps * 1000 / 8) * SNDBUF_MILLIS / 1000;
    if bytes < SNDBUF_FLOOR {
        SNDBUF_FLOOR as int
    } else {
        bytes
    }
}

pub fn sndbuf_for(maxrate_kbps: u32) -> (res: usize)
    requires
        maxrate_kbps * 125 * SNDBUF_MILLIS <= usize::MAX,
        maxrate_kbps * 1000 <= usize::MAX,
    ensures
        res == sndbuf(maxrate_kbps as int),
{
    let bytes_per_sec: usize = maxrate_kbps as usize * 1000 / 8;
    let bytes: usize = bytes_per_sec * SNDBUF_MILLIS / 1000;
    if bytes < SNDBUF_FLOOR {
        SNDBUF_FLOOR
    } else {
        bytes
    }
}

/// The number of a mode on the wire.
pub open spec fn mode_code(m: Mode) -> u8 {
    match m {
        Mode::Sync => 0,
        Mode::Balanced => 1,
        Mode::Quality => 2,
        Mode::Battery => 3,
    }
}

/// The mode with a number; a number without one has no stand-in.
pub open spec fn mode_of(v: u8) -> Option<Mode> {
    if v == 0 {
        Some(Mode::Sync)
    } else if v == 1 {
        Some(Mode::Balanced)
    } else if v == 2 {
        Some(Mode::Quality)
    } else if v == 3 {
        Some(Mode::Battery)
    } else {
        None
    }
}

pub open spec fn mode_name(m: Mode) -> Seq<char> {
    match m {
        Mode::Sync => "sync"@,
        Mode::Balanced => "balanced"@,
        Mode::Quality => "quality"@,
        Mode::Battery => "battery"@,
    }
}

/// The table of presets.
pub open spec fn preset_of(m: Mode) -> Preset {
    match m {
        Mode::Sync => Preset {
            width: 1280,
            height: 720,
            fps: 30,
            maxrate_kbps: 6000,
            gop: 8,
            drop_budget_ms: 40,
            sndbuf_bytes: sndbuf(6000) as usize,
        },
        Mode::Balanced => Preset {
            width: 1920,
            height: 1080,
            fps: 30,
            maxrate_kbps: 8000,
            gop: 15,
            drop_budget_ms: 80,
            sndbuf_bytes: sndbuf(8000) as usize,
        },
        Mode::Quality => Preset {
            width: 1920,
            height: 1080,
            fps: 30,
            maxrate_kbps: 16000,
            gop: 30,
            drop_budget_ms: 150,
            sndbuf_bytes: sndbuf(16000) as usize,
        },
        Mode::Battery => Preset {
            width: 1280,
            height: 720,
            fps: 20,
            maxrate_kbps: 3000,
            gop: 20,
            drop_budget_ms: 120,
            sndbuf_bytes: sndbuf(3000) as usize,
        },
    }
}

impl Mode {
    pub fn as_u8(self) -> (v: u8)
        ensures
            v == mode_code(self),
    {
        match self {
            Mode::Sync => 0,
            Mode::Balanced => 1,
            Mode::Quality => 2,
            Mode::Battery => 3,
        }
    }

    /// The mode with a number; `None` where no mode has it.
    pub fn from_u8(v: u8) -> (res: Option<Mode>)
        ensures
            res == mode_of(v),
    {
        match v {
            0 => Some(Mode::Sync),
            1 => Some(Mode::Balanced),
            2 => Some(Mode::Quality),
            3 => Some(Mode::Battery),
            _ => None,
        }
    }

    pub fn name(self) -> (res: &'static str)
        ensures
            res@ == mode_name(self),
    {
        match self {
            Mode::Sync => "sync",
            Mode::Balanced => "balanced",
            Mode::Quality => "quality",
            Mode::Battery => "battery",
        }
    }

    pub fn preset(self) -> (res: Preset)
        ensures
            res == preset_of(self),
    {
        match self {
            Mode::Sync => Preset {
                width: 1280,
                height: 720,
                fps: 30,
                maxrate_kbps: 6000,
                gop: 8,
                drop_budget_ms: 40,
                sndbuf_bytes: sndbuf_for(6000),
            },
            Mode::Balanced => Preset {
                width: 1920,
                height: 1080,
                fps: 30,
                maxrate_kbps: 8000,
                gop: 15,
                drop_budget_ms: 80,
                sndbuf_bytes: sndbuf_for(8000),
            },
            Mode::Quality => Preset {
                width: 1920,
                height: 1080,
                fps: 30,
                maxrate_kbps: 16000,
                gop: 30,
                drop_budget_ms: 150,
                sndbuf_bytes: sndbuf_for(16000),
            },
            Mode::Battery => Preset {
                width: 1280,
                height: 720,
                fps: 20,
                maxrate_kbps: 3000,
                gop: 20,
                drop_budget_ms: 120,
                sndbuf_bytes: sndbuf_for(3000),
            },
        }
    }
}

impl Default for Mode {
    fn default() -> (res: Self)
        ensures
            res == Mode::Balanced,
    {
        Mode::Balanced
    }
}

/// A wish, bounded by what the other side claims. A claim of nothing is no claim.
pub open spec fn bounded(wish: u32, claim: u32) -> u32 {
    if claim == 0 || wish <= claim {
        wish
    } else {
        claim
    }
}

/// A preset, no larger and no faster than a client's decoder claims to be.
pub open spec fn fitted(p: Preset, d: ProfileView) -> Preset {
    Preset {
        width: bounded(p.width, d.max_decode_width),
        height: bounded(p.height, d.max_decode_height),
        fps: bounded(p.fps, d.max_decode_fps),
        ..p
    }
}

fn bound(wish: u32, claim: u32) -> (res: u32)
    ensures
        res == bounded(wish, claim),
{
    if claim == 0 || wish <= claim {
        wish
    } else {
        claim
    }
}

impl Preset {
    /// The preset, no larger and no faster than the client's decoder claims to be. What a client
    /// says is a hint: a claim that would leave no picture at all is ignored.
    pub fn clamped_to(self, profile: &DeviceProfile) -> (res: Preset)
        ensures
            res == fitted(self, profile@),
    {
        Preset {
            width: bound(self.width, profile.max_decode_width),
            height: bound(self.height, profile.max_decode_height),
            fps: bound(self.fps, profile.max_decode_fps),
            maxrate_kbps: self.maxrate_kbps,
            gop: self.gop,
            drop_budget_ms: self.drop_budget_ms,
            sndbuf_bytes: self.sndbuf_bytes,
        }
    }
}

// ---- laws ----

/// Numbers and modes stand for each other, one for one; every other number is refused.
pub proof fn mode_numbers_round_trip(m: Mode, v: u8)
    ensures
        mode_of(mode_code(m)) == Some(m),
        mode_of(v) == Some(m) ==> v == mode_code(m),
        v > 3 ==> mode_of(v) is None,
{
}

/// The synchronous preset beats the one for quality in each thing that costs latency.
pub proof fn sync_is_quicker_than_quality()
    ensures
        ({
            let (s, q) = (preset_of(Mode::Sync), preset_of(Mode::Quality));
            &&& s.width * s.height < q.width * q.height
            &&& s.gop < q.gop
            &&& s.drop_budget_ms < q.drop_budget_ms
        }),
{
}

/// No preset needs a lower bit rate or fewer frames than the one for battery.
pub proof fn battery_is_cheapest(m: Mode)
    ensures
        preset_of(Mode::Battery).maxrate_kbps <= preset_of(m).maxrate_kbps,
        preset_of(Mode::Battery).fps <= preset_of(m).fps,
{
}

/// Every send buffer holds a keyframe, and a higher bit rate never gets a smaller one.
pub proof fn send_buffers_fit(m: Mode, a: int, b: int)
    requires
        0 <= a <= b,
    ensures
        preset_of(m).sndbuf_bytes >= SNDBUF_FLOOR,
        SNDBUF_FLOOR <= sndbuf(a) <= sndbuf(b),
{
}

/// A fitted preset never asks more of a client than it claims to decode, nor more than the preset
/// itself, and always leaves a picture where the preset has one.
pub proof fn a_fitted_preset_is_within_both(p: Preset, d: ProfileView)
    ensures
        fitted(p, d).width <= p.width && fitted(p, d).height <= p.height && fitted(p, d).fps <= p.fps,
        d.max_decode_width > 0 ==> fitted(p, d).width <= d.max_decode_width,
        d.max_decode_height > 0 ==> fitted(p, d).height <= d.max_decode_height,
        d.max_decode_fps > 0 ==> fitted(p, d).fps <= d.max_decode_fps,
        p.width > 0 && p.height > 0 && p.fps > 0 ==> fitted(p, d).width > 0 && fitted(p, d).height
            > 0 && fitted(p, d).fps > 0,
{
}

/// The numbers of the modes on the wire: 0 for the lowest delay, 1 for the balanced one, 2 for
/// quality, 3 for the battery. Each has its name.
pub proof fn modes_have_fixed_numbers(m: Mode)
    ensures
        mode_code(m) == 0 <==> m == Mode::Sync,
        mode_code(m) == 1 <==> m == Mode::Balanced,
        mode_code(m) == 2 <==> m == Mode::Quality,
        mode_code(m) == 3 <==> m == Mode::Battery,
        mode_name(Mode::Sync) == "sync"@ && mode_name(Mode::Balanced) == "balanced"@,
        mode_name(Mode::Quality) == "quality"@ && mode_name(Mode::Battery) == "battery"@,
{
}

/// The presets, against each other: the quick one and the one for the battery are of 1280 by 720
/// pixels, the others of 1920 by 1080; only that for the battery has fewer than 30 frames a second;
/// bit rate, budget for late frames and distance between keyframes grow from the quick one over the
/// balanced one to that for quality, and the bit rate doubles at the end.
pub proof fn presets_are_graded(m: Mode)
    ensures
        ({
            let p = preset_of(m);
            let (s, b, q, e) = (
                preset_of(Mode::Sync),
                preset_of(Mode::Balanced),
                preset_of(Mode::Quality),
                preset_of(Mode::Battery),
            );
            &&& 9 * p.width == 16 * p.height
            &&& p.height == 720 <==> m == Mode::Sync || m == Mode::Battery
            &&& p.height == 1080 <==> m == Mode::Balanced || m == Mode::Quality
            &&& p.fps == 20 <==> m == Mode::Battery
            &&& p.fps == 30 <==> m != Mode::Battery
            &&& p.sndbuf_bytes == sndbuf(p.maxrate_kbps as int)
            &&& s.maxrate_kbps == 6000 && b.maxrate_kbps == 8000 && q.maxrate_kbps == 2
                * b.maxrate_kbps && 2 * e.maxrate_kbps == s.maxrate_kbps
            &&& s.gop == 8 && b.gop == 15 && q.gop == 2 * b.gop && e.gop == e.fps
            &&& s.drop_budget_ms == 40 && b.drop_budget_ms == 2 * s.drop_budget_ms
                && e.drop_budget_ms == 3 * s.drop_budget_ms && q.drop_budget_ms == 150
        }),
{
}

/// The send buffer holds what the bit rate carries in a tenth of a second, in whole bytes, where that
/// is more than 65536 bytes, and else 65536.
pub proof fn the_send_buffer_holds_a_tenth_of_a_second(kbps: int)
    requires
        0 <= kbps,
    ensures
        sndbuf(kbps) >= 65536,
        8 * sndbuf(kbps) <= 100 * kbps || sndbuf(kbps) == 65536,
        8 * (sndbuf(kbps) + 1) > 100 * kbps,
{
}

/// A fitted preset gives up no more than it has to: each measure is that of the preset or the claim,
/// it is the preset's where there is no claim or a larger one, and nothing else changes.
pub proof fn a_fitted_preset_gives_up_no_more_than_needed(p: Preset, d: ProfileView)
    ensures
        ({
            let f = fitted(p, d);
            &&& f.width == p.width || (f.width == d.max_decode_width && f.width < p.width)
            &&& f.height == p.height || (f.height == d.max_decode_height && f.height < p.height)
            &&& f.fps == p.fps || (f.fps == d.max_decode_fps && f.fps < p.fps)
            &&& d.max_decode_width == 0 ==> f.width == p.width
            &&& d.max_decode_height == 0 ==> f.height == p.height
            &&& d.max_decode_fps == 0 ==> f.fps == p.fps
            &&& f.maxrate_kbps == p.maxrate_kbps && f.gop == p.gop && f.drop_budget_ms
                == p.drop_budget_ms && f.sndbuf_bytes == p.sndbuf_bytes
        }),
{
}

} // verus!
