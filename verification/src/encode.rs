//! Around the encoder: what ffmpeg is started with, which frames it is fed, and what becomes of its
//! output.
use std::collections::VecDeque;

use vstd::prelude::*;

use crate::annexb::AnnexBSplitter;
use crate::backend::{BackendView, EncodeBackend};
use crate::capture::{Frame, PixelFormat, Take};
use crate::config::HostConfig;
use crate::modes::Preset;
use crate::{annexb, backend, text};

verus! {

/// One encoded picture.
pub struct EncodedUnit {
    pub keyframe: bool,
    /// When the frame was captured; 0 means unknown.
    pub capture_us: u64,
    pub data: Vec<u8>,
}

/// An `EncodedUnit` with its bytes as a sequence.
#[verifier::ext_equal]
pub struct UnitView {
    pub keyframe: bool,
    pub capture_us: u64,
    pub data: Seq<u8>,
}

impl View for EncodedUnit {
    type V = UnitView;

    open spec fn view(&self) -> UnitView {
        UnitView { keyframe: self.keyframe, capture_us: self.capture_us, data: self.data@ }
    }
}

// ---- timestamps ----

/// How many timestamps may wait. With one unit out for each frame in, more than a handful means
/// that the two no longer match.
pub const FIFO_DESYNC_BOUND: usize = 8;

/// What a push leaves in the queue: too long a queue is emptied of all but the newest.
pub open spec fn pushed(q: Seq<u64>, us: u64) -> Seq<u64> {
    if q.len() >= FIFO_DESYNC_BOUND {
        seq![us]
    } else {
        q.push(us)
    }
}

/// What a pop gives; 0 means that nothing is known.
pub open spec fn popped(q: Seq<u64>) -> u64 {
    if q.len() > 0 {
        q[0]
    } else {
        0
    }
}

/// What a pop leaves in the queue.
pub open spec fn after_pop(q: Seq<u64>) -> Seq<u64> {
    if q.len() > 0 {
        q.skip(1)
    } else {
        q
    }
}

/// Carries the time of capture of each frame past the encoder, whose pipes carry none.
///
/// The view is the queue, oldest first.
pub struct TimestampFifo {
    inner: VecDeque<u64>,
}

impl View for TimestampFifo {
    type V = Seq<u64>;

    closed spec fn view(&self) -> Seq<u64> {
        self.inner@
    }
}

impl TimestampFifo {
    pub fn new() -> (res: Self)
        ensures
            res@ == Seq::<u64>::empty(),
    {
        TimestampFifo { inner: VecDeque::new() }
    }

    /// Adds a timestamp; tells whether the queue had grown too long and was reset.
    pub fn push(&mut self, us: u64) -> (reset: bool)
        ensures
            final(self)@ == pushed(old(self)@, us),
            reset == (old(self)@.len() >= FIFO_DESYNC_BOUND),
    {
        if self.inner.len() >= FIFO_DESYNC_BOUND {
            self.inner.clear();
            self.inner.push_back(us);
            assert(self.inner@ =~= seq![us]);
            true
        } else {
            self.inner.push_back(us);
            false
        }
    }

    /// Takes the oldest timestamp; 0 where there is none.
    pub fn pop(&mut self) -> (us: u64)
        ensures
            us == popped(old(self)@),
            final(self)@ == after_pop(old(self)@),
    {
        match self.inner.pop_front() {
            Some(us) => {
                assert(self.inner@ =~= old(self)@.skip(1));
                us
            },
            None => 0,
        }
    }

    pub fn len(&self) -> (n: usize)
        ensures
            n == self@.len(),
    {
        self.inner.len()
    }
}

/// The queue never outgrows its bound, and its newest entry is always the last one pushed.
pub proof fn the_queue_stays_bounded(q: Seq<u64>, us: u64)
    requires
        q.len() <= FIFO_DESYNC_BOUND,
    ensures
        pushed(q, us).len() <= FIFO_DESYNC_BOUND,
        pushed(q, us).last() == us,
        after_pop(q).len() <= FIFO_DESYNC_BOUND,
{
}

/// Within the bound, what is pushed first comes out first: a pop is not affected by what is pushed
/// after it, as long as something was there.
pub proof fn first_in_first_out(q: Seq<u64>, us: u64)
    requires
        0 < q.len() < FIFO_DESYNC_BOUND,
    ensures
        popped(pushed(q, us)) == popped(q),
        after_pop(pushed(q, us)) == pushed(after_pop(q), us),
{
    assert(after_pop(pushed(q, us)) =~= pushed(after_pop(q), us));
}

// ---- encoded output ----

/// A mailbox for one encoded unit: a new one takes the place of one that was not sent, so that
/// nothing ever queues.
///
/// The view is the unit in it.
pub struct LatestEncoded {
    inner: Option<EncodedUnit>,
}

impl View for LatestEncoded {
    type V = Option<EncodedUnit>;

    closed spec fn view(&self) -> Option<EncodedUnit> {
        self.inner
    }
}

impl LatestEncoded {
    pub fn new() -> (res: Self)
        ensures
            res@ is None,
    {
        LatestEncoded { inner: None }
    }

    pub fn publish(&mut self, unit: EncodedUnit)
        ensures
            final(self)@ == Some(unit),
    {
        self.inner = Some(unit);
    }

    /// Throws away a unit that waits to be sent: one of the old size must not follow the
    /// announcement of a new one.
    pub fn clear(&mut self)
        ensures
            final(self)@ is None,
    {
        self.inner = None;
    }

    /// One look of someone who waits for a unit once, and not longer than some time.
    pub fn take_latest_timeout(&mut self, waited: bool) -> (res: Take<EncodedUnit>)
        ensures
            final(self)@ is None,
            match old(self)@ {
                Some(u) => res == Take::Got(u),
                None => res == (if waited {
                    Take::<EncodedUnit>::Nothing
                } else {
                    Take::Wait
                }),
            },
    {
        match self.inner.take() {
            Some(u) => Take::Got(u),
            None => if waited {
                Take::Nothing
            } else {
                Take::Wait
            },
        }
    }
}

/// Units, each with the timestamp that comes out of the queue for it.
pub open spec fn stamped(units: Seq<(bool, Seq<u8>)>, q: Seq<u64>) -> Seq<UnitView>
    decreases units.len(),
{
    if units.len() == 0 {
        Seq::empty()
    } else {
        seq![UnitView { keyframe: units[0].0, capture_us: popped(q), data: units[0].1 }] + stamped(
            units.skip(1),
            after_pop(q),
        )
    }
}

/// What `n` pops leave in the queue.
pub open spec fn after_pops(q: Seq<u64>, n: nat) -> Seq<u64>
    decreases n,
{
    if n == 0 {
        q
    } else {
        after_pops(after_pop(q), (n - 1) as nat)
    }
}

/// The views of a list of units.
pub open spec fn unit_views(v: Seq<EncodedUnit>) -> Seq<UnitView> {
    v.map_values(|u: EncodedUnit| u@)
}

/// Takes the next chunk of the encoder's output and gives the units that it completes, in the order
/// in which they are to be published, each with the time at which its frame was captured.
pub fn run_reader(
    splitter: &mut AnnexBSplitter,
    timestamps: &mut TimestampFifo,
    chunk: &[u8],
) -> (out: Vec<EncodedUnit>)
    ensures
        ({
            let (units, rest) = annexb::split(old(splitter)@ + chunk@);
            &&& final(splitter)@ == rest
            &&& unit_views(out@) == stamped(units, old(timestamps)@)
            &&& final(timestamps)@ == after_pops(old(timestamps)@, units.len())
        }),
{
    let ghost units = annexb::split(splitter@ + chunk@).0;
    let mut left = splitter.push(chunk);
    let mut out: Vec<EncodedUnit> = Vec::new();
    proof {
        assert(units.skip(0) =~= units);
        assert(unit_views(out@) + stamped(units, timestamps@) =~= stamped(units, timestamps@));
    }
    while left.len() > 0
        invariant
            left@.len() <= units.len(),
            annexb::units_view(left@) == units.skip(units.len() - left@.len()),
            out@.len() + left@.len() == units.len(),
            stamped(units, old(timestamps)@) == unit_views(out@) + stamped(
                units.skip(out@.len() as int),
                timestamps@,
            ),
            after_pops(old(timestamps)@, units.len()) == after_pops(timestamps@, left@.len()),
        decreases left@.len(),
    {
        let ghost rest = units.skip(out@.len() as int);
        let ghost q = timestamps@;
        let ghost before = out@;
        let ghost waiting = left@;
        let (keyframe, data) = left.remove(0);
        let unit = EncodedUnit { keyframe, capture_us: timestamps.pop(), data };
        proof {
            assert(annexb::units_view(waiting)[0] == rest[0]);
            assert((unit.keyframe, unit.data@) == rest[0]);
            assert(rest.skip(1) =~= units.skip(before.len() as int + 1));
            assert(annexb::units_view(left@) =~= rest.skip(1));
        }
        let ghost seen = unit@;
        out.push(unit);
        proof {
            assert(unit_views(out@) =~= unit_views(before).push(seen));
            assert(unit_views(before) + stamped(rest, q) =~= unit_views(out@) + stamped(
                rest.skip(1),
                timestamps@,
            ));
        }
    }
    proof {
        assert(units.skip(out@.len() as int).len() == 0);
        assert(unit_views(out@) =~= stamped(units, old(timestamps)@));
    }
    out
}

// ---- feeding ----

/// What becomes of a captured frame.
#[derive(Debug, Clone, Copy, PartialEq, Eq, Structural)]
pub enum Feed {
    /// It is written to the encoder; `first` tells whether it is the first.
    Write { first: bool },
    /// It is not in the format that the encoder was started for, and nothing is fed.
    Refuse,
}

/// Feeds the encoder. The format of the first frame is checked, since what was negotiated need not
/// be what the encoder was started for; those behind it come from the same stream.
///
/// The view is whether the first frame has been seen.
pub struct Feeder {
    checked: bool,
}

impl View for Feeder {
    type V = bool;

    closed spec fn view(&self) -> bool {
        self.checked
    }
}

impl Feeder {
    pub fn new() -> (res: Self)
        ensures
            !res@,
    {
        Feeder { checked: false }
    }

    /// Decides on the next frame. The timestamp of one that is to be written goes into the queue
    /// first, so that the queue has the order in which the encoder gets the frames.
    pub fn feed(&mut self, frame: &Frame, timestamps: &mut TimestampFifo) -> (res: Feed)
        ensures
            final(self)@,
            if !old(self)@ && frame.format != PixelFormat::Bgra {
                res == Feed::Refuse && final(timestamps)@ == old(timestamps)@
            } else {
                res == (Feed::Write { first: !old(self)@ }) && final(timestamps)@ == pushed(
                    old(timestamps)@,
                    frame.capture_us,
                )
            },
    {
        let first = !self.checked;
        self.checked = true;
        if first {
            match frame.format {
                PixelFormat::Bgra => {},
                PixelFormat::Other(_) => {
                    return Feed::Refuse;
                },
            }
        }
        timestamps.push(frame.capture_us);
        Feed::Write { first }
    }
}

// ---- starting ffmpeg ----

/// The larger of a number and 1.
pub open spec fn at_least_one(v: u32) -> u32 {
    if v == 0 {
        1
    } else {
        v
    }
}

/// The number in decimal, and then a `k`.
pub open spec fn kilo(v: u32) -> Seq<char> {
    text::decimal(v as nat) + "k"@
}

/// The filter: a conversion, the upload to the GPU where the encoder takes its frames from there, and
/// a scaling where the sizes differ.
pub open spec fn filter_text(b: BackendView, p: Preset, src_width: u32, src_height: u32) -> Seq<
    char,
> {
    (if b is Vaapi {
        "format=nv12,hwupload"@
    } else {
        "format=nv12"@
    }) + (if p.width != src_width || p.height != src_height {
        (if b is Vaapi {
            ",scale_vaapi="@
        } else {
            ",scale="@
        }) + text::decimal(p.width as nat) + ":"@ + text::decimal(p.height as nat)
    } else {
        Seq::empty()
    })
}

/// The device that an encoder runs on, where it needs one.
pub open spec fn device_args(b: BackendView) -> Seq<Seq<char>> {
    match b {
        BackendView::Vaapi { render_node } => seq!["-init_hw_device"@, "vaapi=va:"@ + render_node],
        _ => Seq::empty(),
    }
}

/// What an encoder is told of its own: how it keeps to the rate, or how fast it is to be.
pub open spec fn own_args(b: BackendView) -> Seq<Seq<char>> {
    match b {
        BackendView::Vaapi { .. } => seq!["-rc_mode"@, "VBR"@],
        BackendView::Software => seq!["-preset"@, "ultrafast"@],
        _ => Seq::empty(),
    }
}

/// How many frames an encoder may hold back, where that can be set.
pub open spec fn depth_args(b: BackendView, async_depth: u32) -> Seq<Seq<char>> {
    if b is Vaapi {
        seq!["-async_depth"@, text::decimal(async_depth as nat)]
    } else {
        Seq::empty()
    }
}

/// The arguments that ffmpeg is started with: raw frames on its input, an H.264 stream of this
/// encoder's on its output, and a bit rate that varies below a hard cap.
///
/// The target is half of the cap. The buffer holds a tenth of a second, which is what bounds the
/// size of a single frame.
pub open spec fn encoder_args(
    b: BackendView,
    async_depth: u32,
    p: Preset,
    src_width: u32,
    src_height: u32,
) -> Seq<Seq<char>> {
    seq!["-y"@, "-hide_banner"@, "-loglevel"@, "error"@] + device_args(b) + seq![
        "-f"@,
        "rawvideo"@,
        "-pix_fmt"@,
        "bgra"@,
        "-s"@,
        text::decimal(src_width as nat) + "x"@ + text::decimal(src_height as nat),
        "-r"@,
        text::decimal(p.fps as nat),
        "-i"@,
        "pipe:0"@,
        "-vf"@,
        filter_text(b, p, src_width, src_height),
        "-c:v"@,
        backend::codec_of(b),
    ] + own_args(b) + seq![
        "-b:v"@,
        kilo(at_least_one(p.maxrate_kbps / 2)),
        "-maxrate"@,
        kilo(p.maxrate_kbps),
        "-bufsize"@,
        kilo(at_least_one(p.maxrate_kbps / 10)),
        "-bf"@,
        "0"@,
        "-g"@,
        text::decimal(p.gop as nat),
    ] + depth_args(b, async_depth) + seq!["-f"@, "h264"@, "pipe:1"@]
}

fn kilo_of(v: u32) -> (res: String)
    ensures
        res@ == kilo(v),
{
    text::decimal_of(v as u64).concat("k")
}

fn one_or_more(v: u32) -> (res: u32)
    ensures
        res == at_least_one(v),
{
    if v == 0 {
        1
    } else {
        v
    }
}

/// The arguments that ffmpeg is started with, to encode frames of the source's size under a preset,
/// with the encoder that was found.
#[verifier::spinoff_prover]
#[verifier::rlimit(60)]
pub fn spawn_args(
    cfg: &HostConfig,
    backend: &EncodeBackend,
    preset: &Preset,
    src_width: u32,
    src_height: u32,
) -> (args: Vec<String>)
    ensures
        text::views(args@) == encoder_args(
            backend@,
            cfg.encode.async_depth,
            *preset,
            src_width,
            src_height,
        ),
{
    let vaapi = matches!(backend, EncodeBackend::Vaapi { .. });
    let mut filter = if vaapi {
        "format=nv12,hwupload".to_owned()
    } else {
        "format=nv12".to_owned()
    };
    if preset.width != src_width || preset.height != src_height {
        if vaapi {
            filter.append(",scale_vaapi=");
        } else {
            filter.append(",scale=");
        }
        text::push_decimal(&mut filter, preset.width as u64);
        filter.append(":");
        text::push_decimal(&mut filter, preset.height as u64);
    }
    assert(filter@ =~= filter_text(backend@, *preset, src_width, src_height));
    let mut size = text::decimal_of(src_width as u64);
    size.append("x");
    text::push_decimal(&mut size, src_height as u64);
    let mut v: Vec<String> = Vec::new();
    assert(text::views(v@) =~= Seq::<Seq<char>>::empty());
    text::push_text(&mut v, "-y");
    text::push_text(&mut v, "-hide_banner");
    text::push_text(&mut v, "-loglevel");
    text::push_text(&mut v, "error");
    if let EncodeBackend::Vaapi { render_node } = backend {
        let device = "vaapi=va:".to_owned().concat(render_node.as_str());
        text::push_text(&mut v, "-init_hw_device");
        text::push_text(&mut v, device.as_str());
    }
    text::push_text(&mut v, "-f");
    text::push_text(&mut v, "rawvideo");
    text::push_text(&mut v, "-pix_fmt");
    text::push_text(&mut v, "bgra");
    text::push_text(&mut v, "-s");
    text::push_text(&mut v, size.as_str());
    text::push_text(&mut v, "-r");
    text::push_text(&mut v, text::decimal_of(preset.fps as u64).as_str());
    text::push_text(&mut v, "-i");
    text::push_text(&mut v, "pipe:0");
    text::push_text(&mut v, "-vf");
    text::push_text(&mut v, filter.as_str());
    text::push_text(&mut v, "-c:v");
    text::push_text(&mut v, backend.codec_name());
    match backend {
        EncodeBackend::Vaapi { .. } => {
            text::push_text(&mut v, "-rc_mode");
            text::push_text(&mut v, "VBR");
        },
        EncodeBackend::Software => {
            text::push_text(&mut v, "-preset");
            text::push_text(&mut v, "ultrafast");
        },
        _ => {},
    }
    text::push_text(&mut v, "-b:v");
    text::push_text(&mut v, kilo_of(one_or_more(preset.maxrate_kbps / 2)).as_str());
    text::push_text(&mut v, "-maxrate");
    text::push_text(&mut v, kilo_of(preset.maxrate_kbps).as_str());
    text::push_text(&mut v, "-bufsize");
    text::push_text(&mut v, kilo_of(one_or_more(preset.maxrate_kbps / 10)).as_str());
    text::push_text(&mut v, "-bf");
    text::push_text(&mut v, "0");
    text::push_text(&mut v, "-g");
    text::push_text(&mut v, text::decimal_of(preset.gop as u64).as_str());
    if vaapi {
        text::push_text(&mut v, "-async_depth");
        text::push_text(&mut v, text::decimal_of(cfg.encode.async_depth as u64).as_str());
    }
    text::push_text(&mut v, "-f");
    text::push_text(&mut v, "h264");
    text::push_text(&mut v, "pipe:1");
    assert(text::views(v@) =~= encoder_args(
        backend@,
        cfg.encode.async_depth,
        *preset,
        src_width,
        src_height,
    ));
    v
}

/// The arguments of ffmpeg for encoding a file of raw frames into a file, at a constant quality.
pub open spec fn file_args(
    cfg: HostConfig,
    raw: Seq<char>,
    out: Seq<char>,
    width: usize,
    height: usize,
) -> Seq<Seq<char>> {
    seq![
        "-y"@,
        "-hide_banner"@,
        "-loglevel"@,
        "warning"@,
        "-init_hw_device"@,
        "vaapi=va:"@ + cfg.gpu.vaapi_render_node@,
        "-f"@,
        "rawvideo"@,
        "-pix_fmt"@,
        "bgra"@,
        "-s"@,
        text::decimal(width as nat) + "x"@ + text::decimal(height as nat),
        "-r"@,
        text::decimal(cfg.encode.fps as nat),
        "-i"@,
        raw,
        "-vf"@,
        "format=nv12,hwupload"@,
        "-c:v"@,
        cfg.encode.codec@,
        "-qp"@,
        text::decimal(cfg.encode.qp as nat),
        "-f"@,
        "h264"@,
        out,
    ]
}

/// The arguments of ffmpeg for encoding a file of raw frames into a file; nothing where no size was
/// negotiated.
pub fn encode_with_vaapi(
    cfg: &HostConfig,
    raw_path: &str,
    out_path: &str,
    width: usize,
    height: usize,
) -> (res: Option<Vec<String>>)
    ensures
        match res {
            Some(args) => width > 0 && height > 0 && text::views(args@) == file_args(
                *cfg,
                raw_path@,
                out_path@,
                width,
                height,
            ),
            None => width == 0 || height == 0,
        },
{
    if width == 0 || height == 0 {
        return None;
    }
    let mut size = text::decimal_of(width as u64);
    size.append("x");
    text::push_decimal(&mut size, height as u64);
    let device = "vaapi=va:".to_owned().concat(cfg.gpu.vaapi_render_node.as_str());
    let mut v: Vec<String> = Vec::new();
    assert(text::views(v@) =~= Seq::<Seq<char>>::empty());
    text::push_text(&mut v, "-y");
    text::push_text(&mut v, "-hide_banner");
    text::push_text(&mut v, "-loglevel");
    text::push_text(&mut v, "warning");
    text::push_text(&mut v, "-init_hw_device");
    text::push_text(&mut v, device.as_str());
    text::push_text(&mut v, "-f");
    text::push_text(&mut v, "rawvideo");
    text::push_text(&mut v, "-pix_fmt");
    text::push_text(&mut v, "bgra");
    text::push_text(&mut v, "-s");
    text::push_text(&mut v, size.as_str());
    text::push_text(&mut v, "-r");
    text::push_text(&mut v, text::decimal_of(cfg.encode.fps as u64).as_str());
    text::push_text(&mut v, "-i");
    text::push_text(&mut v, raw_path);
    text::push_text(&mut v, "-vf");
    text::push_text(&mut v, "format=nv12,hwupload");
    text::push_text(&mut v, "-c:v");
    text::push_text(&mut v, cfg.encode.codec.as_str());
    text::push_text(&mut v, "-qp");
    text::push_text(&mut v, text::decimal_of(cfg.encode.qp as u64).as_str());
    text::push_text(&mut v, "-f");
    text::push_text(&mut v, "h264");
    text::push_text(&mut v, out_path);
    Some(v)
}

// ---- laws ----

/// Whether arguments give this value for an option.
pub open spec fn told(args: Seq<Seq<char>>, option: Seq<char>, value: Seq<char>) -> bool {
    exists|i: int| 0 <= i < args.len() - 1 && #[trigger] args[i] == option && args[i + 1] == value
}

proof fn lemma_told(args: Seq<Seq<char>>, i: int)
    requires
        0 <= i < args.len() - 1,
    ensures
        told(args, args[i], args[i + 1]),
{
}

/// The last step of a filter: what lies behind its last comma.
pub open spec fn last_step(filter: Seq<char>) -> Seq<char>
    decreases filter.len(),
{
    if filter.len() == 0 || filter.last() == ',' {
        Seq::empty()
    } else {
        last_step(filter.drop_last()).push(filter.last())
    }
}

/// The size that a step scales to, where it scales.
pub open spec fn scaled_to(step: Seq<char>) -> Option<Seq<char>> {
    if step.len() >= 6 && step.take(6) == "scale="@ {
        Some(step.skip(6))
    } else if step.len() >= 12 && step.take(12) == "scale_vaapi="@ {
        Some(step.skip(12))
    } else {
        None
    }
}

/// The size of the pictures that come out of a filter: that of its scaling, and else that of the
/// pictures that go in.
pub open spec fn output_size(filter: Seq<char>, src_width: u32, src_height: u32) -> Seq<char> {
    match scaled_to(last_step(filter)) {
        Some(size) => size,
        None => text::decimal(src_width as nat) + ":"@ + text::decimal(src_height as nat),
    }
}

proof fn lemma_last_step(a: Seq<char>, step: Seq<char>)
    requires
        forall|i: int| 0 <= i < step.len() ==> #[trigger] step[i] != ',',
    ensures
        last_step(a + ","@ + step) == step,
    decreases step.len(),
{
    reveal_strlit(",");
    let f = a + ","@ + step;
    if step.len() > 0 {
        lemma_last_step(a, step.drop_last());
        assert(f.drop_last() =~= a + ","@ + step.drop_last());
        assert(last_step(f) =~= step);
    }
}

proof fn lemma_filter_as_is(b: BackendView, filter: Seq<char>)
    requires
        filter == (if b is Vaapi {
            "format=nv12,hwupload"@
        } else {
            "format=nv12"@
        }) + Seq::<char>::empty(),
    ensures
        filter == (if b is Vaapi {
            "format=nv12,hwupload"@
        } else {
            "format=nv12"@
        }),
        scaled_to(last_step(filter)) is None,
{
    reveal_strlit(",");
    reveal_strlit("format=nv12");
    reveal_strlit("scale=");
    reveal_strlit("scale_vaapi=");
    assert("scale="@[0] == 's' && "scale_vaapi="@[0] == 's');
    if b is Vaapi {
        reveal_strlit("hwupload");
        reveal_strlit("format=nv12,hwupload");
        assert(filter =~= "format=nv12,hwupload"@);
        assert(filter =~= "format=nv12"@ + ","@ + "hwupload"@);
        lemma_last_step("format=nv12"@, "hwupload"@);
        assert("hwupload"@.take(6)[0] == 'h');
    } else {
        assert(filter =~= "format=nv12"@);
        lemma_only_step(filter);
        assert(filter.take(6)[0] == 'f');
    }
}

proof fn lemma_only_step(f: Seq<char>)
    requires
        forall|i: int| 0 <= i < f.len() ==> #[trigger] f[i] != ',',
    ensures
        last_step(f) == f,
    decreases f.len(),
{
    if f.len() > 0 {
        lemma_only_step(f.drop_last());
        assert(last_step(f) =~= f);
    }
}

proof fn lemma_filter_scaled(b: BackendView, p: Preset, filter: Seq<char>)
    requires
        filter == (if b is Vaapi {
            "format=nv12,hwupload"@
        } else {
            "format=nv12"@
        }) + ((if b is Vaapi {
            ",scale_vaapi="@
        } else {
            ",scale="@
        }) + text::decimal(p.width as nat) + ":"@ + text::decimal(p.height as nat)),
    ensures
        filter == (if b is Vaapi {
            "format=nv12,hwupload,scale_vaapi="@
        } else {
            "format=nv12,scale="@
        }) + text::decimal(p.width as nat) + ":"@ + text::decimal(p.height as nat),
        scaled_to(last_step(filter)) == Some(
            text::decimal(p.width as nat) + ":"@ + text::decimal(p.height as nat),
        ),
{
    let w = text::decimal(p.width as nat);
    let h = text::decimal(p.height as nat);
    let size = w + ":"@ + h;
    assert forall|i: int| 0 <= i < size.len() implies #[trigger] size[i] != ',' by {
        reveal_strlit(":");
        text::decimals_stand_for_their_number(p.width as nat);
        text::decimals_stand_for_their_number(p.height as nat);
    }
    reveal_strlit(",");
    reveal_strlit("scale=");
    if b is Vaapi {
        reveal_strlit("scale_vaapi=");
        let step = "scale_vaapi="@ + size;
        assert(filter =~= "format=nv12,hwupload,scale_vaapi="@ + w + ":"@ + h) by {
            reveal_strlit("format=nv12,hwupload");
            reveal_strlit("format=nv12,hwupload,scale_vaapi=");
            reveal_strlit(",scale_vaapi=");
            assert("format=nv12,hwupload"@ + ",scale_vaapi="@ =~= "format=nv12,hwupload,scale_vaapi="@);
            assert(filter =~= ("format=nv12,hwupload"@ + ",scale_vaapi="@) + w + ":"@ + h);
        }
        assert(filter =~= "format=nv12,hwupload"@ + ","@ + step) by {
            reveal_strlit(",scale_vaapi=");
            assert(",scale_vaapi="@ =~= ","@ + "scale_vaapi="@);
        }
        assert forall|i: int| 0 <= i < step.len() implies #[trigger] step[i] != ',' by {
            if i >= 12 {
                assert(step[i] == size[i - 12]);
            }
        }
        lemma_last_step("format=nv12,hwupload"@, step);
        assert(step.take(6)[5] == '_');
        assert("scale="@[5] == '=');
        assert(step.take(12) =~= "scale_vaapi="@);
        assert(step.skip(12) =~= size);
    } else {
        let step = "scale="@ + size;
        assert(filter =~= "format=nv12,scale="@ + w + ":"@ + h) by {
            reveal_strlit("format=nv12");
            reveal_strlit("format=nv12,scale=");
            reveal_strlit(",scale=");
            assert("format=nv12"@ + ",scale="@ =~= "format=nv12,scale="@);
            assert(filter =~= ("format=nv12"@ + ",scale="@) + w + ":"@ + h);
        }
        assert(filter =~= "format=nv12"@ + ","@ + step) by {
            reveal_strlit(",scale=");
            assert(",scale="@ =~= ","@ + "scale="@);
        }
        assert forall|i: int| 0 <= i < step.len() implies #[trigger] step[i] != ',' by {
            if i >= 6 {
                assert(step[i] == size[i - 6]);
            }
        }
        lemma_last_step("format=nv12"@, step);
        assert(step.take(6) =~= "scale="@);
        assert(step.skip(6) =~= size);
    }
}

/// The pictures that come out of the filter have the size of the preset, whatever size goes in. They
/// are scaled only where they need to be, and on the GPU where they are uploaded to it.
pub proof fn pictures_come_out_in_the_presets_size(
    b: BackendView,
    async_depth: u32,
    p: Preset,
    src_width: u32,
    src_height: u32,
) -> (filter: Seq<char>)
    ensures
        told(encoder_args(b, async_depth, p, src_width, src_height), "-vf"@, filter),
        output_size(filter, src_width, src_height) == text::decimal(p.width as nat) + ":"@
            + text::decimal(p.height as nat),
        p.width == src_width && p.height == src_height ==> filter == (if b is Vaapi {
            "format=nv12,hwupload"@
        } else {
            "format=nv12"@
        }),
        !(p.width == src_width && p.height == src_height) ==> filter == (if b is Vaapi {
            "format=nv12,hwupload,scale_vaapi="@
        } else {
            "format=nv12,scale="@
        }) + text::decimal(p.width as nat) + ":"@ + text::decimal(p.height as nat),
{
    let filter = filter_text(b, p, src_width, src_height);
    let args = encoder_args(b, async_depth, p, src_width, src_height);
    let k: int = if b is Vaapi {
        2
    } else {
        0
    };
    assert(args[k + 14] == "-vf"@ && args[k + 15] == filter);
    lemma_told(args, k + 14);
    if p.width == src_width && p.height == src_height {
        lemma_filter_as_is(b, filter);
    } else {
        lemma_filter_scaled(b, p, filter);
    }
    filter
}

/// What the encoder is told of what it reads and writes: raw pictures of the source's size and the
/// preset's rate on its input, and on its output the stream of the codec that the backend stands for,
/// with a keyframe after each `gop` pictures and none that refers to a later one.
pub proof fn the_encoder_is_told_what_it_reads_and_writes(
    b: BackendView,
    async_depth: u32,
    p: Preset,
    src_width: u32,
    src_height: u32,
)
    ensures
        ({
            let a = encoder_args(b, async_depth, p, src_width, src_height);
            &&& told(a, "-f"@, "rawvideo"@)
            &&& told(a, "-pix_fmt"@, "bgra"@)
            &&& told(
                a,
                "-s"@,
                text::decimal(src_width as nat) + "x"@ + text::decimal(src_height as nat),
            )
            &&& told(a, "-r"@, text::decimal(p.fps as nat))
            &&& told(a, "-i"@, "pipe:0"@)
            &&& told(a, "-g"@, text::decimal(p.gop as nat))
            &&& told(a, "-bf"@, "0"@)
            &&& b is Vaapi ==> told(a, "-c:v"@, "h264_vaapi"@)
            &&& b is Nvenc ==> told(a, "-c:v"@, "h264_nvenc"@)
            &&& b is Amf ==> told(a, "-c:v"@, "h264_amf"@)
            &&& b is Qsv ==> told(a, "-c:v"@, "h264_qsv"@)
            &&& b is Software ==> told(a, "-c:v"@, "libx264"@)
            &&& a.subrange(a.len() - 3, a.len() as int) == seq!["-f"@, "h264"@, "pipe:1"@]
            &&& a.take(4) == seq!["-y"@, "-hide_banner"@, "-loglevel"@, "error"@]
        }),
{
    let a = encoder_args(b, async_depth, p, src_width, src_height);
    let k: int = if b is Vaapi {
        2
    } else {
        0
    };
    let j: int = if b is Vaapi || b is Software {
        k + 2
    } else {
        k
    };
    lemma_told(a, k + 4);
    lemma_told(a, k + 6);
    lemma_told(a, k + 8);
    lemma_told(a, k + 10);
    lemma_told(a, k + 12);
    lemma_told(a, k + 16);
    lemma_told(a, j + 24);
    lemma_told(a, j + 26);
    assert(a[k + 16] == "-c:v"@);
    assert(a[j + 24] == "-bf"@ && a[j + 25] == "0"@);
    assert(a[j + 26] == "-g"@);
}

/// The rates that the encoder is told: the preset's is never exceeded, half of it is aimed at, and a
/// tenth of a second of it may be ahead. None of them is ever nothing, where the preset's is not.
pub proof fn the_encoder_is_told_its_rates(
    b: BackendView,
    async_depth: u32,
    p: Preset,
    src_width: u32,
    src_height: u32,
) -> (rates: (nat, nat))
    ensures
        ({
            let a = encoder_args(b, async_depth, p, src_width, src_height);
            let (target, ahead) = rates;
            &&& told(a, "-maxrate"@, text::decimal(p.maxrate_kbps as nat) + "k"@)
            &&& told(a, "-b:v"@, text::decimal(target) + "k"@)
            &&& told(a, "-bufsize"@, text::decimal(ahead) + "k"@)
            &&& target >= 1 && ahead >= 1
            &&& p.maxrate_kbps >= 2 ==> 2 * target == p.maxrate_kbps || 2 * target + 1
                == p.maxrate_kbps
            &&& p.maxrate_kbps < 2 ==> target == 1
            &&& p.maxrate_kbps >= 10 ==> 10 * ahead <= p.maxrate_kbps < 10 * (ahead + 1)
            &&& p.maxrate_kbps < 10 ==> ahead == 1
        }),
{
    let a = encoder_args(b, async_depth, p, src_width, src_height);
    let k: int = if b is Vaapi {
        4
    } else if b is Software {
        2
    } else {
        0
    };
    assert(a[k + 18] == "-b:v"@);
    assert(a[k + 20] == "-maxrate"@);
    assert(a[k + 22] == "-bufsize"@);
    lemma_told(a, k + 18);
    lemma_told(a, k + 20);
    lemma_told(a, k + 22);
    (at_least_one(p.maxrate_kbps / 2) as nat, at_least_one(p.maxrate_kbps / 10) as nat)
}

/// What only some encoders are told: the one on a render node is told the node, how to keep to the
/// rate and how many frames it may hold back; the one in software, to be quick.
pub proof fn some_encoders_are_told_more(
    b: BackendView,
    async_depth: u32,
    p: Preset,
    src_width: u32,
    src_height: u32,
)
    ensures
        ({
            let a = encoder_args(b, async_depth, p, src_width, src_height);
            &&& (b matches BackendView::Vaapi { render_node } ==> told(
                a,
                "-init_hw_device"@,
                "vaapi=va:"@ + render_node,
            ) && told(a, "-rc_mode"@, "VBR"@) && told(
                a,
                "-async_depth"@,
                text::decimal(async_depth as nat),
            ) && a.len() == 37)
            &&& b is Software ==> told(a, "-preset"@, "ultrafast"@) && a.len() == 33
            &&& b !is Vaapi && b !is Software ==> a.len() == 31
        }),
{
    let a = encoder_args(b, async_depth, p, src_width, src_height);
    if b is Vaapi {
        assert(a[4] == "-init_hw_device"@);
        assert(a[20] == "-rc_mode"@ && a[21] == "VBR"@);
        assert(a[32] == "-async_depth"@);
        lemma_told(a, 4);
        lemma_told(a, 20);
        lemma_told(a, 32);
    } else if b is Software {
        assert(a[18] == "-preset"@ && a[19] == "ultrafast"@);
        lemma_told(a, 18);
    }
}

/// A file is encoded on the configured render node, with the configured codec, rate and quality, from
/// the one file into the other.
pub proof fn a_file_is_encoded_as_configured(
    cfg: HostConfig,
    raw: Seq<char>,
    out: Seq<char>,
    width: usize,
    height: usize,
)
    ensures
        ({
            let a = file_args(cfg, raw, out, width, height);
            &&& told(a, "-init_hw_device"@, "vaapi=va:"@ + cfg.gpu.vaapi_render_node@)
            &&& told(a, "-f"@, "rawvideo"@)
            &&& told(a, "-pix_fmt"@, "bgra"@)
            &&& told(a, "-s"@, text::decimal(width as nat) + "x"@ + text::decimal(height as nat))
            &&& told(a, "-r"@, text::decimal(cfg.encode.fps as nat))
            &&& told(a, "-i"@, raw)
            &&& told(a, "-vf"@, "format=nv12,hwupload"@)
            &&& told(a, "-c:v"@, cfg.encode.codec@)
            &&& told(a, "-qp"@, text::decimal(cfg.encode.qp as nat))
            &&& a.len() == 25
            &&& a.subrange(22, 25) == seq!["-f"@, "h264"@, out]
            &&& a.take(4) == seq!["-y"@, "-hide_banner"@, "-loglevel"@, "warning"@]
        }),
{
    let a = file_args(cfg, raw, out, width, height);
    lemma_told(a, 4);
    lemma_told(a, 6);
    lemma_told(a, 8);
    lemma_told(a, 10);
    lemma_told(a, 12);
    lemma_told(a, 14);
    lemma_told(a, 16);
    lemma_told(a, 18);
    lemma_told(a, 20);
}

/// Up to eight timestamps wait, in the order in which they came; the ninth finds the queue out of step
/// and starts it anew. A pop takes the oldest, and gives 0 where nothing waits.
pub proof fn eight_timestamps_wait(q: Seq<u64>, us: u64)
    ensures
        q.len() < 8 ==> pushed(q, us) == q + seq![us],
        q.len() >= 8 ==> pushed(q, us) == seq![us],
        popped(seq![us] + q) == us,
        after_pop(seq![us] + q) == q,
        popped(Seq::empty()) == 0,
        after_pop(Seq::empty()) == Seq::<u64>::empty(),
{
    assert(after_pop(seq![us] + q) =~= q);
    assert(q.push(us) =~= q + seq![us]);
}

/// Each unit that the encoder gives out keeps its bytes and its kind, and gets the timestamp that waits
/// in its place; where fewer wait than there are units, the rest have none. What is left waits on.
pub proof fn units_get_the_timestamps_in_order(units: Seq<(bool, Seq<u8>)>, q: Seq<u64>, i: int)
    requires
        0 <= i < units.len(),
    ensures
        stamped(units, q).len() == units.len(),
        stamped(units, q)[i].keyframe == units[i].0,
        stamped(units, q)[i].data == units[i].1,
        i < q.len() ==> stamped(units, q)[i].capture_us == q[i],
        i >= q.len() ==> stamped(units, q)[i].capture_us == 0,
        units.len() <= q.len() ==> after_pops(q, units.len()) == q.skip(units.len() as int),
        units.len() > q.len() ==> after_pops(q, units.len()) == Seq::<u64>::empty(),
    decreases units.len(),
{
    let rest = units.skip(1);
    let left = after_pop(q);
    if units.len() == 1 {
        assert(stamped(rest, left).len() == 0);
        assert(after_pops(left, 0) == left);
        assert(after_pops(q, 1) == left) by {
            reveal_with_fuel(after_pops, 2);
        }
        if q.len() > 0 {
        } else {
            assert(q =~= Seq::<u64>::empty());
        }
    } else {
        units_get_the_timestamps_in_order(rest, left, if i > 0 {
            i - 1
        } else {
            0
        });
        assert(after_pops(q, units.len()) == after_pops(left, rest.len()));
        if q.len() > 0 {
            if units.len() <= q.len() {
                assert(left.skip(rest.len() as int) =~= q.skip(units.len() as int));
            }
        } else {
            assert(q =~= Seq::<u64>::empty());
        }
    }
}

/// The newest unit is the one that is taken, whatever waited before, and it is taken once; a unit that
/// was thrown away is not, and one that is not there is waited for once.
pub proof fn the_newest_unit_is_taken(
    slot: &mut LatestEncoded,
    unit: EncodedUnit,
    later: &mut LatestEncoded,
    cleared: &mut LatestEncoded,
    empty: &mut LatestEncoded,
    waited: bool,
    taken: Take<EncodedUnit>,
    nothing: Take<EncodedUnit>,
)
    requires
        call_ensures(LatestEncoded::publish, (slot, unit), ()),
        old(later)@ == final(slot)@,
        call_ensures(LatestEncoded::take_latest_timeout, (later, waited), taken),
        call_ensures(LatestEncoded::clear, (cleared,), ()),
        old(empty)@ == final(cleared)@,
        call_ensures(LatestEncoded::take_latest_timeout, (empty, waited), nothing),
    ensures
        taken == Take::Got(unit),
        final(later)@ is None,
        waited ==> nothing is Nothing,
        !waited ==> nothing is Wait,
{
}

/// The first frame is fed only where it is in the format that the encoder was started for, and a frame
/// that is not fed leaves no timestamp; every later one is fed. Each that is fed leaves its timestamp.
pub proof fn only_the_first_frame_can_be_refused(
    feeder: &mut Feeder,
    frame: &Frame,
    timestamps: &mut TimestampFifo,
    res: Feed,
)
    requires
        call_ensures(Feeder::feed, (feeder, frame, timestamps), res),
    ensures
        final(feeder)@,
        res == Feed::Refuse <==> !old(feeder)@ && frame.format is Other,
        res == Feed::Refuse ==> final(timestamps)@ == old(timestamps)@,
        res matches Feed::Write { first } ==> first == !old(feeder)@ && final(timestamps)@.len() > 0
            && final(timestamps)@.last() == frame.capture_us,
{
    if frame.format != PixelFormat::Bgra {
        assert(frame.format is Other);
    }
}

/// The queue is reset where eight timestamps already wait, and that is told.
pub proof fn a_reset_is_told(q: &mut TimestampFifo, us: u64, reset: bool)
    requires
        call_ensures(TimestampFifo::push, (q, us), reset),
    ensures
        reset <==> old(q)@.len() >= 8,
        reset ==> final(q)@ == seq![us],
        !reset ==> final(q)@ == old(q)@ + seq![us],
{
    assert(old(q)@.push(us) =~= old(q)@ + seq![us]);
}

/// A file is encoded where a size was negotiated in both directions.
pub proof fn a_file_is_encoded_where_it_has_a_size(
    cfg: &HostConfig,
    raw_path: &str,
    out_path: &str,
    width: usize,
    height: usize,
    res: Option<Vec<String>>,
)
    requires
        call_ensures(encode_with_vaapi, (cfg, raw_path, out_path, width, height), res),
    ensures
        res is Some <==> width > 0 && height > 0,
        res matches Some(args) ==> text::views(args@) == file_args(
            *cfg,
            raw_path@,
            out_path@,
            width,
            height,
        ),
{
}

/// The encoder that is started scales to the size of the preset, with the depth that is configured.
pub proof fn the_encoder_is_started_for_the_preset(
    cfg: &HostConfig,
    chosen: &EncodeBackend,
    preset: &Preset,
    src_width: u32,
    src_height: u32,
    args: Vec<String>,
) -> (filter: Seq<char>)
    requires
        call_ensures(spawn_args, (cfg, chosen, preset, src_width, src_height), args),
    ensures
        told(text::views(args@), "-vf"@, filter),
        output_size(filter, src_width, src_height) == text::decimal(preset.width as nat) + ":"@
            + text::decimal(preset.height as nat),
        chosen is Vaapi ==> told(
            text::views(args@),
            "-async_depth"@,
            text::decimal(cfg.encode.async_depth as nat),
        ),
{
    some_encoders_are_told_more(
        chosen@,
        cfg.encode.async_depth,
        *preset,
        src_width,
        src_height,
    );
    pictures_come_out_in_the_presets_size(
        chosen@,
        cfg.encode.async_depth,
        *preset,
        src_width,
        src_height,
    )
}

/// The view of a unit has its fields.
pub proof fn a_unit_is_seen_as_it_is(u: EncodedUnit)
    ensures
        u@ == (UnitView { keyframe: u.keyframe, capture_us: u.capture_us, data: u.data@ }),
{
}

/// Each unit that a chunk completes comes out in its order, with its bytes, its kind and the timestamp
/// that waits for it.
pub proof fn units_come_out_with_their_timestamps(
    splitter: &mut AnnexBSplitter,
    timestamps: &mut TimestampFifo,
    chunk: &[u8],
    out: Vec<EncodedUnit>,
    i: int,
)
    requires
        call_ensures(run_reader, (splitter, timestamps, chunk), out),
        0 <= i < annexb::split(old(splitter)@ + chunk@).0.len(),
    ensures
        ({
            let units = annexb::split(old(splitter)@ + chunk@).0;
            let q = old(timestamps)@;
            &&& out@.len() == units.len()
            &&& out@[i].keyframe == units[i].0
            &&& out@[i].data@ == units[i].1
            &&& out@[i].capture_us == (if i < q.len() {
                q[i]
            } else {
                0
            })
        }),
{
    let units = annexb::split(old(splitter)@ + chunk@).0;
    units_get_the_timestamps_in_order(units, old(timestamps)@, i);
    let views = unit_views(out@);
    assert(views.len() == out@.len());
    assert(views[i] == out@[i]@);
}

} // verus!
