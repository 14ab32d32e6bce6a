//! Recording captured frames: a run of them for a trial encode, and the first of them for a look.
use vstd::prelude::*;

use crate::pixels;

verus! {

/// How many frames a trial encode takes.
pub const TARGET_FRAMES: u32 = 60;

/// How many frames a look takes.
pub const SNAPSHOT_FRAMES: u32 = 30;

// ---- a run of frames ----

/// What became of a captured buffer.
#[derive(Debug, PartialEq, Eq)]
pub enum Recorded {
    /// There is nothing to be recorded in it.
    Skipped,
    /// Its rows are to be written. `report` tells whether the count is to be shown, `done` whether
    /// the run is over.
    Frame { rows: Vec<u8>, report: bool, done: bool },
}

/// How far a run has come: the size that was negotiated, once it was, and the number of frames.
#[verifier::ext_equal]
pub struct RecorderView {
    pub size: Option<(usize, usize)>,
    pub frames: nat,
}

/// The pixels of a buffer, without padding; nothing where the size is not known yet, where there are
/// no pixels, and where the buffer does not hold all rows.
pub open spec fn rows_in(size: Option<(usize, usize)>, b: Seq<u8>, stride: nat) -> Option<Seq<u8>> {
    match size {
        Some((width, height)) => if width == 0 || height == 0 || b.len() < stride * height {
            None
        } else {
            Some(pixels::packed(b, width as nat, stride, height as int))
        },
        None => None,
    }
}

/// Whether a buffer that is long enough for its rows holds the pixels of each of them.
pub open spec fn buffer_fits(size: Option<(usize, usize)>, b: Seq<u8>, stride: nat) -> bool {
    match size {
        Some((width, height)) => {
            &&& stride * height <= usize::MAX
            &&& width * 4 <= usize::MAX
            &&& width > 0 && height > 0 && stride * height <= b.len() ==> pixels::rows_fit(
                b,
                width as nat,
                stride,
                height as nat,
            )
        },
        None => true,
    }
}

/// Records the frames of one run.
pub struct Recorder {
    size: Option<(usize, usize)>,
    frames: u32,
}

impl View for Recorder {
    type V = RecorderView;

    closed spec fn view(&self) -> RecorderView {
        RecorderView { size: self.size, frames: self.frames as nat }
    }
}

impl Recorder {
    pub fn new() -> (res: Self)
        ensures
            res@ == (RecorderView { size: None, frames: 0 }),
    {
        Recorder { size: None, frames: 0 }
    }

    /// The size of the frames has been negotiated, for the first time or anew.
    pub fn negotiated(&mut self, width: usize, height: usize)
        ensures
            final(self)@ == (RecorderView { size: Some((width, height)), ..old(self)@ }),
    {
        self.size = Some((width, height));
    }

    /// The size that was negotiated.
    pub fn size(&self) -> (res: Option<(usize, usize)>)
        ensures
            res == self@.size,
    {
        self.size
    }

    /// How many frames have been recorded.
    pub fn frames(&self) -> (res: u32)
        ensures
            res == self@.frames,
    {
        self.frames
    }

    /// Takes a captured buffer with `stride` bytes from row to row. The count is shown for every
    /// fifteenth frame and for the one that completes the run.
    pub fn frame(&mut self, bytes: &[u8], stride: usize) -> (res: Recorded)
        requires
            buffer_fits(old(self)@.size, bytes@, stride as nat),
            old(self)@.frames < u32::MAX,
        ensures
            match rows_in(old(self)@.size, bytes@, stride as nat) {
                Some(p) => {
                    let n = old(self)@.frames + 1;
                    &&& final(self)@ == (RecorderView { frames: n as nat, ..old(self)@ })
                    &&& res matches Recorded::Frame { rows, report, done }
                    &&& rows@ == p
                    &&& report == (n % 15 == 0 || n == TARGET_FRAMES)
                    &&& done == (n >= TARGET_FRAMES)
                },
                None => final(self)@ == old(self)@ && res is Skipped,
            },
    {
        let (width, height) = match self.size {
            None => {
                return Recorded::Skipped;
            },
            Some(size) => size,
        };
        match pixels::pack_rows(bytes, width, height, stride) {
            None => Recorded::Skipped,
            Some(rows) => {
                self.frames = self.frames + 1;
                Recorded::Frame {
                    rows,
                    report: self.frames % 15 == 0 || self.frames == TARGET_FRAMES,
                    done: self.frames >= TARGET_FRAMES,
                }
            },
        }
    }
}

// ---- the first frame ----

/// What is to be done with a captured frame.
#[derive(Debug, Clone, Copy, PartialEq, Eq, Structural)]
pub struct SnapshotStep {
    /// The number of the frame, from 1 on.
    pub number: u32,
    /// Whether a picture of it is to be saved.
    pub save: bool,
    /// Whether enough frames have been seen.
    pub done: bool,
}

/// How many frames have been seen, and whether a picture of one was saved.
#[verifier::ext_equal]
pub struct SnapshotView {
    pub seen: nat,
    pub saved: bool,
}

/// Looks at frames until one could be saved as a picture, and counts them.
pub struct Snapshot {
    seen: u32,
    saved: bool,
}

impl View for Snapshot {
    type V = SnapshotView;

    closed spec fn view(&self) -> SnapshotView {
        SnapshotView { seen: self.seen as nat, saved: self.saved }
    }
}

impl Snapshot {
    pub fn new() -> (res: Self)
        ensures
            res@ == (SnapshotView { seen: 0, saved: false }),
    {
        Snapshot { seen: 0, saved: false }
    }

    /// Takes a frame; `readable` tells whether its format and its bytes are known. A picture is to
    /// be saved of every readable frame until one was.
    pub fn frame(&mut self, readable: bool) -> (res: SnapshotStep)
        requires
            old(self)@.seen < u32::MAX,
        ensures
            final(self)@ == (SnapshotView { seen: old(self)@.seen + 1, ..old(self)@ }),
            res == (SnapshotStep {
                number: (old(self)@.seen + 1) as u32,
                save: readable && !old(self)@.saved,
                done: old(self)@.seen + 1 >= SNAPSHOT_FRAMES,
            }),
    {
        self.seen = self.seen + 1;
        SnapshotStep {
            number: self.seen,
            save: readable && !self.saved,
            done: self.seen >= SNAPSHOT_FRAMES,
        }
    }

    /// A picture was saved.
    pub fn saved(&mut self)
        ensures
            final(self)@ == (SnapshotView { saved: true, ..old(self)@ }),
    {
        self.saved = true;
    }
}

// ---- laws ----

/// A buffer is recorded, without the padding of its rows, where the size is known, there are pixels,
/// and it is as long as its rows; sixty of them are a run, and thirty a look.
pub proof fn a_buffer_with_all_its_rows_is_recorded(
    width: usize,
    height: usize,
    b: Seq<u8>,
    stride: nat,
)
    ensures
        rows_in(None, b, stride) is None,
        width == 0 || height == 0 || b.len() < stride * height ==> rows_in(
            Some((width, height)),
            b,
            stride,
        ) is None,
        width > 0 && height > 0 && b.len() >= stride * height ==> rows_in(
            Some((width, height)),
            b,
            stride,
        ) == Some(pixels::packed(b, width as nat, stride, height as int)),
        TARGET_FRAMES == 60,
        SNAPSHOT_FRAMES == 30,
{
}

/// Each frame that can be recorded counts as one, and its rows are handed on; the count is shown at
/// each fifteenth frame, and the run is over with the sixtieth. What cannot be recorded counts for
/// nothing.
pub proof fn sixty_frames_are_a_run(
    recorder: &mut Recorder,
    bytes: &[u8],
    stride: usize,
    res: Recorded,
)
    requires
        call_ensures(Recorder::frame, (recorder, bytes, stride), res),
    ensures
        final(recorder)@.size == old(recorder)@.size,
        rows_in(old(recorder)@.size, bytes@, stride as nat) is None ==> res is Skipped
            && final(recorder)@.frames == old(recorder)@.frames,
        rows_in(old(recorder)@.size, bytes@, stride as nat) matches Some(p) ==> {
            let n = final(recorder)@.frames;
            &&& n == old(recorder)@.frames + 1
            &&& res matches Recorded::Frame { rows, report, done }
            &&& rows@ == p
            &&& report <==> n % 15 == 0
            &&& done <==> n >= 60
        },
{
}

/// A look saves the first frame that can be read, and goes on to the thirtieth; each frame has its
/// number.
pub proof fn a_look_saves_one_picture(look: &mut Snapshot, readable: bool, res: SnapshotStep)
    requires
        call_ensures(Snapshot::frame, (look, readable), res),
        old(look)@.seen < u32::MAX,
    ensures
        res.number == old(look)@.seen + 1,
        final(look)@.seen == old(look)@.seen + 1,
        final(look)@.saved == old(look)@.saved,
        res.save <==> readable && !old(look)@.saved,
        res.done <==> old(look)@.seen >= 29,
{
}

} // verus!
