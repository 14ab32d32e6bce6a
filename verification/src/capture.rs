//! Captured frames, and the mailbox that holds the newest of them.
use vstd::prelude::*;

verus! {

/// The pixel layout of a frame. The encoder is fed only the first; the other names what was
/// negotiated instead.
#[derive(Debug, Clone, PartialEq, Eq)]
pub enum PixelFormat {
    Bgra,
    Other(String),
}

pub struct Frame {
    pub width: u32,
    pub height: u32,
    pub format: PixelFormat,
    /// Rows one behind the other, without padding.
    pub bytes: Vec<u8>,
    /// When the frame was captured, on the host's clock.
    pub capture_us: u64,
}

/// What looking into a mailbox gives.
pub enum Take<T> {
    /// What was in it.
    Got(T),
    /// There is nothing, and nothing more is to be waited for.
    Nothing,
    /// There is nothing yet.
    Wait,
}

/// A mailbox for one frame: a new one takes the place of one that was not taken.
///
/// The view is the frame in it.
pub struct FrameSlot {
    inner: Option<Frame>,
}

impl View for FrameSlot {
    type V = Option<Frame>;

    closed spec fn view(&self) -> Option<Frame> {
        self.inner
    }
}

impl FrameSlot {
    pub fn new() -> (res: Self)
        ensures
            res@ is None,
    {
        FrameSlot { inner: None }
    }

    pub fn publish(&mut self, frame: Frame)
        ensures
            final(self)@ == Some(frame),
    {
        self.inner = Some(frame);
    }

    /// One look of someone who waits for a frame until told to stop. A frame that is there is handed
    /// out even then.
    pub fn take_latest_blocking(&mut self, stop: bool) -> (res: Take<Frame>)
        ensures
            final(self)@ is None,
            match old(self)@ {
                Some(f) => res == Take::Got(f),
                None => res == (if stop {
                    Take::<Frame>::Nothing
                } else {
                    Take::Wait
                }),
            },
    {
        match self.inner.take() {
            Some(f) => Take::Got(f),
            None => if stop {
                Take::Nothing
            } else {
                Take::Wait
            },
        }
    }
}

// ---- laws ----

/// The newest frame is the one that is taken, whatever was in the mailbox before; it is taken once,
/// even by someone who is told to stop.
pub proof fn the_newest_frame_is_taken(
    slot: &mut FrameSlot,
    frame: Frame,
    later: &mut FrameSlot,
    stop: bool,
    res: Take<Frame>,
)
    requires
        call_ensures(FrameSlot::publish, (slot, frame), ()),
        old(later)@ == final(slot)@,
        call_ensures(FrameSlot::take_latest_blocking, (later, stop), res),
    ensures
        res == Take::Got(frame),
        final(later)@ is None,
{
}

/// Where there is no frame, one is waited for until the word to stop.
pub proof fn a_frame_is_waited_for(slot: &mut FrameSlot, stop: bool, res: Take<Frame>)
    requires
        old(slot)@ is None,
        call_ensures(FrameSlot::take_latest_blocking, (slot, stop), res),
    ensures
        stop ==> res is Nothing,
        !stop ==> res is Wait,
        final(slot)@ is None,
{
}

} // verus!
