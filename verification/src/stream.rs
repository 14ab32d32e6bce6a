//! How the encoder, the mailbox for its pictures, the queue of messages and the side that writes
//! work together.
//!
//! Encoders are numbered as they are started. Their pictures and the announcements of their formats
//! carry that number here, so that it can be said which picture follows which announcement.
use vstd::prelude::*;

use crate::encode::EncodedUnit;
use crate::session;
use crate::session::{Outgoing, WriterEvent, WriterPhase};

verus! {

/// Where a stream stands.
#[verifier::ext_equal]
pub struct Stream {
    /// How far the side that writes has come.
    pub phase: WriterPhase,
    /// Whether there is an encoder.
    pub running: bool,
    /// The number of the newest encoder.
    pub newest: nat,
    /// The picture in the mailbox, with the number of its encoder.
    pub waiting: Option<(nat, EncodedUnit)>,
    /// What waits to be sent, with the number of the encoder that was the newest at the time.
    pub queue: Seq<(nat, Outgoing)>,
    /// The number of the encoder whose format was announced last.
    pub announced: nat,
}

/// What may happen to a stream.
pub enum StreamStep {
    StartEncoder,
    /// The encoder has ended, and hands out nothing more.
    StopEncoder,
    /// The encoder hands out a picture.
    Publish(EncodedUnit),
    /// A message is queued.
    Enqueue(Outgoing),
    /// The side that writes looks whether it is to stop.
    Look(bool),
    /// It takes the next message, at a time.
    TakeItem(u64),
    /// It takes the picture that is there.
    TakePicture,
    /// What it sent has been sent, or has not.
    Sent(bool),
}

/// A stream at its beginning, without an encoder.
pub open spec fn fresh() -> Stream {
    Stream {
        phase: WriterPhase::Top,
        running: false,
        newest: 0,
        waiting: None,
        queue: Seq::empty(),
        announced: 0,
    }
}

/// What the side that writes takes off the queue next.
pub open spec fn front(s: Stream) -> Option<Outgoing> {
    if s.queue.len() > 0 {
        Some(s.queue[0].1)
    } else {
        None
    }
}

/// The picture that the side that writes finds.
pub open spec fn picture(s: Stream) -> Option<EncodedUnit> {
    match s.waiting {
        Some((_, unit)) => Some(unit),
        None => None,
    }
}

/// The stream after a step; nothing where the step cannot happen. An encoder is started only where
/// there is none, and only one that runs is stopped, hands out pictures or is announced. The side
/// that writes takes what it has asked for.
pub open spec fn step(s: Stream, e: StreamStep) -> Option<Stream> {
    match e {
        StreamStep::StartEncoder => if s.running {
            None
        } else {
            Some(Stream { running: true, newest: s.newest + 1, ..s })
        },
        StreamStep::StopEncoder => if s.running {
            Some(Stream { running: false, ..s })
        } else {
            None
        },
        StreamStep::Publish(unit) => if s.running {
            Some(Stream { waiting: Some((s.newest, unit)), ..s })
        } else {
            None
        },
        StreamStep::Enqueue(item) => if item is Reconfigure && !s.running {
            None
        } else {
            Some(Stream { queue: s.queue.push((s.newest, item)), ..s })
        },
        StreamStep::Look(stopped) => Some(
            Stream { phase: session::writing(s.phase, WriterEvent::Stopped(stopped)).0, ..s },
        ),
        StreamStep::TakeItem(now_us) => {
            let event = WriterEvent::Next { item: front(s), now_us };
            if s.phase != WriterPhase::Draining {
                None
            } else {
                Some(
                    Stream {
                        phase: session::writing(s.phase, event).0,
                        queue: if s.queue.len() > 0 {
                            s.queue.skip(1)
                        } else {
                            s.queue
                        },
                        waiting: if session::announces(s.phase, event) {
                            None
                        } else {
                            s.waiting
                        },
                        announced: if session::announces(s.phase, event) {
                            s.queue[0].0
                        } else {
                            s.announced
                        },
                        ..s
                    },
                )
            }
        },
        StreamStep::TakePicture => if s.phase != WriterPhase::AwaitingPicture {
            None
        } else {
            Some(
                Stream {
                    phase: session::writing(s.phase, WriterEvent::Picture(picture(s))).0,
                    waiting: None,
                    ..s
                },
            )
        },
        StreamStep::Sent(ok) => Some(
            Stream { phase: session::writing(s.phase, WriterEvent::Sent(ok)).0, ..s },
        ),
    }
}

/// The stream after some steps; nothing where one of them cannot happen.
pub open spec fn after_steps(s: Stream, steps: Seq<StreamStep>) -> Option<Stream>
    decreases steps.len(),
{
    if steps.len() == 0 {
        Some(s)
    } else {
        match step(s, steps[0]) {
            Some(t) => after_steps(t, steps.skip(1)),
            None => None,
        }
    }
}

/// What holds of every stream: no announcement is of an encoder that was not started yet, and the
/// picture in the mailbox is not older than the format that was announced last.
pub open spec fn in_order(s: Stream) -> bool {
    &&& s.announced <= s.newest
    &&& forall|i: int| 0 <= i < s.queue.len() ==> (#[trigger] s.queue[i]).0 <= s.newest
    &&& s.waiting matches Some((n, _)) ==> s.announced <= n <= s.newest
}

/// Every step keeps that.
proof fn lemma_step_keeps_order(s: Stream, e: StreamStep)
    requires
        in_order(s),
        step(s, e) is Some,
    ensures
        in_order(step(s, e).unwrap()),
{
    let t = step(s, e).unwrap();
    assert forall|i: int| 0 <= i < t.queue.len() implies (#[trigger] t.queue[i]).0 <= t.newest by {
        if e is TakeItem && s.queue.len() > 0 {
            assert(t.queue[i] == s.queue[i + 1]);
        } else if i < s.queue.len() {
            assert(t.queue[i] == s.queue[i]);
        }
    }
}

proof fn lemma_steps_keep_order(s: Stream, steps: Seq<StreamStep>)
    requires
        in_order(s),
        after_steps(s, steps) is Some,
    ensures
        in_order(after_steps(s, steps).unwrap()),
    decreases steps.len(),
{
    if steps.len() > 0 {
        lemma_step_keeps_order(s, steps[0]);
        lemma_steps_keep_order(step(s, steps[0]).unwrap(), steps.skip(1));
    }
}

/// Whatever happens in which order, no picture of an old format follows the announcement of a new
/// one: a picture that the side that writes takes comes from the encoder that was announced last, or
/// from a newer one.
pub proof fn no_old_picture_follows_a_new_format(steps: Seq<StreamStep>)
    requires
        after_steps(fresh(), steps) is Some,
    ensures
        ({
            let s = after_steps(fresh(), steps).unwrap();
            s.waiting matches Some((n, _)) ==> n >= s.announced
        }),
{
    lemma_steps_keep_order(fresh(), steps);
}

/// Nothing queues up behind the encoder: a picture takes the place of one that was not sent, and
/// the announcement of a format leaves none waiting.
pub proof fn pictures_never_queue(s: Stream, unit: EncodedUnit, now_us: u64)
    requires
        s.running,
    ensures
        picture(step(s, StreamStep::Publish(unit)).unwrap()) == Some(unit),
        s.phase == WriterPhase::Draining && (front(s) matches Some(Outgoing::Reconfigure(_)))
            ==> picture(step(s, StreamStep::TakeItem(now_us)).unwrap()) is None,
{
}

} // verus!
