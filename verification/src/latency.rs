//! Measuring how long it takes from an injected motion to a captured frame that shows it.
//!
//! The pointer is moved between two places, and the captured frames are watched for a change. A
//! pointer is small, so changed samples are counted rather than averaged over the picture.
use vstd::prelude::*;

verus! {

/// How far apart the samples are, in both directions.
pub const STEP: usize = 4;

/// How much a sample must differ to count as changed.
pub const PIXEL_DELTA: i16 = 20;

/// How many changed samples make a change.
pub const MIN_CHANGED_SAMPLES: usize = 4;

/// How many samples a length has.
pub open spec fn samples(n: nat) -> nat {
    (n + 3) / 4
}

/// The samples of a row: the first byte of every fourth pixel.
pub open spec fn row_samples(b: Seq<u8>, start: int, n: int) -> Seq<u8>
    decreases n,
{
    if n <= 0 {
        Seq::empty()
    } else {
        row_samples(b, start, n - 1).push(b[start + 16 * (n - 1)])
    }
}

/// The samples of every fourth row of a picture.
pub open spec fn thumbnail(b: Seq<u8>, width: nat, stride: nat, rows: int) -> Seq<u8>
    decreases rows,
{
    if rows <= 0 {
        Seq::empty()
    } else {
        thumbnail(b, width, stride, rows - 1) + row_samples(
            b,
            4 * (rows - 1) * stride,
            samples(width) as int,
        )
    }
}

/// Where the last sample of a picture lies.
pub open spec fn last_sample(width: nat, height: nat, stride: nat) -> int {
    4 * (samples(height) - 1) * stride + 16 * (samples(width) - 1)
}

/// A small picture of a picture: one byte of every fourth pixel of every fourth row. `None` for a
/// picture without pixels, and for a buffer that does not hold all of its rows.
pub fn downsample(bytes: &[u8], width: usize, height: usize, stride: usize) -> (res: Option<
    Vec<u8>,
>)
    requires
        stride * height <= usize::MAX,
        width > 0 && height > 0 && stride > 0 && stride * height <= bytes@.len() ==> last_sample(
            width as nat,
            height as nat,
            stride as nat,
        ) < bytes@.len(),
    ensures
        res is None <==> width == 0 || height == 0 || stride == 0 || bytes@.len() < stride * height,
        res matches Some(p) ==> p@ == thumbnail(
            bytes@,
            width as nat,
            stride as nat,
            samples(height as nat) as int,
        ),
{
    if width == 0 || height == 0 || stride == 0 || bytes.len() < stride * height {
        return None;
    }
    let ghost b = bytes@;
    let mut out: Vec<u8> = Vec::new();
    let mut y: usize = 0;
    let ghost mut r: int = 0;
    while y < height
        invariant
            b == bytes@,
            0 <= r,
            y == 4 * r || (y == height && r == samples(height as nat)),
            y <= height,
            y == height ==> r == samples(height as nat),
            width > 0,
            height > 0,
            last_sample(width as nat, height as nat, stride as nat) < bytes.len(),
            out@ == thumbnail(b, width as nat, stride as nat, r),
        decreases height - y,
    {
        proof {
            let last = 4 * (samples(height as nat) - 1);
            assert(0 <= y * stride <= last * stride) by (nonlinear_arith)
                requires
                    0 <= y <= last,
                    0 <= stride,
            ;
        }
        let row: usize = y * stride;
        let ghost before = out@;
        let mut x: usize = 0;
        let ghost mut n: int = 0;
        assert(out@ =~= before + row_samples(b, row as int, 0));
        while x < width
            invariant
                b == bytes@,
                0 <= n,
                x <= width,
                x == 4 * n || (x == width && n == samples(width as nat)),
                x == width ==> n == samples(width as nat),
                row + 16 * (samples(width as nat) - 1) < bytes.len(),
                out@ == before + row_samples(b, row as int, n),
            decreases width - x,
        {
            out.push(bytes[row + x * 4]);
            proof {
                n = n + 1;
                assert(out@ =~= before + row_samples(b, row as int, n));
            }
            x = if width - x > STEP {
                x + STEP
            } else {
                width
            };
        }
        proof {
            assert(row as int == 4 * r * stride) by (nonlinear_arith)
                requires
                    row == y * stride,
                    y == 4 * r,
            ;
            r = r + 1;
            assert(out@ == thumbnail(b, width as nat, stride as nat, r));
        }
        y = if height - y > STEP {
            y + STEP
        } else {
            height
        };
    }
    Some(out)
}

/// Whether a sample changed.
pub open spec fn sample_changed(a: u8, b: u8) -> bool {
    a - b > PIXEL_DELTA || b - a > PIXEL_DELTA
}

/// How many samples changed.
pub open spec fn changed_samples(a: Seq<u8>, b: Seq<u8>) -> nat
    recommends
        a.len() == b.len(),
    decreases a.len(),
{
    if a.len() == 0 {
        0
    } else {
        changed_samples(a.drop_last(), b.drop_last()) + (if sample_changed(a.last(), b.last()) {
            1nat
        } else {
            0nat
        })
    }
}

fn count_changed(a: &Vec<u8>, b: &Vec<u8>) -> (n: usize)
    requires
        a@.len() == b@.len(),
    ensures
        n == changed_samples(a@, b@),
{
    let mut n: usize = 0;
    let mut i: usize = 0;
    while i < a.len()
        invariant
            i <= a.len() == b.len(),
            n <= i,
            n == changed_samples(a@.take(i as int), b@.take(i as int)),
        decreases a.len() - i,
    {
        assert(a@.take(i + 1).drop_last() =~= a@.take(i as int));
        assert(b@.take(i + 1).drop_last() =~= b@.take(i as int));
        let d: i16 = a[i] as i16 - b[i] as i16;
        if d > PIXEL_DELTA || d < -PIXEL_DELTA {
            n = n + 1;
        }
        i = i + 1;
    }
    assert(a@.take(i as int) =~= a@);
    assert(b@.take(i as int) =~= b@);
    n
}

/// Looks for a change between one small picture and the next.
///
/// The view is the last small picture.
pub struct ChangeDetector {
    prev: Vec<u8>,
}

impl View for ChangeDetector {
    type V = Seq<u8>;

    closed spec fn view(&self) -> Seq<u8> {
        self.prev@
    }
}

impl ChangeDetector {
    pub fn new() -> (res: Self)
        ensures
            res@ == Seq::<u8>::empty(),
    {
        ChangeDetector { prev: Vec::new() }
    }

    /// Takes the next small picture, which arrived at a time in nanoseconds. Where something is
    /// waited for since an earlier time, and the picture changed, gives the microseconds in between.
    pub fn observe(&mut self, small: Vec<u8>, arrived: i64, waiting_since: Option<i64>) -> (res: Option<
        u64,
    >)
        requires
            0 <= arrived,
            waiting_since matches Some(t) ==> 0 <= t,
        ensures
            final(self)@ == small@,
            match waiting_since {
                Some(t) => if old(self)@.len() == small@.len() && changed_samples(
                    old(self)@,
                    small@,
                ) >= MIN_CHANGED_SAMPLES {
                    res == Some(
                        if arrived >= t {
                            ((arrived - t) / 1000) as u64
                        } else {
                            0
                        },
                    )
                } else {
                    res is None
                },
                None => res is None,
            },
    {
        let mut res: Option<u64> = None;
        if let Some(t) = waiting_since {
            if self.prev.len() == small.len() && count_changed(&self.prev, &small)
                >= MIN_CHANGED_SAMPLES {
                let us: u64 = if arrived >= t {
                    (arrived - t) as u64 / 1000
                } else {
                    0
                };
                res = Some(us);
            }
        }
        self.prev = small;
        res
    }
}

/// A picture that stays the same shows no change.
pub proof fn a_still_picture_does_not_change(p: Seq<u8>)
    ensures
        changed_samples(p, p) == 0,
    decreases p.len(),
{
    if p.len() > 0 {
        a_still_picture_does_not_change(p.drop_last());
    }
}

// ---- the trials ----

/// How many times the pointer is moved.
pub const TRIALS: usize = 20;

/// The two places, in the space for absolute positions.
pub const NEAR: u32 = 300;

pub const FAR: u32 = 700;

/// The place of a trial, counted from 0, on both axes: the far one first, and then in turn.
pub open spec fn target_of(trial: nat) -> u32 {
    if trial % 2 == 0 {
        FAR
    } else {
        NEAR
    }
}

/// The trials that showed a change.
pub open spec fn measured(outcomes: Seq<Option<u64>>) -> Seq<u64>
    decreases outcomes.len(),
{
    if outcomes.len() == 0 {
        Seq::empty()
    } else {
        match outcomes.last() {
            Some(us) => measured(outcomes.drop_last()).push(us),
            None => measured(outcomes.drop_last()),
        }
    }
}

/// A run of trials.
///
/// The view is what each of them has shown so far: the microseconds it took, or nothing.
pub struct TrialRun {
    outcomes: Vec<Option<u64>>,
}

impl View for TrialRun {
    type V = Seq<Option<u64>>;

    closed spec fn view(&self) -> Seq<Option<u64>> {
        self.outcomes@
    }
}

impl TrialRun {
    pub fn new() -> (res: Self)
        ensures
            res@ == Seq::<Option<u64>>::empty(),
    {
        TrialRun { outcomes: Vec::new() }
    }

    /// Where the pointer is moved next, on both axes; `None` when the run is over.
    pub fn next_target(&self) -> (res: Option<u32>)
        ensures
            res == (if self@.len() < TRIALS {
                Some(target_of(self@.len()))
            } else {
                None
            }),
    {
        if self.outcomes.len() < TRIALS {
            Some(
                if self.outcomes.len() % 2 == 0 {
                    FAR
                } else {
                    NEAR
                },
            )
        } else {
            None
        }
    }

    /// Takes what a trial has shown.
    pub fn record(&mut self, outcome: Option<u64>)
        ensures
            final(self)@ == old(self)@.push(outcome),
    {
        self.outcomes.push(outcome);
    }

    /// The microseconds of the trials that showed a change, in order.
    pub fn results(&self) -> (res: Vec<u64>)
        ensures
            res@ == measured(self@),
    {
        let mut out: Vec<u64> = Vec::new();
        let mut i: usize = 0;
        assert(out@ =~= measured(self@.take(0)));
        while i < self.outcomes.len()
            invariant
                i <= self.outcomes.len(),
                out@ == measured(self@.take(i as int)),
            decreases self.outcomes.len() - i,
        {
            assert(self@.take(i + 1).drop_last() =~= self@.take(i as int));
            if let Some(us) = self.outcomes[i] {
                out.push(us);
            }
            i = i + 1;
        }
        assert(self@.take(i as int) =~= self@);
        out
    }
}

/// The pointer moves in every trial: no place follows itself.
pub proof fn every_trial_moves_the_pointer(trial: nat)
    ensures
        target_of(trial) != target_of(trial + 1),
{
}

// ---- laws ----

/// Every fourth of `n` is sampled, the first of them included: as many as it takes to come within four
/// of the end.
pub proof fn every_fourth_is_sampled(n: nat)
    ensures
        samples(0) == 0,
        n > 0 ==> 4 * (samples(n) - 1) < n <= 4 * samples(n),
{
}

proof fn lemma_row_samples(b: Seq<u8>, start: int, n: int, i: int)
    requires
        0 <= n,
    ensures
        row_samples(b, start, n).len() == n,
        0 <= i < n ==> row_samples(b, start, n)[i] == b[start + 16 * i],
    decreases n,
{
    if n > 0 {
        lemma_row_samples(b, start, n - 1, i);
    }
}

/// A small picture has a sample for every fourth pixel of every fourth row, row by row: the first byte
/// of that pixel.
pub proof fn samples_are_first_bytes_of_pixels(
    b: Seq<u8>,
    width: nat,
    stride: nat,
    rows: int,
    r: int,
    c: int,
)
    requires
        0 <= rows,
    ensures
        thumbnail(b, width, stride, rows).len() == rows * samples(width),
        0 <= r < rows && 0 <= c < samples(width) ==> thumbnail(b, width, stride, rows)[r * samples(
            width,
        ) + c] == b[(4 * r) * stride + 4 * (4 * c)],
    decreases rows,
{
    let n = samples(width) as int;
    if rows > 0 {
        samples_are_first_bytes_of_pixels(b, width, stride, rows - 1, r, c);
        lemma_row_samples(b, 4 * (rows - 1) * stride, n, c);
        assert(rows * n == (rows - 1) * n + n) by (nonlinear_arith);
        if 0 <= r < rows - 1 && 0 <= c < n {
            assert(0 <= r * n + c < (rows - 1) * n) by (nonlinear_arith)
                requires
                    0 <= r < rows - 1,
                    0 <= c < n,
            ;
        }
    } else {
        assert(0 * n == 0) by (nonlinear_arith);
    }
}

/// A sample has changed where it differs by more than 20, in either direction; each that has counts
/// once.
pub proof fn a_sample_changes_by_more_than_twenty(a: Seq<u8>, b: Seq<u8>, x: u8, y: u8)
    requires
        a.len() == b.len(),
    ensures
        changed_samples(Seq::empty(), Seq::empty()) == 0,
        x > y + 20 || y > x + 20 ==> changed_samples(a.push(x), b.push(y)) == changed_samples(a, b)
            + 1,
        x <= y + 20 && y <= x + 20 ==> changed_samples(a.push(x), b.push(y)) == changed_samples(a, b),
        MIN_CHANGED_SAMPLES == 4,
{
    assert(a.push(x).drop_last() =~= a);
    assert(b.push(y).drop_last() =~= b);
}

/// The pointer is moved twenty times, to 700 first and then to 300 and to 700 in turn; what a trial has
/// shown counts where it has shown something, in the order of the trials.
pub proof fn trials_take_turns(trial: nat, outcomes: Seq<Option<u64>>, us: u64)
    ensures
        TRIALS == 20,
        trial % 2 == 0 ==> target_of(trial) == 700,
        trial % 2 == 1 ==> target_of(trial) == 300,
        measured(Seq::empty()).len() == 0,
        measured(outcomes.push(Some(us))) == measured(outcomes).push(us),
        measured(outcomes.push(None)) == measured(outcomes),
{
    assert(outcomes.push(Some(us)).drop_last() =~= outcomes);
    assert(outcomes.push(None).drop_last() =~= outcomes);
}

/// A change is seen where four samples or more have changed in a picture of the same size, and only
/// while one is waited for; it took the whole microseconds from then to its arrival, and none where the
/// clock went back.
pub proof fn a_change_is_timed_from_when_it_was_waited_for(
    detector: &mut ChangeDetector,
    small: Vec<u8>,
    arrived: i64,
    waiting_since: Option<i64>,
    res: Option<u64>,
)
    requires
        0 <= arrived,
        waiting_since matches Some(t) ==> 0 <= t,
        call_ensures(ChangeDetector::observe, (detector, small, arrived, waiting_since), res),
    ensures
        final(detector)@ == small@,
        res is Some <==> waiting_since is Some && old(detector)@.len() == small@.len()
            && changed_samples(old(detector)@, small@) >= 4,
        res matches Some(us) ==> ({
            let t = waiting_since.unwrap();
            &&& arrived >= t ==> 1000 * us <= arrived - t < 1000 * (us + 1)
            &&& arrived < t ==> us == 0
        }),
{
}

/// There are twenty trials, and no place to move to after them.
pub proof fn twenty_trials_are_run(run: &TrialRun, res: Option<u32>)
    requires
        call_ensures(TrialRun::next_target, (run,), res),
    ensures
        res is Some <==> run@.len() < 20,
        res matches Some(place) ==> place == (if run@.len() % 2 == 0 {
            700u32
        } else {
            300
        }),
{
}

/// A picture is sampled where it has pixels and its buffer has all of its rows.
pub proof fn a_picture_with_all_its_rows_is_sampled(
    bytes: &[u8],
    width: usize,
    height: usize,
    stride: usize,
    res: Option<Vec<u8>>,
)
    requires
        call_ensures(downsample, (bytes, width, height, stride), res),
    ensures
        res is Some <==> width > 0 && height > 0 && stride > 0 && stride * height <= bytes@.len(),
        res matches Some(p) ==> p@ == thumbnail(
            bytes@,
            width as nat,
            stride as nat,
            samples(height as nat) as int,
        ),
{
}

} // verus!
