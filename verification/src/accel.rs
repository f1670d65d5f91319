//! Averaging of raw accelerometer samples and classification of the average
//! into a movement direction.

use vstd::prelude::*;

verus! {

/// Number of raw samples that make up one averaged reading.
pub const AVG_COUNT: i32 = 15;

/// Magnitude below which an averaged axis counts as level.
pub const DEAD_ZONE: i32 = 100;

/// Largest magnitude of a sample axis for which the sums over a full window
/// are certain to fit in an `i32`.
pub const SAMPLE_LIMIT: i32 = 143_165_576;

/// Quotient of `a` by `c` rounded toward zero.
///
/// For a non-negative dividend the Euclidean quotient is already rounded
/// toward zero, whatever the sign of the divisor; a negative dividend is
/// mirrored.
pub open spec fn toward_zero(a: int, c: int) -> int
    recommends
        c != 0,
{
    if a >= 0 {
        a / c
    } else {
        -((-a) / c)
    }
}

/// A Euclidean quotient of a non-negative dividend is no larger in magnitude
/// than the dividend, and strictly smaller once the divisor is below `-1`.
proof fn lemma_quotient_within(a: int, c: int)
    requires
        a >= 0,
        c != 0,
    ensures
        -a <= a / c <= a,
        a > 0 && c < -1 ==> -a < a / c,
{
    assert(-a <= a / c <= a) by (nonlinear_arith)
        requires
            a >= 0,
            c != 0,
    ;
    assert(a > 0 && c < -1 ==> -a < a / c) by (nonlinear_arith)
        requires
            a >= 0,
            c != 0,
    ;
}

/// For a positive divisor, `toward_zero` is the quotient truncated toward
/// zero: it has the sign of the dividend or is zero, and its magnitude is the
/// largest whose multiple of the divisor does not exceed the magnitude of
/// the dividend.
pub proof fn lemma_toward_zero_truncates(a: int, c: int)
    requires
        c > 0,
    ensures
        a >= 0 ==> toward_zero(a, c) >= 0,
        a <= 0 ==> toward_zero(a, c) <= 0,
        c * magnitude(toward_zero(a, c)) <= magnitude(a) < c * magnitude(toward_zero(a, c)) + c,
        toward_zero(-a, c) == -toward_zero(a, c),
{
    let m = magnitude(a);
    assert(0 <= m / c && c * (m / c) <= m < c * (m / c) + c) by (nonlinear_arith)
        requires
            m >= 0,
            c > 0,
    ;
}

/// Magnitude of an integer.
pub open spec fn magnitude(v: int) -> int {
    if v < 0 {
        -v
    } else {
        v
    }
}

/// One raw reading of the three axes.
#[derive(Clone, Copy, Debug, PartialEq, Eq, Structural)]
pub struct Sample {
    pub x: i32,
    pub y: i32,
    pub z: i32,
}

impl Sample {
    /// Every axis lies within `SAMPLE_LIMIT` of zero.
    pub open spec fn bounded(&self) -> bool {
        &&& -SAMPLE_LIMIT <= self.x <= SAMPLE_LIMIT
        &&& -SAMPLE_LIMIT <= self.y <= SAMPLE_LIMIT
        &&& -SAMPLE_LIMIT <= self.z <= SAMPLE_LIMIT
    }

    /// Tells whether every axis lies within `SAMPLE_LIMIT` of zero.
    pub fn is_bounded(&self) -> (b: bool)
        ensures
            b == self.bounded(),
    {
        -SAMPLE_LIMIT <= self.x && self.x <= SAMPLE_LIMIT && -SAMPLE_LIMIT <= self.y && self.y
            <= SAMPLE_LIMIT && -SAMPLE_LIMIT <= self.z && self.z <= SAMPLE_LIMIT
    }
}

/// The five movement requests that a tilt can express.
#[derive(Clone, Copy, Debug, PartialEq, Eq, Structural)]
pub enum Direction {
    Stop,
    Up,
    Down,
    Left,
    Right,
}

/// Direction expressed by an averaged tilt of `x` and `y`.
///
/// Inside the dead zone on both axes the answer is `Stop`. Otherwise the axis
/// of larger magnitude decides, and on equal magnitudes the y axis does. A
/// positive x is `Right`, a positive y is `Up`.
pub open spec fn classify(x: int, y: int) -> Direction {
    if magnitude(x) < DEAD_ZONE && magnitude(y) < DEAD_ZONE {
        Direction::Stop
    } else if magnitude(x) > magnitude(y) {
        if x > 0 {
            Direction::Right
        } else {
            Direction::Left
        }
    } else {
        if y > 0 {
            Direction::Up
        } else {
            Direction::Down
        }
    }
}

/// Classification is decided by the dead zone first and by the larger
/// magnitude second; equal magnitudes outside the dead zone go to the y axis.
pub proof fn lemma_classify_cases(x: int, y: int)
    ensures
        classify(x, y) == Direction::Stop <==> magnitude(x) < DEAD_ZONE && magnitude(y) < DEAD_ZONE,
        classify(x, y) == Direction::Right <==> magnitude(x) >= DEAD_ZONE && magnitude(x)
            > magnitude(y) && x > 0,
        classify(x, y) == Direction::Left <==> magnitude(x) >= DEAD_ZONE && magnitude(x)
            > magnitude(y) && x < 0,
        classify(x, y) == Direction::Up <==> magnitude(y) >= DEAD_ZONE && magnitude(x)
            <= magnitude(y) && y > 0,
        classify(x, y) == Direction::Down <==> magnitude(y) >= DEAD_ZONE && magnitude(x)
            <= magnitude(y) && y < 0,
        magnitude(x) == magnitude(y) && magnitude(x) >= DEAD_ZONE ==> classify(x, y)
            == Direction::Up || classify(x, y) == Direction::Down,
{
}

/// Running sums of samples, and after division their average.
#[derive(Clone, Copy, Debug, PartialEq, Eq, Structural)]
pub struct Accel {
    pub x: i32,
    pub y: i32,
    pub z: i32,
}

impl Default for Accel {
    fn default() -> (a: Accel)
        ensures
            a == (Accel { x: 0, y: 0, z: 0 }),
    {
        Accel { x: 0, y: 0, z: 0 }
    }
}

impl Accel {
    /// The sums of `self` and `m` fit in an `i32` on every axis.
    pub open spec fn has_room(&self, m: Sample) -> bool {
        &&& i32::MIN <= self.x + m.x <= i32::MAX
        &&& i32::MIN <= self.y + m.y <= i32::MAX
        &&& i32::MIN <= self.z + m.z <= i32::MAX
    }

    /// Dividing every axis by `c` is defined and fits in an `i32`.
    pub open spec fn divisible_by(&self, c: i32) -> bool {
        &&& c != 0
        &&& c == -1 ==> self.x != i32::MIN && self.y != i32::MIN && self.z != i32::MIN
    }

    /// Adds a sample to the running sums, axis by axis.
    pub fn add(&mut self, m: Sample)
        requires
            old(self).has_room(m),
        ensures
            final(self).x == old(self).x + m.x,
            final(self).y == old(self).y + m.y,
            final(self).z == old(self).z + m.z,
    {
        self.x = self.x + m.x;
        self.y = self.y + m.y;
        self.z = self.z + m.z;
    }

    /// Divides every axis by `c`, rounding toward zero.
    pub fn avg(&mut self, c: i32)
        requires
            old(self).divisible_by(c),
        ensures
            final(self).x == toward_zero(old(self).x as int, c as int),
            final(self).y == toward_zero(old(self).y as int, c as int),
            final(self).z == toward_zero(old(self).z as int, c as int),
    {
        proof {
            lemma_quotient_within(magnitude(self.x as int), c as int);
            lemma_quotient_within(magnitude(self.y as int), c as int);
            lemma_quotient_within(magnitude(self.z as int), c as int);
        }
        self.x = self.x / c;
        self.y = self.y / c;
        self.z = self.z / c;
    }

    /// Classifies the tilt held in the x and y axes.
    pub fn dir(&self) -> (d: Direction)
        ensures
            d == classify(self.x as int, self.y as int),
    {
        let x: i64 = if self.x < 0 {
            -(self.x as i64)
        } else {
            self.x as i64
        };
        let y: i64 = if self.y < 0 {
            -(self.y as i64)
        } else {
            self.y as i64
        };
        if x < DEAD_ZONE as i64 && y < DEAD_ZONE as i64 {
            return Direction::Stop;
        }
        if x > y {
            if self.x > 0 {
                Direction::Right
            } else {
                Direction::Left
            }
        } else {
            if self.y > 0 {
                Direction::Up
            } else {
                Direction::Down
            }
        }
    }
}

/// Per-axis sums of a sequence of samples.
pub open spec fn totals(samples: Seq<Sample>) -> (int, int, int)
    decreases samples.len(),
{
    if samples.len() == 0 {
        (0, 0, 0)
    } else {
        let rest = totals(samples.drop_first());
        (samples[0].x + rest.0, samples[0].y + rest.1, samples[0].z + rest.2)
    }
}

/// Per-axis arithmetic mean of a non-empty sequence of samples, rounded
/// toward zero.
pub open spec fn mean(samples: Seq<Sample>) -> (int, int, int)
    recommends
        samples.len() > 0,
{
    let sums = totals(samples);
    let n = samples.len() as int;
    (toward_zero(sums.0, n), toward_zero(sums.1, n), toward_zero(sums.2, n))
}

/// Mathematical state of an averaging window: the sums collected so far and
/// the number of samples still missing.
pub struct Tally {
    pub x: int,
    pub y: int,
    pub z: int,
    pub left: int,
}

impl Tally {
    /// The empty window: zero sums, every sample still missing.
    pub open spec fn fresh() -> Tally {
        Tally { x: 0, y: 0, z: 0, left: AVG_COUNT as int }
    }

    /// The window after one more sample.
    pub open spec fn with(self, m: Sample) -> Tally {
        Tally { x: self.x + m.x, y: self.y + m.y, z: self.z + m.z, left: self.left - 1 }
    }

    /// The window after the given samples, taken in order.
    pub open spec fn fed(self, samples: Seq<Sample>) -> Tally
        decreases samples.len(),
    {
        if samples.len() == 0 {
            self
        } else {
            self.with(samples[0]).fed(samples.drop_first())
        }
    }

    /// Per-axis quotient of the sums by the window size, rounded toward zero.
    pub open spec fn average(self) -> (int, int, int) {
        (
            toward_zero(self.x, AVG_COUNT as int),
            toward_zero(self.y, AVG_COUNT as int),
            toward_zero(self.z, AVG_COUNT as int),
        )
    }

    /// The countdown is in range and no sum exceeds what the samples taken
    /// so far can have contributed.
    pub open spec fn within_limits(self) -> bool {
        &&& 0 <= self.left <= AVG_COUNT
        &&& magnitude(self.x) <= (AVG_COUNT - self.left) * SAMPLE_LIMIT
        &&& magnitude(self.y) <= (AVG_COUNT - self.left) * SAMPLE_LIMIT
        &&& magnitude(self.z) <= (AVG_COUNT - self.left) * SAMPLE_LIMIT
    }
}

/// Accumulator that turns a window of `AVG_COUNT` samples into one average.
#[derive(Clone, Copy, Debug)]
pub struct Averager {
    sum: Accel,
    left: i32,
}

impl View for Averager {
    type V = Tally;

    closed spec fn view(&self) -> Tally {
        Tally { x: self.sum.x as int, y: self.sum.y as int, z: self.sum.z as int, left: self.left as int }
    }
}

impl Default for Averager {
    fn default() -> (a: Averager)
        ensures
            a@ == Tally::fresh(),
            a.wf(),
    {
        Averager::new()
    }
}

impl Averager {
    /// The invariant of an accumulator.
    pub open spec fn wf(&self) -> bool {
        self@.within_limits()
    }

    /// An accumulator with zero sums and the whole window to go.
    pub fn new() -> (a: Averager)
        ensures
            a@ == Tally::fresh(),
            a.wf(),
    {
        Averager { sum: Accel { x: 0, y: 0, z: 0 }, left: AVG_COUNT }
    }

    /// Number of samples still missing from the window.
    pub fn remaining(&self) -> (n: i32)
        ensures
            n == self@.left,
    {
        self.left
    }

    /// Tells whether the window is complete.
    pub fn is_ready(&self) -> (b: bool)
        ensures
            b == (self@.left == 0),
    {
        self.left == 0
    }

    /// Takes one sample into the window and counts it off.
    pub fn add(&mut self, m: Sample)
        requires
            old(self).wf(),
            old(self)@.left > 0,
            m.bounded(),
        ensures
            final(self)@ == old(self)@.with(m),
            final(self).wf(),
    {
        self.sum.add(m);
        self.left = self.left - 1;
    }

    /// Hands out the average of the window and starts a new one.
    ///
    /// The sums are divided by `AVG_COUNT` however many samples were taken,
    /// so the result is the mean of the window once the countdown is at zero.
    pub fn finalize(&mut self) -> (a: Accel)
        requires
            old(self).wf(),
        ensures
            (a.x as int, a.y as int, a.z as int) == old(self)@.average(),
            final(self)@ == Tally::fresh(),
            final(self).wf(),
    {
        let mut a = self.sum;
        a.avg(AVG_COUNT);
        self.sum = Accel { x: 0, y: 0, z: 0 };
        self.left = AVG_COUNT;
        a
    }
}

/// Feeding samples one by one adds up their axes and counts them off.
pub proof fn lemma_fed_totals(start: Tally, samples: Seq<Sample>)
    ensures
        start.fed(samples).x == start.x + totals(samples).0,
        start.fed(samples).y == start.y + totals(samples).1,
        start.fed(samples).z == start.z + totals(samples).2,
        start.fed(samples).left == start.left - samples.len(),
    decreases samples.len(),
{
    if samples.len() > 0 {
        lemma_fed_totals(start.with(samples[0]), samples.drop_first());
    }
}

/// Bounded samples keep a window within its limits for as long as it has
/// room for them.
pub proof fn lemma_fed_within_limits(start: Tally, samples: Seq<Sample>)
    requires
        start.within_limits(),
        samples.len() <= start.left,
        forall|i: int| 0 <= i < samples.len() ==> (#[trigger] samples[i]).bounded(),
    ensures
        start.fed(samples).within_limits(),
    decreases samples.len(),
{
    if samples.len() > 0 {
        let rest = samples.drop_first();
        assert(samples[0].bounded());
        assert forall|i: int| 0 <= i < rest.len() implies (#[trigger] rest[i]).bounded() by {
            assert(rest[i] == samples[i + 1]);
        }
        lemma_fed_within_limits(start.with(samples[0]), rest);
    }
}

/// A full window of samples, fed to an empty accumulator, leaves the
/// countdown at zero and averages to the per-axis mean of the samples,
/// rounded toward zero.
pub proof fn lemma_window_average(samples: Seq<Sample>)
    requires
        samples.len() == AVG_COUNT,
    ensures
        Tally::fresh().fed(samples).left == 0,
        Tally::fresh().fed(samples).average() == mean(samples),
{
    lemma_fed_totals(Tally::fresh(), samples);
}

} // verus!
