//! The breakpoints of a wave that is drawn as a line through points.
//!
//! The wave is laid over a domain of `point_reso` positions, which one cycle
//! of `smp_num` samples runs through once. Between two breakpoints the wave is
//! a straight line, and the domain is a circle: behind the last breakpoint the
//! line goes on to the first one, one turn further. The arithmetic on the
//! line is floating-point and is done by the caller; which two breakpoints a
//! sample lies between is decided here.

use crate::helper::Point;
use crate::pulse::noise_builder::toward_zero;
use crate::pulse::noise_table::SMP_NUM;
use vstd::prelude::*;

verus! {

/// A wave given by breakpoints.
#[derive(Clone, Debug, PartialEq, Eq)]
pub struct Oscillator {
    /// The breakpoints: `x` is a position in the domain, `y` a level out of
    /// 128.
    pub points: Vec<Point>,
    /// The size of the domain.
    pub point_reso: i32,
    /// The volume, out of 128.
    pub volu: u32,
    /// The samples in one cycle.
    pub smp_num: u32,
}

/// The stretch of line that a sample lies on: the position of the sample and
/// the two ends of the stretch.
#[derive(Clone, Copy, Debug, PartialEq, Eq, Structural)]
pub struct Span {
    /// The position of the sample in the domain.
    pub at: i64,
    /// The position of the end before the sample.
    pub x1: i64,
    /// The level there.
    pub y1: i64,
    /// The position of the end behind the sample.
    pub x2: i64,
    /// The level there.
    pub y2: i64,
}

/// The first breakpoint from `from` on that lies behind `at`, or the number
/// of breakpoints where none does.
pub open spec fn first_behind(points: Seq<Point>, at: int, from: int) -> int
    decreases points.len() - from,
{
    if from >= points.len() {
        points.len() as int
    } else if points[from].x > at {
        from
    } else {
        first_behind(points, at, from + 1)
    }
}

/// The stretch that the position `at` lies on. Before the first breakpoint
/// that lies behind `at` comes the end before it; where `at` lies before all
/// breakpoints, that is the last breakpoint one turn earlier, and where it
/// lies behind all, the end behind it is the first breakpoint one turn later.
pub open spec fn span_at(points: Seq<Point>, reso: int, at: int) -> Span {
    let behind = first_behind(points, at, 0);
    let first = points[0];
    let last = points[points.len() - 1];
    if behind == 0 {
        Span {
            at: at as i64,
            x1: (last.x - reso) as i64,
            y1: last.y as i64,
            x2: first.x as i64,
            y2: first.y as i64,
        }
    } else if behind == points.len() {
        Span {
            at: at as i64,
            x1: last.x as i64,
            y1: last.y as i64,
            x2: (first.x + reso) as i64,
            y2: first.y as i64,
        }
    } else {
        Span {
            at: at as i64,
            x1: points[behind - 1].x as i64,
            y1: points[behind - 1].y as i64,
            x2: points[behind].x as i64,
            y2: points[behind].y as i64,
        }
    }
}

/// The first breakpoint behind `at` is behind `at`, and none before it is.
pub proof fn lemma_first_behind(points: Seq<Point>, at: int, from: int)
    requires
        0 <= from <= points.len(),
    ensures
        from <= first_behind(points, at, from) <= points.len(),
        first_behind(points, at, from) < points.len() ==> points[first_behind(points, at, from)].x
            > at,
        forall|k: int| from <= k < first_behind(points, at, from)
            ==> (#[trigger] points[k]).x <= at,
    decreases points.len() - from,
{
    if from < points.len() && points[from].x <= at {
        lemma_first_behind(points, at, from + 1);
    }
}

/// A sample lies on its stretch: where the breakpoints and the position are
/// within the domain, the position is at or behind the first end of the
/// stretch and before the second.
pub proof fn lemma_span_holds_position(points: Seq<Point>, reso: int, at: int)
    requires
        points.len() >= 1,
        0 <= at < reso <= i32::MAX,
        forall|k: int| 0 <= k < points.len() ==> 0 <= (#[trigger] points[k]).x <= reso,
    ensures
        span_at(points, reso, at).x1 <= at < span_at(points, reso, at).x2,
{
    lemma_first_behind(points, at, 0);
    let behind = first_behind(points, at, 0);
    if 0 < behind < points.len() {
        assert(points[behind - 1].x <= at);
    } else if behind == points.len() {
        assert(points[points.len() - 1].x <= at);
    }
}

impl Oscillator {
    /// The triangle: from zero up to full level at a quarter of the cycle,
    /// down to its negative at three quarters, and back to zero at the end.
    /// The domain is the cycle itself, the levels are out of 128.
    pub fn triangle() -> (r: Self)
        ensures
            r.points@ == seq![
                Point { x: 0, y: 0 },
                Point { x: 110, y: 128 },
                Point { x: 330, y: -128i32 },
                Point { x: 441, y: 0 },
            ],
            r.point_reso == SMP_NUM,
            r.volu == 128,
            r.smp_num == SMP_NUM,
    {
        let length: i32 = SMP_NUM as i32;
        let mut points: Vec<Point> = Vec::new();
        points.push(Point { x: 0, y: 0 });
        points.push(Point { x: length / 4, y: 128 });
        points.push(Point { x: length * 3 / 4, y: -128 });
        points.push(Point { x: length, y: 0 });
        assert(points@ =~= seq![
            Point { x: 0, y: 0 },
            Point { x: 110, y: 128 },
            Point { x: 330, y: -128i32 },
            Point { x: 441, y: 0 },
        ]);
        Oscillator { points, point_reso: length, volu: 128, smp_num: SMP_NUM as u32 }
    }

    /// The stretch of line that the sample `index` of the cycle lies on. The
    /// position of the sample is `point_reso * index / smp_num`, rounded
    /// towards zero.
    pub fn get_coodinate(&self, index: i32) -> (r: Span)
        requires
            self.points@.len() >= 1,
            self.smp_num >= 1,
        ensures
            r == span_at(
                self.points@,
                self.point_reso as int,
                toward_zero(self.point_reso * index, self.smp_num as int),
            ),
    {
        let reso: i64 = self.point_reso as i64;
        assert(-0x4000_0000_0000_0000 <= reso * (index as i64) <= 0x4000_0000_0000_0000)
            by (nonlinear_arith)
            requires
                -0x8000_0000 <= reso <= 0x7fff_ffff,
                -0x8000_0000 <= index as i64 <= 0x7fff_ffff,
        ;
        let scaled: i64 = reso * (index as i64);
        let at: i64 = if scaled >= 0 {
            scaled / (self.smp_num as i64)
        } else {
            -((-scaled) / (self.smp_num as i64))
        };
        let count = self.points.len();
        let mut behind: usize = 0;
        while behind < count && self.points[behind].x as i64 <= at
            invariant
                behind <= count,
                count == self.points@.len(),
                first_behind(self.points@, at as int, 0) == first_behind(
                    self.points@,
                    at as int,
                    behind as int,
                ),
            decreases count - behind,
        {
            behind = behind + 1;
        }
        let first = self.points[0];
        let last = self.points[count - 1];
        if behind == 0 {
            Span {
                at,
                x1: last.x as i64 - reso,
                y1: last.y as i64,
                x2: first.x as i64,
                y2: first.y as i64,
            }
        } else if behind == count {
            Span {
                at,
                x1: last.x as i64,
                y1: last.y as i64,
                x2: first.x as i64 + reso,
                y2: first.y as i64,
            }
        } else {
            let before = self.points[behind - 1];
            let after = self.points[behind];
            Span {
                at,
                x1: before.x as i64,
                y1: before.y as i64,
                x2: after.x as i64,
                y2: after.y as i64,
            }
        }
    }
}

} // verus!
