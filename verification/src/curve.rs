//! Cubic splines that entities follow at a steady pace.

use vstd::prelude::*;
use crate::math::narrow;
use crate::math::saturate;
use crate::math::Vec2;

verus! {

/// Steps of the curve parameter per unit: the curve runs from `b` at 0 to
/// `c` at one unit.
pub const PARAM_ONE: u32 = 0x10_0000;

/// How far, in fixed-point steps, a step along a curve may miss its pace:
/// a tenth of a world unit.
pub const TOLERANCE: i32 = 102;

/// A spline through `b` and `c`, shaped by `a` and `d`, with the parameter
/// reached so far and the distance to cover per step.
#[derive(Clone, Copy, Debug, PartialEq, Eq, Structural)]
pub struct Curve {
    pub a: Vec2,
    pub b: Vec2,
    pub c: Vec2,
    pub d: Vec2,
    pub time: u32,
    pub speed: i32,
}

/// The weighted sum of four control values at parameter `t`, times twice the
/// cube of `PARAM_ONE`: the Catmull-Rom blend, without its division.
pub open spec fn blend_numerator(a: int, b: int, c: int, d: int, t: int) -> int {
    let o = PARAM_ONE as int;
    a * (-(t * t * t) + 2 * (t * t * o) - t * o * o) + b * (3 * (t * t * t) - 5 * (t * t * o) + 2
        * (o * o * o)) + c * (-3 * (t * t * t) + 4 * (t * t * o) + t * o * o) + d * (t * t * t - t
        * t * o)
}

/// One coordinate of the curve at parameter `t`, rounded down.
pub open spec fn blend(a: int, b: int, c: int, d: int, t: int) -> int {
    blend_numerator(a, b, c, d, t) / 0x2000_0000_0000_0000
}

/// Whether a squared distance lies within the tolerance of the pace `speed`.
pub open spec fn near(d2: int, speed: int) -> bool {
    (speed - TOLERANCE < 0 || d2 > (speed - TOLERANCE) * (speed - TOLERANCE)) && speed + TOLERANCE
        > 0 && d2 < (speed + TOLERANCE) * (speed + TOLERANCE)
}

/// Whether a squared distance falls short of the pace `speed`.
pub open spec fn short(d2: int, speed: int) -> bool {
    speed > 0 && d2 < speed * speed
}

impl Curve {
    /// The point of the curve at parameter `t`.
    pub open spec fn point_at(self, t: int) -> Vec2 {
        Vec2 {
            x: saturate(blend(self.a.x as int, self.b.x as int, self.c.x as int, self.d.x as int, t)) as i32,
            y: saturate(blend(self.a.y as int, self.b.y as int, self.c.y as int, self.d.y as int, t)) as i32,
        }
    }

    /// The parameter the search for the next point starts from: the one
    /// the curve has reached.
    pub open spec fn from(self) -> int {
        self.time as int
    }

    /// The parameter the search for the next point ends at: one unit on,
    /// and no further than the parameter can count.
    pub open spec fn until(self) -> int {
        if self.time + PARAM_ONE > u32::MAX {
            u32::MAX as int
        } else {
            self.time + PARAM_ONE
        }
    }

    /// Bisection between the parameters `lo` and `hi` for the point that lies
    /// the pace away from `previous`: the parameter it ends at, and whether
    /// the point there is within the tolerance. The search gives up on the
    /// midpoint when the interval cannot be halved again.
    pub open spec fn search(self, previous: Vec2, lo: int, hi: int) -> (int, bool)
        decreases hi - lo,
    {
        let mid = lo + (hi - lo) / 2;
        let d2 = self.point_at(mid).dist2(previous);
        if near(d2, self.speed as int) {
            (mid, true)
        } else if hi - lo <= 1 {
            (mid, false)
        } else if short(d2, self.speed as int) {
            self.search(previous, mid, hi)
        } else {
            self.search(previous, lo, mid)
        }
    }

    /// The parameter a step from `previous` ends at.
    pub open spec fn next_time(self, previous: Vec2) -> int {
        self.search(previous, self.from(), self.until()).0
    }

    /// Whether a step from `previous` finds a point at the pace.
    pub open spec fn settles(self, previous: Vec2) -> bool {
        self.search(previous, self.from(), self.until()).1
    }

    /// The search ends between its bounds, and a search that settles ends on
    /// a point within the tolerance of the pace.
    pub proof fn lemma_search(self, previous: Vec2, lo: int, hi: int)
        requires
            lo <= hi,
        ensures
            lo <= self.search(previous, lo, hi).0 <= hi,
            self.search(previous, lo, hi).1 ==> near(
                self.point_at(self.search(previous, lo, hi).0).dist2(previous),
                self.speed as int,
            ),
        decreases hi - lo,
    {
        let mid = lo + (hi - lo) / 2;
        let d2 = self.point_at(mid).dist2(previous);
        if near(d2, self.speed as int) {
        } else if hi - lo <= 1 {
        } else if short(d2, self.speed as int) {
            self.lemma_search(previous, mid, hi);
        } else {
            self.lemma_search(previous, lo, mid);
        }
    }

    /// A sweep across the screen from one side to the other, entering at
    /// the height `start_y` and leaving at `end_y`. The curve begins and
    /// ends twenty units outside the screen, and is shaped by control points
    /// a further fifteen hundred units out.
    pub fn horizontal(start_y: i32, end_y: i32, left_to_right: bool, speed: i32) -> (r: Curve)
        ensures
            r == if left_to_right {
                Curve {
                    a: Vec2 { x: (-1556480) as i32, y: start_y },
                    b: Vec2 { x: (-20480) as i32, y: start_y },
                    c: Vec2 { x: 512000, y: end_y },
                    d: Vec2 { x: 2048000, y: end_y },
                    time: 0,
                    speed,
                }
            } else {
                Curve {
                    a: Vec2 { x: 2048000, y: start_y },
                    b: Vec2 { x: 512000, y: start_y },
                    c: Vec2 { x: (-20480) as i32, y: end_y },
                    d: Vec2 { x: (-1556480) as i32, y: end_y },
                    time: 0,
                    speed,
                }
            },
    {
        let force: i32 = 1500 * 1024;
        let offset: i32 = 20 * 1024;
        if left_to_right {
            Curve {
                a: Vec2 { x: -force - offset, y: start_y },
                b: Vec2 { x: -offset, y: start_y },
                c: Vec2 { x: crate::WIDTH + offset, y: end_y },
                d: Vec2 { x: crate::WIDTH + force + offset, y: end_y },
                time: 0,
                speed,
            }
        } else {
            Curve {
                a: Vec2 { x: crate::WIDTH + force + offset, y: start_y },
                b: Vec2 { x: crate::WIDTH + offset, y: start_y },
                c: Vec2 { x: -offset, y: end_y },
                d: Vec2 { x: -force - offset, y: end_y },
                time: 0,
                speed,
            }
        }
    }

    /// A sweep down the screen, entering at `start_x` and leaving at `end_x`,
    /// both given in 1024ths of the screen's width. The curve begins twenty
    /// units above the screen and ends at its lower edge, and is shaped by
    /// control points a further two thousand units out.
    pub fn vertical(start_x: i32, end_x: i32, speed: i32) -> (r: Curve)
        ensures
            r == (Curve {
                a: Vec2 { x: saturate(start_x * 480) as i32, y: (-2068480) as i32 },
                b: Vec2 { x: saturate(start_x * 480) as i32, y: (-20480) as i32 },
                c: Vec2 { x: saturate(end_x * 480) as i32, y: 655360 },
                d: Vec2 { x: saturate(end_x * 480) as i32, y: 2703360 },
                time: 0,
                speed,
            }),
    {
        let start_x: i32 = narrow(start_x as i64 * 480);
        let end_x: i32 = narrow(end_x as i64 * 480);
        let force: i32 = 2000 * 1024;
        Curve {
            a: Vec2 { x: start_x, y: -20 * 1024 - force },
            b: Vec2 { x: start_x, y: -20 * 1024 },
            c: Vec2 { x: end_x, y: crate::HEIGHT },
            d: Vec2 { x: end_x, y: crate::HEIGHT + force },
            time: 0,
            speed,
        }
    }

    /// A sweep across the screen at the height `start_y` that bulges away
    /// from control points `force` above it. The curve begins and ends
    /// twenty units outside the screen.
    pub fn circular(start_y: i32, force: i32, speed: i32) -> (r: Curve)
        ensures
            r == (Curve {
                a: Vec2 { x: (-20480) as i32, y: saturate(start_y - force) as i32 },
                b: Vec2 { x: (-20480) as i32, y: start_y },
                c: Vec2 { x: 512000, y: start_y },
                d: Vec2 { x: 512000, y: saturate(start_y - force) as i32 },
                time: 0,
                speed,
            }),
    {
        let offset: i32 = 20 * 1024;
        let far: i32 = narrow(start_y as i64 - force as i64);
        Curve {
            a: Vec2 { x: -offset, y: far },
            b: Vec2 { x: -offset, y: start_y },
            c: Vec2 { x: crate::WIDTH + offset, y: start_y },
            d: Vec2 { x: crate::WIDTH + offset, y: far },
            time: 0,
            speed,
        }
    }

    /// Where the curve begins.
    pub fn start(&self) -> (r: Vec2)
        ensures
            r == self.b,
    {
        self.b
    }

    /// The point of the curve at parameter `time`.
    pub fn point(&self, time: u32) -> (r: Vec2)
        ensures
            r == self.point_at(time as int),
    {
        Vec2 {
            x: curve_point_scalar(self.a.x, self.b.x, self.c.x, self.d.x, time),
            y: curve_point_scalar(self.a.y, self.b.y, self.c.y, self.d.y, time),
        }
    }

    /// Moves on along the curve from `previous_point`, by bisection over one
    /// unit of the parameter from where the curve is, to the point that lies
    /// the pace away, and hands that point back. Where no point within the
    /// tolerance is found the curve moves to the midpoint the search ended
    /// on. The parameter never goes back, and the control points and the
    /// pace stay.
    pub fn step(&mut self, previous_point: Vec2) -> (r: Vec2)
        ensures
            final(self).time == old(self).next_time(previous_point),
            r == old(self).point_at(final(self).time as int),
            *final(self) == (Curve { time: final(self).time, ..*old(self) }),
            old(self).time <= final(self).time <= old(self).time + PARAM_ONE,
            old(self).settles(previous_point) ==> near(
                r.dist2(previous_point),
                old(self).speed as int,
            ),
    {
        let from: u32 = self.time;
        let until: u32 = if from > u32::MAX - PARAM_ONE {
            u32::MAX
        } else {
            from + PARAM_ONE
        };
        let speed: i64 = self.speed as i64;
        let mut min_time: u32 = from;
        let mut max_time: u32 = until;
        proof {
            self.lemma_search(previous_point, from as int, until as int);
        }
        loop
            invariant
                *self == *old(self),
                speed == self.speed,
                min_time <= max_time,
                self.search(previous_point, min_time as int, max_time as int) == old(self).search(
                    previous_point,
                    old(self).from(),
                    old(self).until(),
                ),
                old(self).from() <= min_time,
                max_time <= old(self).until(),
            decreases max_time - min_time,
        {
            let mid_time: u32 = min_time + (max_time - min_time) / 2;
            let mid_point = self.point(mid_time);
            let mid_dist2: u128 = mid_point.distance2(previous_point);
            let low: i64 = speed - TOLERANCE as i64;
            let high: i64 = speed + TOLERANCE as i64;
            assert(0 <= low * low <= 0x1_0000_0000 * 0x1_0000_0000) by (nonlinear_arith)
                requires
                    -0x1_0000_0000 <= low <= 0x1_0000_0000,
            ;
            assert(0 <= high * high <= 0x1_0000_0000 * 0x1_0000_0000) by (nonlinear_arith)
                requires
                    -0x1_0000_0000 <= high <= 0x1_0000_0000,
            ;
            assert(0 <= speed * speed <= 0x1_0000_0000 * 0x1_0000_0000) by (nonlinear_arith)
                requires
                    -0x1_0000_0000 <= speed <= 0x1_0000_0000,
            ;
            let is_near = (low < 0 || mid_dist2 > (low as i128 * low as i128) as u128) && high > 0
                && mid_dist2 < (high as i128 * high as i128) as u128;
            if is_near || max_time - min_time <= 1 {
                self.time = mid_time;
                return mid_point;
            } else if speed > 0 && mid_dist2 < (speed as i128 * speed as i128) as u128 {
                min_time = mid_time;
            } else {
                max_time = mid_time;
            }
        }
    }
}

/// A sum gathered from the highest power of `t` down, spread out.
proof fn lemma_gathered(t: int, x: int, y: int, z: int)
    by (nonlinear_arith)
    ensures
        t * (x + t * (y + t * z)) == t * x + (t * t) * y + (t * t * t) * z,
{
}

/// A control value times a weight that is a sum of three terms.
proof fn lemma_weighted(v: int, p: int, q: int, r: int)
    by (nonlinear_arith)
    ensures
        v * (p + q + r) == v * p + v * q + v * r,
{
}

/// The blend without its division, with the parameter drawn out: for a
/// unit of `o` steps it is `2 * o^3 * b` and `t` times a sum that is
/// gathered from the highest power of `t` down.
proof fn lemma_blend_gathered(a: int, b: int, c: int, d: int, t: int, o: int)
    ensures
        a * (-(t * t * t) + 2 * (t * t * o) - t * o * o) + b * (3 * (t * t * t) - 5 * (t * t * o)
            + 2 * (o * o * o)) + c * (-3 * (t * t * t) + 4 * (t * t * o) + t * o * o) + d * (t * t
            * t - t * t * o) == 2 * (o * o * o) * b + t * ((o * o) * (c - a) + t * (o * (2 * a - 5
            * b + 4 * c - d) + t * (d - a + 3 * (b - c)))),
{
    let n = t * t * t;
    let m = t * t * o;
    let k = t * o * o;
    let o3 = o * o * o;
    let p3 = d - a + 3 * (b - c);
    let p2 = 2 * a - 5 * b + 4 * c - d;
    let p1 = c - a;
    lemma_gathered(t, (o * o) * p1, o * p2, p3);
    assert(t * ((o * o) * p1) == k * p1) by (nonlinear_arith)
        requires
            k == t * o * o,
    ;
    assert((t * t) * (o * p2) == m * p2) by (nonlinear_arith)
        requires
            m == t * t * o,
    ;
    assert(k * p1 == c * k - a * k) by (nonlinear_arith)
        requires
            p1 == c - a,
    ;
    assert(m * p2 == 2 * (a * m) - 5 * (b * m) + 4 * (c * m) - d * m) by (nonlinear_arith)
        requires
            p2 == 2 * a - 5 * b + 4 * c - d,
    ;
    assert(n * p3 == d * n - a * n + 3 * (b * n) - 3 * (c * n)) by (nonlinear_arith)
        requires
            p3 == d - a + 3 * (b - c),
    ;
    lemma_weighted(a, -n, 2 * m, -k);
    lemma_weighted(b, 3 * n, -5 * m, 2 * o3);
    lemma_weighted(c, -3 * n, 4 * m, k);
    lemma_weighted(d, n, -m, 0);
    assert(a * (-n) == -(a * n) && a * (2 * m) == 2 * (a * m) && a * (-k) == -(a * k))
        by (nonlinear_arith);
    assert(b * (3 * n) == 3 * (b * n) && b * (-5 * m) == -5 * (b * m) && b * (2 * o3) == 2 * o3
        * b) by (nonlinear_arith);
    assert(c * (-3 * n) == -3 * (c * n) && c * (4 * m) == 4 * (c * m)) by (nonlinear_arith);
    assert(d * (-m) == -(d * m) && d * 0 == 0) by (nonlinear_arith);
    assert(-n + 2 * m - k == -n + 2 * m + (-k));
    assert(3 * n - 5 * m + 2 * o3 == 3 * n + (-5 * m) + 2 * o3);
    assert(n - m == n + (-m) + 0);
}

/// One coordinate of the curve through the control values `b` and `c` at
/// parameter `t`, rounded down and saturating.
pub fn curve_point_scalar(a: i32, b: i32, c: i32, d: i32, t: u32) -> (r: i32)
    ensures
        r == saturate(blend(a as int, b as int, c as int, d as int, t as int)),
{
    let t1: i128 = t as i128;
    let a1: i128 = a as i128;
    let b1: i128 = b as i128;
    let c1: i128 = c as i128;
    let d1: i128 = d as i128;
    // The sum is gathered from the highest power of the parameter down.
    let p3: i128 = d1 - a1 + 3 * (b1 - c1);
    let p2: i128 = 2 * a1 - 5 * b1 + 4 * c1 - d1;
    let p1: i128 = c1 - a1;
    assert(-0x1_0000_0000 * 0x4_0000_0000 <= t1 * p3 <= 0x1_0000_0000 * 0x4_0000_0000)
        by (nonlinear_arith)
        requires
            0 <= t1 <= 0x1_0000_0000,
            -0x4_0000_0000 <= p3 <= 0x4_0000_0000,
    ;
    let k2: i128 = 0x10_0000 * p2 + t1 * p3;
    assert(-0x1_0000_0000 * 0x8_0000_0000_0000_0000 <= t1 * k2 <= 0x1_0000_0000
        * 0x8_0000_0000_0000_0000) by (nonlinear_arith)
        requires
            0 <= t1 <= 0x1_0000_0000,
            -0x8_0000_0000_0000_0000 <= k2 <= 0x8_0000_0000_0000_0000,
    ;
    let k1: i128 = 0x100_0000_0000 * p1 + t1 * k2;
    let base: i128 = 0x2000_0000_0000_0000 * b1;
    proof {
        lemma_blend_gathered(a as int, b as int, c as int, d as int, t as int, 0x10_0000);
        assert(0x10_0000int * 0x10_0000int == 0x100_0000_0000int);
        assert(0x10_0000int * 0x10_0000int * 0x10_0000int == 0x1000_0000_0000_0000int);
        assert(blend_numerator(a as int, b as int, c as int, d as int, t as int) == base + t1
            * k1);
    }
    if t == 0 {
        assert(t1 * k1 == 0) by (nonlinear_arith)
            requires
                t1 == 0,
        ;
        return b;
    }
    // Beyond this much either way the sum is out of all range, and only its
    // sign counts.
    let cap: i128 = 0x4000_0000_0000_0000_0000_0000 / t1;
    proof {
        vstd::arithmetic::div_mod::lemma_fundamental_div_mod(
            0x4000_0000_0000_0000_0000_0000,
            t1 as int,
        );
        vstd::arithmetic::div_mod::lemma_mod_bound(0x4000_0000_0000_0000_0000_0000, t1 as int);
        vstd::arithmetic::div_mod::lemma_div_pos_is_pos(
            0x4000_0000_0000_0000_0000_0000,
            t1 as int,
        );
    }
    if k1 > cap {
        assert(t1 * k1 > 0x4000_0000_0000_0000_0000_0000) by (nonlinear_arith)
            requires
                t1 >= 1,
                k1 >= cap + 1,
                cap >= 0,
                0x4000_0000_0000_0000_0000_0000 == t1 * cap + 0x4000_0000_0000_0000_0000_0000int
                    % (t1 as int),
                0x4000_0000_0000_0000_0000_0000int % (t1 as int) < t1,
        ;
        return i32::MAX;
    }
    if k1 < -cap {
        assert(t1 * k1 < -0x4000_0000_0000_0000_0000_0000) by (nonlinear_arith)
            requires
                t1 >= 1,
                k1 <= -cap - 1,
                cap >= 0,
                0x4000_0000_0000_0000_0000_0000 == t1 * cap + 0x4000_0000_0000_0000_0000_0000int
                    % (t1 as int),
                0x4000_0000_0000_0000_0000_0000int % (t1 as int) < t1,
        ;
        return i32::MIN;
    }
    assert(-0x4000_0000_0000_0000_0000_0000 <= t1 * k1 <= 0x4000_0000_0000_0000_0000_0000)
        by (nonlinear_arith)
        requires
            t1 >= 1,
            -cap <= k1 <= cap,
            cap >= 0,
            0x4000_0000_0000_0000_0000_0000 == t1 * cap + 0x4000_0000_0000_0000_0000_0000int % (
            t1 as int),
            0x4000_0000_0000_0000_0000_0000int % (t1 as int) >= 0,
    ;
    let numerator: i128 = base + t1 * k1;
    // Shift the numerator above zero, divide, and shift the quotient back.
    let shift: i128 = 0x10_0000_0000_0000;
    let divisor: i128 = 0x2000_0000_0000_0000;
    let lifted: u128 = (numerator + 0x2_0000_0000_0000_0000_0000_0000_0000) as u128;
    let quotient: i128 = (lifted / 0x2000_0000_0000_0000u128) as i128 - shift;
    assert(quotient == numerator / 0x2000_0000_0000_0000) by {
        vstd::arithmetic::div_mod::lemma_fundamental_div_mod(lifted as int, divisor as int);
        let q = lifted as int / (divisor as int);
        let r = lifted as int % (divisor as int);
        assert(lifted == 0x2000_0000_0000_0000 * q + r);
        assert(lifted == numerator + 0x2_0000_0000_0000_0000_0000_0000_0000);
        assert(numerator == (q - 0x10_0000_0000_0000) * 0x2000_0000_0000_0000 + r);
        vstd::arithmetic::div_mod::lemma_fundamental_div_mod_converse(
            numerator as int,
            divisor as int,
            q - shift,
            r,
        );
    }
    narrow(quotient as i64)
}

/// A step that settles covers the pace: the point it returns lies within a
/// tenth of a world unit of `speed` from the point it started at. A step
/// settles where the bisection over one unit of the parameter comes upon such
/// a point; where it does not, the curve still moves on, to the midpoint the
/// bisection ended on.
pub proof fn law_step_keeps_pace(curve: Curve, previous: Vec2)
    requires
        curve.settles(previous),
    ensures
        near(
            curve.point_at(curve.next_time(previous)).dist2(previous),
            curve.speed as int,
        ),
        curve.from() <= curve.next_time(previous) <= curve.until(),
{
    curve.lemma_search(previous, curve.from(), curve.until());
}

} // verus!
