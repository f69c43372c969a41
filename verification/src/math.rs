//! Fixed-point vectors and the integer arithmetic the simulation rests on.

use vstd::prelude::*;

verus! {

/// The nearest value to `v` that an `i32` can hold.
pub open spec fn saturate(v: int) -> int {
    if v > i32::MAX {
        i32::MAX as int
    } else if v < i32::MIN {
        i32::MIN as int
    } else {
        v
    }
}

/// Brings a wide intermediate result back into an `i32`, saturating.
pub fn narrow(v: i64) -> (r: i32)
    ensures
        r == saturate(v as int),
{
    if v > i32::MAX as i64 {
        i32::MAX
    } else if v < i32::MIN as i64 {
        i32::MIN
    } else {
        v as i32
    }
}

/// The time `a + b`, and the end of time where that cannot be told.
pub open spec fn later(a: u64, b: u64) -> u64 {
    if a + b > u64::MAX {
        u64::MAX
    } else {
        (a + b) as u64
    }
}

/// The least `r` with `n <= r * r`.
pub open spec fn ceil_sqrt(n: nat) -> nat
    decreases n,
{
    if n == 0 {
        0
    } else {
        let r = ceil_sqrt((n - 1) as nat);
        if r * r >= n {
            r
        } else {
            r + 1
        }
    }
}

/// The square of `ceil_sqrt(n)` reaches `n`.
pub proof fn lemma_ceil_sqrt_reaches(n: nat)
    ensures
        ceil_sqrt(n) * ceil_sqrt(n) >= n,
    decreases n,
{
    if n > 0 {
        let m = (n - 1) as nat;
        lemma_ceil_sqrt_reaches(m);
        let p = ceil_sqrt(m);
        if p * p < n {
            assert((p + 1) * (p + 1) >= n) by (nonlinear_arith)
                requires
                    p * p == n - 1,
            ;
        }
    }
}

/// No smaller number than `ceil_sqrt(n)` has a square that reaches `n`.
pub proof fn lemma_ceil_sqrt_least(n: nat, r: nat)
    requires
        r * r >= n,
    ensures
        ceil_sqrt(n) <= r,
    decreases n,
{
    if n > 0 {
        let m = (n - 1) as nat;
        lemma_ceil_sqrt_least(m, r);
        let p = ceil_sqrt(m);
        if p * p < n && r <= p {
            assert(r * r <= p * p) by (nonlinear_arith)
                requires
                    r <= p,
            ;
        }
    }
}

/// Rounded-up integer square root, by bisection.
pub fn isqrt_ceil(n: u128) -> (r: u128)
    ensures
        r == ceil_sqrt(n as nat),
{
    if n == 0 {
        return 0;
    }
    let mut lo: u128 = 0;
    let mut hi: u128 = 0x1_0000_0000_0000_0000;
    assert(0x1_0000_0000_0000_0000int * 0x1_0000_0000_0000_0000int > u128::MAX) by (nonlinear_arith);
    while hi - lo > 1
        invariant
            lo < hi <= 0x1_0000_0000_0000_0000,
            (lo as int) * (lo as int) < n,
            (hi as int) * (hi as int) >= n,
        decreases hi - lo,
    {
        let mid: u128 = lo + (hi - lo) / 2;
        assert((mid as int) * (mid as int) <= 0xffff_ffff_ffff_ffff * 0xffff_ffff_ffff_ffff)
            by (nonlinear_arith)
            requires
                0 <= mid <= 0xffff_ffff_ffff_ffff,
        ;
        assert(0xffff_ffff_ffff_ffffint * 0xffff_ffff_ffff_ffffint <= u128::MAX) by (nonlinear_arith);
        let sq: u128 = mid * mid;
        if sq >= n {
            hi = mid;
        } else {
            lo = mid;
        }
    }
    proof {
        let c = ceil_sqrt(n as nat);
        lemma_ceil_sqrt_reaches(n as nat);
        lemma_ceil_sqrt_least(n as nat, hi as nat);
        if c <= lo {
            assert(c * c <= lo * lo) by (nonlinear_arith)
                requires
                    c <= lo,
            ;
        }
    }
    hi
}

/// A point or a displacement in the plane, in fixed-point steps.
#[derive(Clone, Copy, Debug, PartialEq, Eq, Structural)]
pub struct Vec2 {
    pub x: i32,
    pub y: i32,
}

impl Vec2 {
    /// The vector with the given coordinates.
    pub fn new(x: i32, y: i32) -> (r: Vec2)
        ensures
            r == (Vec2 { x, y }),
    {
        Vec2 { x, y }
    }

    /// The origin.
    pub fn zero() -> (r: Vec2)
        ensures
            r == (Vec2 { x: 0, y: 0 }),
    {
        Vec2 { x: 0, y: 0 }
    }

    /// Component-wise sum, each component saturating.
    pub open spec fn plus(self, other: Vec2) -> Vec2 {
        Vec2 { x: saturate(self.x + other.x) as i32, y: saturate(self.y + other.y) as i32 }
    }

    /// Component-wise difference, each component saturating.
    pub open spec fn minus(self, other: Vec2) -> Vec2 {
        Vec2 { x: saturate(self.x - other.x) as i32, y: saturate(self.y - other.y) as i32 }
    }

    /// Squared Euclidean distance between two points.
    pub open spec fn dist2(self, other: Vec2) -> int {
        (self.x - other.x) * (self.x - other.x) + (self.y - other.y) * (self.y - other.y)
    }

    /// Squared Euclidean length.
    pub open spec fn len2(self) -> int {
        self.x * self.x + self.y * self.y
    }

    /// `self + other`, saturating in each component.
    pub fn add(self, other: Vec2) -> (r: Vec2)
        ensures
            r == self.plus(other),
    {
        Vec2 {
            x: narrow(self.x as i64 + other.x as i64),
            y: narrow(self.y as i64 + other.y as i64),
        }
    }

    /// `self - other`, saturating in each component.
    pub fn sub(self, other: Vec2) -> (r: Vec2)
        ensures
            r == self.minus(other),
    {
        Vec2 {
            x: narrow(self.x as i64 - other.x as i64),
            y: narrow(self.y as i64 - other.y as i64),
        }
    }

    /// Squared distance to `other`; it always fits.
    pub fn distance2(self, other: Vec2) -> (r: u128)
        ensures
            r == self.dist2(other),
            r <= 0x2_0000_0000_0000_0000,
    {
        let dx: i128 = self.x as i128 - other.x as i128;
        let dy: i128 = self.y as i128 - other.y as i128;
        assert(0 <= dx * dx <= 0x1_0000_0000 * 0x1_0000_0000) by (nonlinear_arith)
            requires
                -0x1_0000_0000 <= dx <= 0x1_0000_0000,
        ;
        assert(0 <= dy * dy <= 0x1_0000_0000 * 0x1_0000_0000) by (nonlinear_arith)
            requires
                -0x1_0000_0000 <= dy <= 0x1_0000_0000,
        ;
        (dx * dx + dy * dy) as u128
    }
}

} // verus!
