//! Integer plane and space vectors for touch positions and camera
//! translations, together with an exact integer square root used for vector
//! magnitudes.

use crate::arith::iabs;
use vstd::prelude::*;

verus! {

/// A plane vector with integer coordinates: a touch position or a per-frame
/// displacement.
#[derive(Clone, Copy, Debug, PartialEq, Eq, Structural)]
pub struct Vec2I {
    pub x: i64,
    pub y: i64,
}

/// A space vector with integer coordinates: a camera translation. The `z`
/// coordinate is carried along but never changed by gestures.
#[derive(Clone, Copy, Debug, PartialEq, Eq, Structural)]
pub struct Vec3I {
    pub x: i64,
    pub y: i64,
    pub z: i64,
}

/// Both coordinates within `bound` in magnitude.
pub open spec fn vec2_within(v: Vec2I, bound: int) -> bool {
    iabs(v.x as int) <= bound && iabs(v.y as int) <= bound
}

/// All three coordinates within `bound` in magnitude.
pub open spec fn vec3_within(v: Vec3I, bound: int) -> bool {
    iabs(v.x as int) <= bound && iabs(v.y as int) <= bound && iabs(v.z as int) <= bound
}

impl Vec2I {
    /// Component-wise sum.
    pub fn add(self, other: Vec2I) -> (r: Vec2I)
        requires
            vec2_within(self, 0x2000_0000_0000_0000),
            vec2_within(other, 0x2000_0000_0000_0000),
        ensures
            r.x as int == self.x as int + other.x as int,
            r.y as int == self.y as int + other.y as int,
    {
        Vec2I { x: self.x + other.x, y: self.y + other.y }
    }

    /// Component-wise difference.
    pub fn sub(self, other: Vec2I) -> (r: Vec2I)
        requires
            vec2_within(self, 0x2000_0000_0000_0000),
            vec2_within(other, 0x2000_0000_0000_0000),
        ensures
            r.x as int == self.x as int - other.x as int,
            r.y as int == self.y as int - other.y as int,
    {
        Vec2I { x: self.x - other.x, y: self.y - other.y }
    }

    /// The dot product, exact over the integers.
    pub fn dot(self, other: Vec2I) -> (r: i64)
        requires
            vec2_within(self, 0x4000_0000),
            vec2_within(other, 0x4000_0000),
        ensures
            r as int == self.x as int * other.x as int + self.y as int * other.y as int,
    {
        proof {
            crate::arith::lemma_mul_bound(self.x as int, other.x as int, 0x4000_0000, 0x4000_0000);
            crate::arith::lemma_mul_bound(self.y as int, other.y as int, 0x4000_0000, 0x4000_0000);
        }
        self.x * other.x + self.y * other.y
    }

    /// The squared magnitude, exact over the integers and never negative.
    pub fn len_sq(self) -> (r: i64)
        requires
            vec2_within(self, 0x4000_0000),
        ensures
            r as int == self.x as int * self.x as int + self.y as int * self.y as int,
            r >= 0,
    {
        proof {
            crate::arith::lemma_mul_bound(self.x as int, self.x as int, 0x4000_0000, 0x4000_0000);
            crate::arith::lemma_mul_bound(self.y as int, self.y as int, 0x4000_0000, 0x4000_0000);
            assert(self.x as int * self.x as int >= 0) by (nonlinear_arith);
            assert(self.y as int * self.y as int >= 0) by (nonlinear_arith);
        }
        self.x * self.x + self.y * self.y
    }
}

/// The squared distance between two points.
pub open spec fn dist_sq(p: Vec2I, q: Vec2I) -> int {
    (p.x - q.x) * (p.x - q.x) + (p.y - q.y) * (p.y - q.y)
}

/// The greatest `r` with `r * r <= n`: the floor of the square root.
pub open spec fn sqrt_floor(n: nat) -> nat
    decreases n,
{
    if n == 0 {
        0
    } else {
        let r = sqrt_floor((n - 1) as nat);
        if (r + 1) * (r + 1) <= n {
            r + 1
        } else {
            r
        }
    }
}

/// `sqrt_floor` is exactly the floor of the square root: its square is at
/// most `n` and the next square is beyond `n`.
pub proof fn lemma_sqrt_floor_bounds(n: nat)
    ensures
        sqrt_floor(n) * sqrt_floor(n) <= n,
        (sqrt_floor(n) + 1) * (sqrt_floor(n) + 1) > n,
    decreases n,
{
    if n > 0 {
        lemma_sqrt_floor_bounds((n - 1) as nat);
        let r = sqrt_floor((n - 1) as nat);
        assert(r * r <= n - 1);
        if (r + 1) * (r + 1) <= n {
            assert(sqrt_floor(n) == r + 1);
            assert(n <= (r + 1) * (r + 1));
            assert((r + 2) * (r + 2) > (r + 1) * (r + 1)) by (nonlinear_arith);
            assert(sqrt_floor(n) * sqrt_floor(n) == (r + 1) * (r + 1));
            assert((sqrt_floor(n) + 1) * (sqrt_floor(n) + 1) == (r + 2) * (r + 2));
            assert(sqrt_floor(n) * sqrt_floor(n) <= n);
            assert((sqrt_floor(n) + 1) * (sqrt_floor(n) + 1) > n);
        } else {
            assert(sqrt_floor(n) == r);
            assert(sqrt_floor(n) * sqrt_floor(n) == r * r);
            assert((sqrt_floor(n) + 1) * (sqrt_floor(n) + 1) == (r + 1) * (r + 1));
            assert(sqrt_floor(n) * sqrt_floor(n) <= n);
            assert((sqrt_floor(n) + 1) * (sqrt_floor(n) + 1) > n);
        }
    } else {
        assert(sqrt_floor(n) == 0);
        assert(sqrt_floor(n) * sqrt_floor(n) <= n) by (nonlinear_arith)
            requires
                sqrt_floor(n) == 0,
                n == 0,
        ;
        assert((sqrt_floor(n) + 1) * (sqrt_floor(n) + 1) > n) by (nonlinear_arith)
            requires
                sqrt_floor(n) == 0,
                n == 0,
        ;
    }
}

/// No two distinct values satisfy the floor-square-root bounds.
pub proof fn lemma_sqrt_floor_unique(n: nat, r: nat)
    requires
        r * r <= n,
        n < (r + 1) * (r + 1),
    ensures
        r == sqrt_floor(n),
{
    lemma_sqrt_floor_bounds(n);
    let s = sqrt_floor(n);
    if r < s {
        assert((r + 1) * (r + 1) <= s * s) by (nonlinear_arith)
            requires
                r + 1 <= s,
        ;
    }
    if s < r {
        assert((s + 1) * (s + 1) <= r * r) by (nonlinear_arith)
            requires
                s + 1 <= r,
        ;
    }
}

/// If `n` lies below a square, its floor square root lies below the root.
pub proof fn lemma_sqrt_floor_below(n: nat, k: nat)
    requires
        n < k * k,
    ensures
        sqrt_floor(n) < k,
{
    lemma_sqrt_floor_bounds(n);
    let s = sqrt_floor(n);
    if s >= k {
        assert(k * k <= s * s) by (nonlinear_arith)
            requires
                k <= s,
        ;
    }
}

/// The exact floor of the square root, by binary search.
pub fn isqrt(n: u64) -> (r: u64)
    requires
        n < 0x4_0000_0000_0000,
    ensures
        r as nat == sqrt_floor(n as nat),
        r as int * r as int <= n as int,
        (r as int + 1) * (r as int + 1) > n as int,
{
    let mut lo: u64 = 0;
    let mut hi: u64 = 0x200_0000;
    while lo + 1 < hi
        invariant
            lo < hi <= 0x200_0000,
            lo as int * lo as int <= n as int,
            hi as int * hi as int > n as int,
            n < 0x4_0000_0000_0000,
        decreases hi - lo,
    {
        let mid = lo + (hi - lo) / 2;
        proof {
            assert(mid as int * mid as int <= 0x4_0000_0000_0000) by (nonlinear_arith)
                requires
                    0 <= mid <= 0x200_0000,
            ;
        }
        if mid * mid <= n {
            lo = mid;
        } else {
            hi = mid;
        }
    }
    proof {
        lemma_sqrt_floor_unique(n as nat, lo as nat);
    }
    lo
}

} // verus!
