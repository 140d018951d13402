//! Poses in space and the geometry behind ranging measurements.
//!
//! A pose is a point (x, y, z) in centimeters together with an orientation
//! (azimuth, elevation) in degrees. Measurements are synthesized with
//! integer arithmetic only: the distance is the floor square root of the
//! squared euclidean distance, capped at the largest reportable value, and
//! the bearing angles come from an octant-linear approximation of the
//! arc tangent, in whole degrees.

use vstd::arithmetic::div_mod::{
    lemma_div_by_multiple, lemma_div_is_ordered, lemma_div_pos_is_pos,
};
use vstd::prelude::*;

verus! {

/// Largest distance a measurement can report.
pub const MAX_DISTANCE: u16 = 65535;

/// A pose: a point in space plus an orientation.
#[derive(Clone, Copy, PartialEq, Eq, Structural, Debug)]
pub struct Position {
    pub x: i16,
    pub y: i16,
    pub z: i16,
    /// Orientation yaw in degrees.
    pub azimuth: i16,
    /// Orientation pitch in degrees.
    pub elevation: i8,
}

/// The square of an integer.
pub open spec fn sq(v: int) -> int {
    v * v
}

/// Squared euclidean distance between the points of two poses.
pub open spec fn sq_dist(a: Position, b: Position) -> int {
    sq(b.x - a.x) + sq(b.y - a.y) + sq(b.z - a.z)
}

/// Largest r <= k with r * r <= n (and 0 when there is none).
pub open spec fn isqrt_up_to(n: int, k: nat) -> int
    decreases k,
{
    if k == 0 {
        0
    } else if k * k <= n {
        k as int
    } else {
        isqrt_up_to(n, (k - 1) as nat)
    }
}

/// Floor square root capped at `MAX_DISTANCE`.
pub open spec fn capped_isqrt(n: int) -> int {
    isqrt_up_to(n, MAX_DISTANCE as nat)
}

/// Distance reported from `a` to `b`.
pub open spec fn spec_distance(a: Position, b: Position) -> int {
    capped_isqrt(sq_dist(a, b))
}

/// Octant-linear approximation of the arc tangent of `y / x` in whole
/// degrees, in [-180, 180]. Within each octant the angle is interpolated
/// linearly between 0 and 45 degrees.
pub open spec fn spec_atan2_deg(y: int, x: int) -> int {
    let ax = if x < 0 { -x } else { x };
    let ay = if y < 0 { -y } else { y };
    let t = if ax == 0 && ay == 0 {
        0
    } else if ay <= ax {
        45 * ay / ax
    } else {
        90 - 45 * ax / ay
    };
    if x >= 0 && y >= 0 {
        t
    } else if x < 0 && y >= 0 {
        180 - t
    } else if x < 0 {
        -180 + t
    } else {
        -t
    }
}

/// `v` normalized into [-180, 179] degrees. The offset 33300 is
/// congruent to 180 modulo 360 and large enough to make the dividend
/// non-negative for every angle difference that can arise, so the
/// result is the representative of `v`'s residue class shifted into
/// the signed half-open range.
pub open spec fn norm_deg(v: int) -> int {
    (v + 33300) % 360 - 180
}

/// Clamp `v` into [lo, hi].
pub open spec fn clamp(v: int, lo: int, hi: int) -> int {
    if v < lo {
        lo
    } else if v > hi {
        hi
    } else {
        v
    }
}

/// Bearing azimuth reported by `a` toward `b`: the plane angle of the
/// difference vector, relative to a's own yaw, normalized to [-180, 179].
pub open spec fn spec_azimuth(a: Position, b: Position) -> int {
    norm_deg(spec_atan2_deg(b.y - a.y, b.x - a.x) - a.azimuth)
}

/// Bearing elevation reported by `a` toward `b`: the angle of the
/// difference vector above the horizontal plane, relative to a's own
/// pitch, clamped to [-90, 90].
pub open spec fn spec_elevation(a: Position, b: Position) -> int {
    let h = isqrt_up_to(sq(b.x - a.x) + sq(b.y - a.y), MAX_DISTANCE as nat);
    clamp(spec_atan2_deg(b.z - a.z, h) - a.elevation, -90, 90)
}

/// `isqrt_up_to(n, k)` is the unique `r` with `r * r <= n` that is either
/// `k` itself or has `(r + 1) * (r + 1) > n`.
proof fn lemma_isqrt_up_to_unique(n: int, r: int, k: nat)
    requires
        0 <= r <= k,
        r * r <= n,
        r == k || (r + 1) * (r + 1) > n,
    ensures
        isqrt_up_to(n, k) == r,
    decreases k,
{
    if k == r {
        if k > 0 {
            assert(k * k <= n);
        }
    } else {
        assert(k >= r + 1);
        assert(k * k >= (r + 1) * (r + 1)) by (nonlinear_arith)
            requires
                k >= r + 1,
                r + 1 >= 1,
        ;
        assert(!(k * k <= n));
        lemma_isqrt_up_to_unique(n, r, (k - 1) as nat);
    }
}

/// Squaring a difference does not depend on the order of its operands.
proof fn lemma_sq_symmetric(p: int, q: int)
    ensures
        sq(p - q) == sq(q - p),
{
    assert((p - q) * (p - q) == (q - p) * (q - p)) by (nonlinear_arith);
}

/// Squared distance does not depend on the order of its endpoints.
pub proof fn lemma_sq_dist_symmetric(a: Position, b: Position)
    ensures
        sq_dist(a, b) == sq_dist(b, a),
{
    lemma_sq_symmetric(b.x as int, a.x as int);
    lemma_sq_symmetric(b.y as int, a.y as int);
    lemma_sq_symmetric(b.z as int, a.z as int);
}

/// The reported distance is symmetric: `a` measures `b` as far away as
/// `b` measures `a`. The bearing angles are not symmetric.
pub proof fn lemma_distance_symmetric(a: Position, b: Position)
    ensures
        spec_distance(a, b) == spec_distance(b, a),
{
    lemma_sq_dist_symmetric(a, b);
}

/// The arc tangent approximation stays within [-180, 180], and within
/// [-90, 90] whenever `x` is non-negative.
pub proof fn lemma_atan2_deg_range(y: int, x: int)
    ensures
        -180 <= spec_atan2_deg(y, x) <= 180,
        x >= 0 ==> -90 <= spec_atan2_deg(y, x) <= 90,
{
    let ax = if x < 0 { -x } else { x };
    let ay = if y < 0 { -y } else { y };
    if ax == 0 && ay == 0 {
    } else if ay <= ax {
        lemma_div_pos_is_pos(45 * ay, ax);
        lemma_div_is_ordered(45 * ay, 45 * ax, ax);
        lemma_div_by_multiple(45, ax);
        assert(45 * ay / ax <= 45);
    } else {
        lemma_div_pos_is_pos(45 * ax, ay);
        lemma_div_is_ordered(45 * ax, 45 * ay, ay);
        lemma_div_by_multiple(45, ay);
        assert(45 * ax / ay <= 45);
    }
}

/// Floor square root of `n`, capped at `MAX_DISTANCE`.
pub fn isqrt_capped(n: u64) -> (r: u16)
    ensures
        r as int == capped_isqrt(n as int),
{
    if n >= 65535 * 65535 {
        proof {
            assert(65535 * 65535 <= n);
        }
        return 65535;
    }
    let mut r: u64 = 0;
    // `s` tracks (r + 1) * (r + 1) so that the loop needs no multiplication.
    let mut s: u64 = 1;
    while s <= n
        invariant
            n < 65535 * 65535,
            r <= 65534,
            r * r <= n,
            s == (r + 1) * (r + 1),
        decreases n - r * r,
    {
        proof {
            assert(r + 1 < 65535) by (nonlinear_arith)
                requires
                    (r + 1) * (r + 1) <= n,
                    n < 65535 * 65535,
                    0 <= r,
                    s == (r + 1) * (r + 1),
                    s <= n,
            ;
            assert((r + 2) * (r + 2) == (r + 1) * (r + 1) + 2 * (r + 1) + 1) by (nonlinear_arith);
            assert((r + 1) * (r + 1) > r * r) by (nonlinear_arith)
                requires
                    0 <= r,
            ;
        }
        s = s + 2 * (r + 1) + 1;
        r = r + 1;
    }
    proof {
        lemma_isqrt_up_to_unique(n as int, r as int, 65535);
    }
    r as u16
}

/// Arc tangent approximation of `y / x` in whole degrees.
/// Both coordinates must be small enough that the interpolation
/// arithmetic stays in range.
pub fn atan2_deg(y: i32, x: i32) -> (r: i16)
    requires
        -70000 <= y <= 70000,
        -70000 <= x <= 70000,
    ensures
        r as int == spec_atan2_deg(y as int, x as int),
        -180 <= r <= 180,
{
    let ax: u32 = if x < 0 { (-x) as u32 } else { x as u32 };
    let ay: u32 = if y < 0 { (-y) as u32 } else { y as u32 };
    let t: u32;
    if ax == 0 && ay == 0 {
        t = 0;
    } else if ay <= ax {
        t = 45 * ay / ax;
    } else {
        let q: u32 = 45 * ax / ay;
        proof {
            lemma_div_is_ordered(45 * (ax as int), 45 * (ay as int), ay as int);
            lemma_div_by_multiple(45, ay as int);
        }
        t = 90 - q;
    }
    proof {
        lemma_atan2_deg_range(y as int, x as int);
    }
    if x >= 0 && y >= 0 {
        t as i16
    } else if x < 0 && y >= 0 {
        (180 - t as i32) as i16
    } else if x < 0 {
        (-180 + t as i32) as i16
    } else {
        -(t as i16)
    }
}

/// Square of a small signed coordinate difference.
fn sq_exec(v: i32) -> (r: u64)
    requires
        -65535 <= v <= 65535,
    ensures
        r as int == sq(v as int),
        r <= 65535 * 65535,
{
    proof {
        assert(0 <= v as int * v as int <= 65535 * 65535) by (nonlinear_arith)
            requires
                -65535 <= v <= 65535,
        ;
    }
    let w: i64 = v as i64;
    (w * w) as u64
}

/// Normalize an angle difference into [-180, 179] degrees.
fn norm_deg_exec(v: i32) -> (r: i16)
    requires
        -33300 <= v <= 33300,
    ensures
        r as int == norm_deg(v as int),
        -180 <= r <= 179,
{
    let m: u32 = ((v + 33300) as u32) % 360;
    (m as i32 - 180) as i16
}

impl Position {
    /// Build a pose; the fields are taken as given.
    pub fn new(x: i16, y: i16, z: i16, azimuth: i16, elevation: i8) -> (r: Position)
        ensures
            r == (Position { x, y, z, azimuth, elevation }),
    {
        Position { x, y, z, azimuth, elevation }
    }

    /// Pose at the origin, facing forward.
    pub fn default_pose() -> (r: Position)
        ensures
            r == (Position { x: 0i16, y: 0i16, z: 0i16, azimuth: 0i16, elevation: 0i8 }),
    {
        Position { x: 0, y: 0, z: 0, azimuth: 0, elevation: 0 }
    }

    /// Measure the pose `other` from `self`: distance, bearing azimuth and
    /// bearing elevation, as a real controller would report them.
    pub fn compute_range_azimuth_elevation(&self, other: &Position) -> (r: (u16, i16, i8))
        ensures
            r.0 as int == spec_distance(*self, *other),
            r.1 as int == spec_azimuth(*self, *other),
            r.2 as int == spec_elevation(*self, *other),
            -180 <= r.1 <= 179,
            -90 <= r.2 <= 90,
    {
        let dx: i32 = other.x as i32 - self.x as i32;
        let dy: i32 = other.y as i32 - self.y as i32;
        let dz: i32 = other.z as i32 - self.z as i32;

        let sqx: u64 = sq_exec(dx);
        let sqy: u64 = sq_exec(dy);
        let sqz: u64 = sq_exec(dz);
        let distance: u16 = isqrt_capped(sqx + sqy + sqz);

        let raw_azimuth: i16 = atan2_deg(dy, dx);
        let azimuth: i16 = norm_deg_exec(raw_azimuth as i32 - self.azimuth as i32);

        let horizontal: u16 = isqrt_capped(sqx + sqy);
        proof {
            lemma_atan2_deg_range(dz as int, horizontal as int);
        }
        let raw_elevation: i16 = atan2_deg(dz, horizontal as i32);
        let diff: i32 = raw_elevation as i32 - self.elevation as i32;
        let elevation: i8 = if diff < -90 {
            -90
        } else if diff > 90 {
            90
        } else {
            diff as i8
        };

        (distance, azimuth, elevation)
    }
}

} // verus!
