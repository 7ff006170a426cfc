//! Integer points and vectors of the world plane and of the screen.

use vstd::prelude::*;

verus! {

/// A point of the world plane, in whole world units.
#[derive(Clone, Copy, Debug, PartialEq, Eq, Structural)]
pub struct WorldPoint {
    pub x: i64,
    pub y: i64,
}

/// A displacement in the world plane, in whole world units.
#[derive(Clone, Copy, Debug, PartialEq, Eq, Structural)]
pub struct WorldVector {
    pub x: i64,
    pub y: i64,
}

/// A point of the window, in whole pixels.
#[derive(Clone, Copy, Debug, PartialEq, Eq, Structural)]
pub struct ScreenPoint {
    pub x: i32,
    pub y: i32,
}

/// The square of the distance between two world points.
pub open spec fn world_distance_squared(a: WorldPoint, b: WorldPoint) -> int {
    (a.x - b.x) * (a.x - b.x) + (a.y - b.y) * (a.y - b.y)
}

/// The square of the distance between two screen points.
pub open spec fn screen_distance_squared(a: ScreenPoint, b: ScreenPoint) -> int {
    (a.x - b.x) * (a.x - b.x) + (a.y - b.y) * (a.y - b.y)
}

/// Whether two world points are at most `radius` apart.
pub fn world_within(a: WorldPoint, b: WorldPoint, radius: u32) -> (near: bool)
    ensures
        near == (world_distance_squared(a, b) <= radius * radius),
{
    let dx: i128 = a.x as i128 - b.x as i128;
    let dy: i128 = a.y as i128 - b.y as i128;
    let r: i128 = radius as i128;
    if dx > r || dx < -r || dy > r || dy < -r {
        proof {
            assert(dx * dx + dy * dy > r * r) by (nonlinear_arith)
                requires
                    dx > r || dx < -r || dy > r || dy < -r,
                    r >= 0,
            ;
        }
        false
    } else {
        proof {
            assert(0 <= dx * dx <= r * r && 0 <= dy * dy <= r * r && r * r <= 0x1_0000_0000
                * 0x1_0000_0000) by (nonlinear_arith)
                requires
                    -r <= dx <= r,
                    -r <= dy <= r,
                    0 <= r < 0x1_0000_0000,
            ;
        }
        dx * dx + dy * dy <= r * r
    }
}

/// Whether two screen points are less than `radius` apart.
pub fn screen_closer_than(a: ScreenPoint, b: ScreenPoint, radius: u32) -> (near: bool)
    ensures
        near == (screen_distance_squared(a, b) < radius * radius),
{
    let dx: i128 = a.x as i128 - b.x as i128;
    let dy: i128 = a.y as i128 - b.y as i128;
    let r: i128 = radius as i128;
    proof {
        assert(0 <= dx * dx <= 0x1_0000_0000 * 0x1_0000_0000 && 0 <= dy * dy <= 0x1_0000_0000
            * 0x1_0000_0000 && 0 <= r * r <= 0x1_0000_0000 * 0x1_0000_0000) by (nonlinear_arith)
            requires
                -0x1_0000_0000 <= dx <= 0x1_0000_0000,
                -0x1_0000_0000 <= dy <= 0x1_0000_0000,
                0 <= r < 0x1_0000_0000,
        ;
    }
    dx * dx + dy * dy < r * r
}

/// The largest integer that is at most `a / d`, for a positive divisor.
pub open spec fn floor_div(a: int, d: int) -> int
    recommends
        d > 0,
{
    a / d
}

/// `v` held to the closed range from `lo` to `hi`.
pub open spec fn clamp(v: int, lo: int, hi: int) -> int {
    if v < lo {
        lo
    } else if v > hi {
        hi
    } else {
        v
    }
}

/// Floor division of a signed number by a positive divisor.
pub fn div_floor(a: i64, d: i64) -> (q: i64)
    requires
        d > 0,
    ensures
        q == floor_div(a as int, d as int),
{
    let q: i128 = div_floor_wide(a as i128, d as i128);
    proof {
        let ai: int = a as int;
        let di: int = d as int;
        assert(ai == di * (ai / di) + ai % di) by {
            vstd::arithmetic::div_mod::lemma_fundamental_div_mod(ai, di);
        }
        assert(0 <= ai % di < di) by {
            vstd::arithmetic::div_mod::lemma_mod_bound(ai, di);
        }
        assert(i64::MIN <= ai / di <= i64::MAX) by (nonlinear_arith)
            requires
                ai == di * (ai / di) + ai % di,
                0 <= ai % di < di,
                i64::MIN <= ai <= i64::MAX,
                di >= 1,
        ;
    }
    q as i64
}

/// Floor division of a wide signed number by a positive divisor.
pub fn div_floor_wide(a: i128, d: i128) -> (q: i128)
    requires
        d > 0,
    ensures
        q == floor_div(a as int, d as int),
{
    if a >= 0 {
        a / d
    } else {
        // -(a + 1) is in range even for the least value.
        let m: i128 = -(a + 1);
        let q: i128 = m / d;
        proof {
            let mi: int = m as int;
            let di: int = d as int;
            let ai: int = a as int;
            assert(mi == di * (mi / di) + mi % di) by {
                vstd::arithmetic::div_mod::lemma_fundamental_div_mod(mi, di);
            }
            let r: int = di - 1 - mi % di;
            assert(0 <= mi % di < di) by {
                vstd::arithmetic::div_mod::lemma_mod_bound(mi, di);
            }
            assert(ai == di * (-(mi / di) - 1) + r) by (nonlinear_arith)
                requires
                    mi == di * (mi / di) + mi % di,
                    ai == -mi - 1,
                    r == di - 1 - mi % di,
            ;
            assert(ai / di == -(mi / di) - 1) by {
                vstd::arithmetic::div_mod::lemma_fundamental_div_mod_converse(
                    ai,
                    di,
                    -(mi / di) - 1,
                    r,
                );
            }
            assert(0 <= mi / di <= mi) by {
                vstd::arithmetic::div_mod::lemma_div_pos_is_pos(mi, di);
                vstd::arithmetic::div_mod::lemma_div_is_ordered_by_denominator(mi, 1, di);
                vstd::arithmetic::div_mod::lemma_div_basics(mi);
            }
        }
        -q - 1
    }
}

} // verus!
