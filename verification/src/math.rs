//! Fixed-point vectors and the integer arithmetic shared by the systems.
//!
//! Every real quantity of the simulation is an integer counted in
//! thousandths: a length of `1000` is one world unit, a duration of `1000`
//! is one second, a factor of `1000` is one.
use vstd::prelude::*;

verus! {

/// How many thousandths make one: the scale of every fixed-point quantity.
pub const UNIT: i32 = 1000;

/// A point or a displacement of the plane.
#[derive(Clone, Copy, PartialEq, Eq, Debug, Structural)]
pub struct Vec2 {
    pub x: i32,
    pub y: i32,
}

/// A point of the plane together with its drawing depth.
#[derive(Clone, Copy, PartialEq, Eq, Debug, Structural)]
pub struct Vec3 {
    pub x: i32,
    pub y: i32,
    pub z: i32,
}

/// A heading: the cosine and the sine of an angle about the depth axis, in
/// thousandths.
#[derive(Clone, Copy, PartialEq, Eq, Debug, Structural)]
pub struct Rotation {
    pub cos: i32,
    pub sin: i32,
}

/// The integer nearest to `v` that an `i32` holds.
pub open spec fn clamp(v: int) -> int {
    if v < i32::MIN as int {
        i32::MIN as int
    } else if v > i32::MAX as int {
        i32::MAX as int
    } else {
        v
    }
}

/// The quotient of `v` by `d`, rounded towards zero.
pub open spec fn quot(v: int, d: int) -> int
    recommends
        d > 0,
{
    if v >= 0 {
        v / d
    } else {
        -((-v) / d)
    }
}

/// `v` multiplied by the factor `f`, which is in thousandths.
pub open spec fn scaled(v: int, f: int) -> int {
    clamp(quot(v * f, 1000))
}

/// `v` divided by the factor `f`, which is in thousandths; dividing by
/// nothing gives the farthest value of `v`'s sign.
pub open spec fn unscaled(v: int, f: int) -> int {
    if f > 0 {
        clamp(quot(v * 1000, f))
    } else if v > 0 {
        i32::MAX as int
    } else if v < 0 {
        i32::MIN as int
    } else {
        0
    }
}

/// Whether `r` is the square root of `n`, rounded down.
pub open spec fn is_root(n: int, r: int) -> bool {
    0 <= r && r * r <= n < (r + 1) * (r + 1)
}

/// The square root of `n`, rounded down.
pub open spec fn root(n: int) -> int {
    choose|r: int| is_root(n, r)
}

/// The heading along the displacement `(dx, dy)`: the displacement brought
/// to the length of one, each part rounded towards zero. The length is taken
/// in thousandths of the unit in which the displacement is counted. Where
/// there is no displacement, the heading is along the first axis.
pub open spec fn heading(dx: int, dy: int) -> Rotation {
    let length = root((dx * dx + dy * dy) * 1000000);
    if length == 0 {
        Rotation { cos: 1000, sin: 0 }
    } else {
        Rotation {
            cos: quot(dx * 1000000, length) as i32,
            sin: quot(dy * 1000000, length) as i32,
        }
    }
}

/// A number has one square root rounded down, and no more.
pub proof fn lemma_root_unique(n: int, r: int)
    requires
        is_root(n, r),
    ensures
        root(n) == r,
{
    let s = root(n);
    assert(is_root(n, s));
    if s < r {
        assert((s + 1) * (s + 1) <= r * r) by (nonlinear_arith)
            requires
                0 <= s,
                s + 1 <= r,
        ;
    } else if r < s {
        assert((r + 1) * (r + 1) <= s * s) by (nonlinear_arith)
            requires
                0 <= r,
                r + 1 <= s,
        ;
    }
}

/// Brings a wide integer into the range of `i32`.
pub fn saturate(v: i64) -> (r: i32)
    ensures
        r == clamp(v as int),
{
    if v < -2147483648 {
        -2147483648
    } else if v > 2147483647 {
        2147483647
    } else {
        v as i32
    }
}

/// Divides rounding towards zero.
pub fn div_trunc(v: i64, d: i64) -> (r: i64)
    requires
        d > 0,
    ensures
        r == quot(v as int, d as int),
{
    let wide: i128 = v as i128;
    let divisor: i128 = d as i128;
    if wide >= 0 {
        let q: i128 = wide / divisor;
        assert(0 <= q <= wide) by (nonlinear_arith)
            requires
                q == wide / divisor,
                wide >= 0,
                divisor > 0,
        ;
        q as i64
    } else {
        let positive: i128 = -wide;
        let q: i128 = positive / divisor;
        assert(0 <= q <= positive) by (nonlinear_arith)
            requires
                q == positive / divisor,
                positive > 0,
                divisor > 0,
        ;
        (-q) as i64
    }
}

/// The square root of `n`, rounded down.
pub fn isqrt(n: u128) -> (r: u64)
    ensures
        r == root(n as int),
        is_root(n as int, r as int),
{
    let mut low: u128 = 0;
    let mut high: u128 = 18446744073709551616;
    assert(n < high * high) by (nonlinear_arith)
        requires
            n <= 340282366920938463463374607431768211455,
            high == 18446744073709551616,
    ;
    while high - low > 1
        invariant
            low < high <= 18446744073709551616,
            low * low <= n < high * high,
        decreases high - low,
    {
        let middle: u128 = low + (high - low) / 2;
        assert(middle * middle <= 340282366920938463426481119284349108225) by (nonlinear_arith)
            requires
                0 <= middle <= 18446744073709551615,
        ;
        if middle * middle <= n {
            low = middle;
        } else {
            high = middle;
        }
    }
    proof {
        lemma_root_unique(n as int, low as int);
    }
    low as u64
}

/// The heading from `from` towards `to`.
pub fn head(from: Vec2, to: Vec2) -> (rotation: Rotation)
    ensures
        rotation == heading(to.x - from.x, to.y - from.y),
        -1000 <= rotation.cos <= 1000,
        -1000 <= rotation.sin <= 1000,
{
    let dx: i64 = (to.x as i64) - (from.x as i64);
    let dy: i64 = (to.y as i64) - (from.y as i64);
    assert(0 <= dx * dx < 18446744073709551616 && 0 <= dy * dy < 18446744073709551616)
        by (nonlinear_arith)
        requires
            -4294967296 < dx < 4294967296,
            -4294967296 < dy < 4294967296,
    ;
    let square: u128 = ((dx as i128) * (dx as i128) + (dy as i128) * (dy as i128)) as u128;
    let length: u64 = isqrt(square * 1000000);
    if length == 0 {
        return Rotation { cos: 1000, sin: 0 };
    }
    assert(-length <= dx * 1000 <= length && -length <= dy * 1000 <= length) by (nonlinear_arith)
        requires
            (dx * dx + dy * dy) * 1000000 < (length + 1) * (length + 1),
            0 <= length,
    ;
    assert(length < 8589934592000) by (nonlinear_arith)
        requires
            length * length <= square * 1000000,
            square < 36893488147419103232,
            0 <= length,
    ;
    let cos: i64 = div_trunc(dx * 1000000, length as i64);
    let sin: i64 = div_trunc(dy * 1000000, length as i64);
    assert(-1000 <= cos <= 1000) by {
        lemma_part_of_one(dx * 1000, length as int);
    }
    assert(-1000 <= sin <= 1000) by {
        lemma_part_of_one(dy * 1000, length as int);
    }
    Rotation { cos: cos as i32, sin: sin as i32 }
}

/// A part of a displacement is no longer than the displacement, so that
/// brought to the length of one it lies between minus one and one.
proof fn lemma_part_of_one(part: int, length: int)
    requires
        0 < length,
        -length <= part <= length,
    ensures
        -1000 <= quot(part * 1000, length) <= 1000,
{
    if part >= 0 {
        assert(0 <= (part * 1000) / length <= 1000) by (nonlinear_arith)
            requires
                0 <= part <= length,
                0 < length,
        ;
    } else {
        assert(0 <= ((-part) * 1000) / length <= 1000) by (nonlinear_arith)
            requires
                0 <= -part <= length,
                0 < length,
        ;
        assert(-(part * 1000) == (-part) * 1000) by (nonlinear_arith);
    }
}

/// Multiplies a quantity by a factor in thousandths.
pub fn scale(v: i32, f: i32) -> (r: i32)
    ensures
        r == scaled(v as int, f as int),
{
    assert(-4611686018427387904 <= (v as int) * (f as int) <= 4611686018427387904)
        by (nonlinear_arith)
        requires
            -2147483648 <= v <= 2147483647,
            -2147483648 <= f <= 2147483647,
    ;
    let wide: i64 = (v as i64) * (f as i64);
    saturate(div_trunc(wide, 1000))
}

impl Vec2 {
    pub fn new(x: i32, y: i32) -> (v: Vec2)
        ensures
            v == (Vec2 { x, y }),
    {
        Vec2 { x, y }
    }

    pub fn zero() -> (v: Vec2)
        ensures
            v == (Vec2 { x: 0, y: 0 }),
    {
        Vec2 { x: 0, y: 0 }
    }
}

impl Vec3 {
    pub fn new(x: i32, y: i32, z: i32) -> (v: Vec3)
        ensures
            v == (Vec3 { x, y, z }),
    {
        Vec3 { x, y, z }
    }

    pub fn zero() -> (v: Vec3)
        ensures
            v == (Vec3 { x: 0, y: 0, z: 0 }),
    {
        Vec3 { x: 0, y: 0, z: 0 }
    }

    /// The point without its depth.
    pub fn truncate(&self) -> (v: Vec2)
        ensures
            v == (Vec2 { x: self.x, y: self.y }),
    {
        Vec2 { x: self.x, y: self.y }
    }
}

} // verus!
