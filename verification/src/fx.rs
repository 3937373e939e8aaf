//! Saturating fixed-point scalars and 2D vectors.
//!
//! A scalar is an `i64` counting micro-units: the raw value `1_000_000` stands
//! for one. Every operation saturates at `FX_MAX`, so arithmetic is total and
//! no overflow can occur anywhere in the simulation.

use vstd::prelude::*;

verus! {

/// Raw units per one: a raw value counts multiples of `1 / SCALE`.
pub const SCALE: i64 = 1_000_000;

/// Largest raw magnitude any scalar may hold; operations clamp here.
pub const FX_MAX: i64 = 1_000_000_000_000;

/// Half of a turn, in raw micro-radians.
pub const PI_FX: i64 = 3_141_593;

/// A full turn, in raw micro-radians.
pub const TWO_PI_FX: i64 = 6_283_185;

/// A quarter turn, in raw micro-radians.
pub const HALF_PI_FX: i64 = 1_570_796;

pub open spec fn in_range(x: int) -> bool {
    -(FX_MAX as int) <= x <= FX_MAX as int
}

/// Saturation: clamp a mathematical integer into the representable range.
pub open spec fn sat(x: int) -> int {
    if x > FX_MAX as int {
        FX_MAX as int
    } else if x < -(FX_MAX as int) {
        -(FX_MAX as int)
    } else {
        x
    }
}

pub open spec fn abs_i(x: int) -> int {
    if x >= 0 { x } else { -x }
}

/// Exact meaning of fixed-point multiplication before saturation: the product
/// scaled down by `SCALE`, with the quotient rounded toward zero.
pub open spec fn mul_scaled(a: int, b: int) -> int {
    let m = (abs_i(a) * abs_i(b)) / (SCALE as int);
    if (a < 0) != (b < 0) { -m } else { m }
}

/// Exact meaning of fixed-point division before saturation: the dividend
/// scaled up by `SCALE`, with the quotient rounded toward zero.
pub open spec fn div_scaled(a: int, b: int) -> int {
    let m = (abs_i(a) * (SCALE as int)) / abs_i(b);
    if (a < 0) != (b < 0) { -m } else { m }
}

pub open spec fn clamp_i(x: int, lo: int, hi: int) -> int {
    if x < lo { lo } else if x > hi { hi } else { x }
}

pub fn fx_add(a: i64, b: i64) -> (r: i64)
    requires
        in_range(a as int),
        in_range(b as int),
    ensures
        r as int == sat(a as int + b as int),
{
    let s: i64 = a + b;
    if s > FX_MAX {
        FX_MAX
    } else if s < -FX_MAX {
        -FX_MAX
    } else {
        s
    }
}

pub fn fx_sub(a: i64, b: i64) -> (r: i64)
    requires
        in_range(a as int),
        in_range(b as int),
    ensures
        r as int == sat(a as int - b as int),
{
    let s: i64 = a - b;
    if s > FX_MAX {
        FX_MAX
    } else if s < -FX_MAX {
        -FX_MAX
    } else {
        s
    }
}

pub fn fx_neg(a: i64) -> (r: i64)
    requires
        in_range(a as int),
    ensures
        r as int == -(a as int),
{
    -a
}

pub fn fx_abs(a: i64) -> (r: i64)
    requires
        in_range(a as int),
    ensures
        r as int == abs_i(a as int),
{
    if a < 0 { -a } else { a }
}

pub fn fx_min(a: i64, b: i64) -> (r: i64)
    ensures
        r as int == if a as int <= b as int { a as int } else { b as int },
{
    if a <= b { a } else { b }
}

pub fn fx_max(a: i64, b: i64) -> (r: i64)
    ensures
        r as int == if a as int >= b as int { a as int } else { b as int },
{
    if a >= b { a } else { b }
}

pub fn fx_clamp(x: i64, lo: i64, hi: i64) -> (r: i64)
    requires
        lo <= hi,
    ensures
        r as int == clamp_i(x as int, lo as int, hi as int),
{
    if x < lo {
        lo
    } else if x > hi {
        hi
    } else {
        x
    }
}

pub fn fx_mul(a: i64, b: i64) -> (r: i64)
    requires
        in_range(a as int),
        in_range(b as int),
    ensures
        r as int == sat(mul_scaled(a as int, b as int)),
{
    let neg: bool = (a < 0) != (b < 0);
    let ma: u128 = if a >= 0 { a as u128 } else { (-(a as i128)) as u128 };
    let mb: u128 = if b >= 0 { b as u128 } else { (-(b as i128)) as u128 };
    proof {
        assert(ma as int == abs_i(a as int));
        assert(mb as int == abs_i(b as int));
        assert((ma as int) * (mb as int) <= 1_000_000_000_000int * 1_000_000_000_000int)
            by (nonlinear_arith)
            requires
                0 <= ma as int <= 1_000_000_000_000int,
                0 <= mb as int <= 1_000_000_000_000int,
        ;
    }
    let p: u128 = ma * mb;
    let q: u128 = p / (SCALE as u128);
    let qc: u128 = if q > (FX_MAX as u128) {
        FX_MAX as u128
    } else {
        q
    };
    if neg {
        -(qc as i64)
    } else {
        qc as i64
    }
}

pub fn fx_div(a: i64, b: i64) -> (r: i64)
    requires
        in_range(a as int),
        in_range(b as int),
        b != 0,
    ensures
        r as int == sat(div_scaled(a as int, b as int)),
{
    let neg: bool = (a < 0) != (b < 0);
    let ma: u128 = if a >= 0 { a as u128 } else { (-(a as i128)) as u128 };
    let mb: u128 = if b >= 0 { b as u128 } else { (-(b as i128)) as u128 };
    proof {
        assert(ma as int == abs_i(a as int));
        assert(mb as int == abs_i(b as int));
        assert((ma as int) * 1_000_000int <= 1_000_000_000_000int * 1_000_000int)
            by (nonlinear_arith)
            requires
                0 <= ma as int <= 1_000_000_000_000int,
        ;
    }
    let p: u128 = ma * (SCALE as u128);
    let q: u128 = p / mb;
    let qc: u128 = if q > (FX_MAX as u128) {
        FX_MAX as u128
    } else {
        q
    };
    if neg {
        -(qc as i64)
    } else {
        qc as i64
    }
}

pub open spec fn is_sqrt(n: int, r: int) -> bool {
    &&& 0 <= r
    &&& r * r <= n
    &&& n < (r + 1) * (r + 1)
}

/// Exact integer square root of `x * SCALE`, which is the fixed-point square
/// root of `x` rounded toward zero.
pub fn fx_sqrt(x: i64) -> (r: i64)
    requires
        0 <= x,
        in_range(x as int),
    ensures
        is_sqrt(x as int * SCALE as int, r as int),
        0 <= r <= FX_MAX,
{
    let n: u128 = (x as u128) * (SCALE as u128);
    let mut lo: u128 = 0;
    let mut hi: u128 = 1_000_000_001;
    proof {
        assert((x as int) * (SCALE as int) <= 1_000_000_000_000int * 1_000_000int)
            by (nonlinear_arith)
            requires
                0 <= x as int <= 1_000_000_000_000int,
        ;
    }
    while lo + 1 < hi
        invariant
            (lo as int) * (lo as int) <= n as int,
            (n as int) < (hi as int) * (hi as int),
            lo < hi <= 1_000_000_001,
        decreases hi - lo,
    {
        let mid: u128 = lo + (hi - lo) / 2;
        proof {
            assert((mid as int) * (mid as int) <= 1_000_000_001int * 1_000_000_001int)
                by (nonlinear_arith)
                requires
                    0 <= mid as int <= 1_000_000_001int,
            ;
        }
        if mid * mid <= n {
            lo = mid;
        } else {
            hi = mid;
        }
    }
    lo as i64
}

/// The integer square root is unique: two roots of the same radicand agree.
pub proof fn lemma_isqrt_unique(n: int, r1: int, r2: int)
    requires
        is_sqrt(n, r1),
        is_sqrt(n, r2),
    ensures
        r1 == r2,
{
    if r1 < r2 {
        assert((r1 + 1) * (r1 + 1) <= r2 * r2) by (nonlinear_arith)
            requires
                0 <= r1,
                0 <= r2,
                r1 < r2,
        ;
    }
    if r2 < r1 {
        assert((r2 + 1) * (r2 + 1) <= r1 * r1) by (nonlinear_arith)
            requires
                0 <= r1,
                0 <= r2,
                r2 < r1,
        ;
    }
}

/// Saturated scaled product: the exact value of `fx_mul`.
pub open spec fn sm(a: int, b: int) -> int {
    sat(mul_scaled(a, b))
}

/// Saturated sum: the exact value of `fx_add`.
pub open spec fn sadd(a: int, b: int) -> int {
    sat(a + b)
}

/// Saturated difference: the exact value of `fx_sub`.
pub open spec fn ssub(a: int, b: int) -> int {
    sat(a - b)
}

#[derive(Clone, Copy, PartialEq, Eq, Structural, Debug)]
pub struct Vec2 {
    pub x: i64,
    pub y: i64,
}

pub open spec fn v2_in_range(v: Vec2) -> bool {
    in_range(v.x as int) && in_range(v.y as int)
}

pub fn v2_new(x: i64, y: i64) -> (r: Vec2)
    requires
        in_range(x as int),
        in_range(y as int),
    ensures
        r.x == x,
        r.y == y,
{
    Vec2 { x, y }
}

pub fn v2_zero() -> (r: Vec2)
    ensures
        r.x == 0,
        r.y == 0,
{
    Vec2 { x: 0, y: 0 }
}

pub fn v2_add(a: Vec2, b: Vec2) -> (r: Vec2)
    requires
        v2_in_range(a),
        v2_in_range(b),
    ensures
        r.x as int == sadd(a.x as int, b.x as int),
        r.y as int == sadd(a.y as int, b.y as int),
        v2_in_range(r),
{
    Vec2 { x: fx_add(a.x, b.x), y: fx_add(a.y, b.y) }
}

pub fn v2_sub(a: Vec2, b: Vec2) -> (r: Vec2)
    requires
        v2_in_range(a),
        v2_in_range(b),
    ensures
        r.x as int == ssub(a.x as int, b.x as int),
        r.y as int == ssub(a.y as int, b.y as int),
        v2_in_range(r),
{
    Vec2 { x: fx_sub(a.x, b.x), y: fx_sub(a.y, b.y) }
}

pub fn v2_scale(a: Vec2, k: i64) -> (r: Vec2)
    requires
        v2_in_range(a),
        in_range(k as int),
    ensures
        r.x as int == sm(a.x as int, k as int),
        r.y as int == sm(a.y as int, k as int),
        v2_in_range(r),
{
    Vec2 { x: fx_mul(a.x, k), y: fx_mul(a.y, k) }
}

/// Exact value of the saturating dot product.
pub open spec fn dot_spec(a: Vec2, b: Vec2) -> int {
    sadd(sm(a.x as int, b.x as int), sm(a.y as int, b.y as int))
}

pub fn v2_dot(a: Vec2, b: Vec2) -> (r: i64)
    requires
        v2_in_range(a),
        v2_in_range(b),
    ensures
        r as int == dot_spec(a, b),
        in_range(r as int),
{
    fx_add(fx_mul(a.x, b.x), fx_mul(a.y, b.y))
}

/// Exact value of the saturating 2D cross product (a scalar in 2D).
pub open spec fn cross_spec(a: Vec2, b: Vec2) -> int {
    ssub(sm(a.x as int, b.y as int), sm(a.y as int, b.x as int))
}

pub fn v2_cross(a: Vec2, b: Vec2) -> (r: i64)
    requires
        v2_in_range(a),
        v2_in_range(b),
    ensures
        r as int == cross_spec(a, b),
        in_range(r as int),
{
    fx_sub(fx_mul(a.x, b.y), fx_mul(a.y, b.x))
}

/// Exact value of rotating `v` by the rotation whose cosine is `c` and sine is `s`.
pub open spec fn rot_spec(v: Vec2, c: int, s: int) -> (int, int) {
    (
        ssub(sm(c, v.x as int), sm(s, v.y as int)),
        sadd(sm(s, v.x as int), sm(c, v.y as int)),
    )
}

pub fn v2_rotate(v: Vec2, c: i64, s: i64) -> (r: Vec2)
    requires
        v2_in_range(v),
        in_range(c as int),
        in_range(s as int),
    ensures
        r.x as int == rot_spec(v, c as int, s as int).0,
        r.y as int == rot_spec(v, c as int, s as int).1,
        v2_in_range(r),
{
    Vec2 { x: fx_sub(fx_mul(c, v.x), fx_mul(s, v.y)), y: fx_add(fx_mul(s, v.x), fx_mul(c, v.y)) }
}

/// Sine of an angle given in raw micro-radians, by range reduction and a
/// seventh-order polynomial; the result is clamped into `[-SCALE, SCALE]`,
/// and the quarter-turn landmarks are exact.
pub fn sin_fx(x: i64) -> (r: i64)
    requires
        in_range(x as int),
    ensures
        -(SCALE as int) <= r as int <= SCALE as int,
        x == 0 ==> r == 0,
        x == HALF_PI_FX ==> r == SCALE,
        x == -HALF_PI_FX ==> r == -SCALE,
        x == PI_FX || x == -PI_FX ==> r == 0,
{
    if x == 0 || x == PI_FX || x == -PI_FX {
        return 0;
    }
    if x == HALF_PI_FX {
        return SCALE;
    }
    if x == -HALF_PI_FX {
        return -SCALE;
    }
    let mag: u64 = if x >= 0 {
        x as u64
    } else {
        (-(x as i128)) as u64
    };
    let m: u64 = mag % (TWO_PI_FX as u64);
    // fold into (-PI, PI]
    let mut a: i64 = if m > (PI_FX as u64) {
        (m as i64) - TWO_PI_FX
    } else {
        m as i64
    };
    if x < 0 {
        a = -a;
    }
    // fold into [-HALF_PI, HALF_PI]
    if a > HALF_PI_FX {
        a = PI_FX - a;
    } else if a < -HALF_PI_FX {
        a = -PI_FX - a;
    }
    let a2: i64 = fx_mul(a, a);
    let a3: i64 = fx_mul(a2, a);
    let a5: i64 = fx_mul(a3, a2);
    let a7: i64 = fx_mul(a5, a2);
    // 1/6, 1/120, 1/5040 in raw units
    let t: i64 = fx_sub(fx_add(fx_sub(a, fx_mul(a3, 166_667)), fx_mul(a5, 8_333)), fx_mul(
        a7,
        198,
    ));
    fx_clamp(t, -SCALE, SCALE)
}

/// Cosine of an angle given in raw micro-radians, via the sine of the angle
/// shifted by a quarter turn; the result is clamped into `[-SCALE, SCALE]`,
/// and the quarter-turn landmarks are exact.
pub fn cos_fx(x: i64) -> (r: i64)
    requires
        in_range(x as int),
    ensures
        -(SCALE as int) <= r as int <= SCALE as int,
        x == 0 ==> r == SCALE,
        x == HALF_PI_FX || x == -HALF_PI_FX ==> r == 0,
        x == PI_FX || x == -PI_FX ==> r == -SCALE,
{
    if x == 0 {
        return SCALE;
    }
    if x == HALF_PI_FX || x == -HALF_PI_FX {
        return 0;
    }
    if x == PI_FX || x == -PI_FX {
        return -SCALE;
    }
    sin_fx(fx_add(x, HALF_PI_FX))
}

} // verus!
