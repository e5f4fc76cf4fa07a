//! Angle arithmetic: floor-modulo normalization into `[0, 360)` and the
//! fixed-point trigonometry the integration system uses to turn a scalar
//! speed plus a heading in degrees into a coordinate displacement.

use vstd::prelude::*;

verus! {

/// Floor-modulo normalization of an angle in degrees into `[0, 360)`.
/// Ghost `%` is Euclidean, so for the positive modulus 360 a single `%`
/// already lands in the required range, whatever the sign of `x`.
pub open spec fn norm_deg(x: int) -> int {
    x % 360
}

/// Normalization always lands in `[0, 360)`, for any sum or difference of
/// an angle and a delta.
pub proof fn lemma_normalize_in_range(angle: int, delta: int)
    ensures
        0 <= norm_deg(angle + delta) < 360,
        0 <= norm_deg(angle - delta) < 360,
{
}

/// Executable floor-modulo normalization into `[0, 360)`.
pub fn normalize(x: i64) -> (r: u32)
    ensures
        r as int == norm_deg(x as int),
        r < 360,
{
    if x >= 0 {
        ((x as u64) % 360) as u32
    } else {
        let neg: u64 = (-(x as i128)) as u64;
        let m: u64 = neg % 360;
        proof {
            let a = -(x as int);
            let q = a / 360;
            vstd::arithmetic::div_mod::lemma_fundamental_div_mod(a, 360);
            if m == 0 {
                vstd::arithmetic::div_mod::lemma_fundamental_div_mod_converse(
                    x as int, 360, -q, 0);
            } else {
                vstd::arithmetic::div_mod::lemma_fundamental_div_mod_converse(
                    x as int, 360, -q - 1, 360 - (m as int));
            }
        }
        if m == 0 {
            0
        } else {
            (360 - m) as u32
        }
    }
}

/// Sine scaled by 1000 on `[0, 180]` degrees, as the rational approximation
/// `4000·d·(180−d) / (40500 − d·(180−d))`, which is exact at 0, 30, 90, 150
/// and 180 degrees and within 2/1000 elsewhere.
pub open spec fn half_sin_milli(d: int) -> int {
    (4000 * d * (180 - d)) / (40500 - d * (180 - d))
}

/// Sine scaled by 1000 over a full turn of degrees.
pub open spec fn sin_milli(d: int) -> int
    recommends
        0 <= d < 360,
{
    if d <= 180 {
        half_sin_milli(d)
    } else {
        -half_sin_milli(d - 180)
    }
}

/// Cosine scaled by 1000 over a full turn of degrees.
pub open spec fn cos_milli(d: int) -> int
    recommends
        0 <= d < 360,
{
    sin_milli(norm_deg(d + 90))
}

fn half_sin_milli_x(d: u32) -> (r: u32)
    requires
        d <= 180,
    ensures
        r as int == half_sin_milli(d as int),
        r <= 1000,
{
    proof {
        assert(0 <= (d as int) * (180 - d as int) <= 8100) by (nonlinear_arith)
            requires 0 <= d as int, d as int <= 180;
    }
    let p: u32 = d * (180 - d);
    let num: u32 = 4000 * p;
    let den: u32 = 40500 - p;
    let r = num / den;
    proof {
        assert(4000 * (d as int) * (180 - d as int) == 4000 * ((d as int) * (180 - d as int)))
            by (nonlinear_arith);
        assert(num as int <= 1000 * den as int);
        assert(num as int / den as int <= 1000) by (nonlinear_arith)
            requires den as int > 0, num as int <= 1000 * den as int, num as int >= 0;
    }
    r
}

/// Executable sine scaled by 1000, matching `sin_milli`.
pub fn sin_milli_x(d: u32) -> (r: i32)
    requires
        d < 360,
    ensures
        r as int == sin_milli(d as int),
        -1000 <= r as int <= 1000,
{
    if d <= 180 {
        half_sin_milli_x(d) as i32
    } else {
        -(half_sin_milli_x(d - 180) as i32)
    }
}

/// Executable cosine scaled by 1000, matching `cos_milli`.
pub fn cos_milli_x(d: u32) -> (r: i32)
    requires
        d < 360,
    ensures
        r as int == cos_milli(d as int),
        -1000 <= r as int <= 1000,
{
    sin_milli_x((d + 90) % 360)
}

/// Division by the 1000 scale factor, truncating toward zero, so that a
/// displacement never rounds away from the entity.
pub open spec fn scaled_toward_zero(p: int) -> int {
    if p >= 0 {
        p / 1000
    } else {
        -((-p) / 1000)
    }
}

/// Horizontal displacement of one integration step: `speed · cos(dir)`,
/// truncated toward zero.
pub open spec fn dx_of(speed: int, dir: int) -> int {
    scaled_toward_zero(speed * cos_milli(dir))
}

/// Vertical displacement of one integration step: `speed · sin(dir)`,
/// truncated toward zero.
pub open spec fn dy_of(speed: int, dir: int) -> int {
    scaled_toward_zero(speed * sin_milli(dir))
}

fn scale_product(speed: u32, c: i32) -> (r: i64)
    requires
        -1000 <= c <= 1000,
    ensures
        r == scaled_toward_zero(speed as int * c as int),
        -(speed as int) <= r <= speed as int,
{
    if c >= 0 {
        proof {
            assert(speed as int * c as int <= speed as int * 1000
                && speed as int * 1000 <= u32::MAX as int * 1000
                && 0 <= speed as int * c as int) by (nonlinear_arith)
                requires 0 <= c as int, c as int <= 1000, 0 <= speed as int,
                    speed as int <= u32::MAX as int;
        }
        let prod: u64 = (speed as u64) * (c as u64);
        proof {
            assert(speed as int * 1000 / 1000 == speed as int) by (nonlinear_arith);
            vstd::arithmetic::div_mod::lemma_div_is_ordered(
                speed as int * c as int, speed as int * 1000, 1000);
        }
        (prod / 1000) as i64
    } else {
        proof {
            assert(speed as int * (-c as int) <= speed as int * 1000
                && speed as int * 1000 <= u32::MAX as int * 1000
                && 0 <= speed as int * (-c as int)
                && speed as int * (-c as int) == -(speed as int * c as int)) by (nonlinear_arith)
                requires -1000 <= c as int, (c as int) < 0, 0 <= speed as int,
                    speed as int <= u32::MAX as int;
        }
        let prod: u64 = (speed as u64) * ((-c) as u64);
        proof {
            assert(speed as int * 1000 / 1000 == speed as int) by (nonlinear_arith);
            vstd::arithmetic::div_mod::lemma_div_is_ordered(
                speed as int * (-c as int), speed as int * 1000, 1000);
        }
        -((prod / 1000) as i64)
    }
}

/// Executable displacement of one integration step for a speed and a
/// heading in degrees, matching `dx_of` and `dy_of`.
pub fn displacement(speed: u32, dir: u32) -> (r: (i64, i64))
    requires
        dir < 360,
    ensures
        r.0 == dx_of(speed as int, dir as int),
        r.1 == dy_of(speed as int, dir as int),
        -(speed as int) <= r.0 <= speed as int,
        -(speed as int) <= r.1 <= speed as int,
{
    let c = cos_milli_x(dir);
    let s = sin_milli_x(dir);
    (scale_product(speed, c), scale_product(speed, s))
}

} // verus!
