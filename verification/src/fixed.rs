//! Saturating Q23.40 fixed-point arithmetic.
//!
//! All signal processing in this crate works on `i64` values scaled by
//! `SAMPLE_ONE` (Q23.40).  Every operation here carries an exact contract:
//! the result equals a spec-level function of the operands, so the whole
//! rendering pipeline is deterministic by construction.

use vstd::prelude::*;

verus! {

use crate::SAMPLE_ONE;

/// Quarter circle in Q23.40 radians: `round((pi/2) * 2^40)`.
pub const PI_HALF_Q40: i64 = 1727108826179;
/// `round(2^40 / 6)`.
pub const INV6_Q40: i64 = 183251937963;
/// `round(2^40 / 120)`.
pub const INV120_Q40: i64 = 9162596898;
/// `round(2^40 / 5040)`.
pub const INV5040_Q40: i64 = 218157069;
/// `round(2^40 / 362880)`.
pub const INV362880_Q40: i64 = 3029959;
/// `round(2^40 / 39916800)`.
pub const INV39916800_Q40: i64 = 27545;
/// One quarter of a cycle of oscillator phase (`2^62`).
pub const QUARTER_CYCLE: u64 = 0x4000000000000000;

/// Magnitude of an integer.
pub open spec fn abs_spec(a: int) -> int {
    if a >= 0 {
        a
    } else {
        -a
    }
}

/// Clamp an unbounded integer into the `i64` range.
pub open spec fn sat_i64_spec(x: int) -> int {
    if x > i64::MAX as int {
        i64::MAX as int
    } else if x < i64::MIN as int {
        i64::MIN as int
    } else {
        x
    }
}

/// Saturating sum.
pub open spec fn sat_add_spec(a: int, c: int) -> int {
    sat_i64_spec(a + c)
}

/// Saturating difference.
pub open spec fn sat_sub_spec(a: int, c: int) -> int {
    sat_i64_spec(a - c)
}

/// Q23.40 product, truncated toward zero and saturated.
pub open spec fn mul_q_spec(a: int, c: int) -> int {
    let m = (abs_spec(a) * abs_spec(c)) / (SAMPLE_ONE as int);
    sat_i64_spec(
        if (a < 0) != (c < 0) {
            -m
        } else {
            m
        },
    )
}

/// Q23.40 quotient, truncated toward zero and saturated.
pub open spec fn div_q_spec(a: int, d: int) -> int {
    let m = (abs_spec(a) * (SAMPLE_ONE as int)) / abs_spec(d);
    sat_i64_spec(
        if (a < 0) != (d < 0) {
            -m
        } else {
            m
        },
    )
}

/// Mean of two values, truncated toward zero; always fits in `i64`.
pub open spec fn avg2_spec(a: int, c: int) -> int {
    let s = a + c;
    if s >= 0 {
        s / 2
    } else {
        -((-s) / 2)
    }
}

/// Mean of four values, truncated toward zero; always fits in `i64`.
pub open spec fn avg4_spec(a: int, b: int, c: int, d: int) -> int {
    let s = a + b + c + d;
    if s >= 0 {
        s / 4
    } else {
        -((-s) / 4)
    }
}

/// Magnitude of `a` as an unsigned value.
pub fn abs_mag(a: i64) -> (r: u64)
    ensures
        r as int == abs_spec(a as int),
{
    if a >= 0 {
        a as u64
    } else {
        (-(a as i128)) as u64
    }
}

/// Reassemble a sign and a magnitude into a saturated `i64`.
pub fn sat_from_parts(neg: bool, mag: u128) -> (r: i64)
    ensures
        r as int == sat_i64_spec(
            if neg {
                -(mag as int)
            } else {
                mag as int
            },
        ),
{
    if neg {
        if mag >= 9223372036854775808u128 {
            i64::MIN
        } else {
            -(mag as i64)
        }
    } else {
        if mag > 9223372036854775807u128 {
            i64::MAX
        } else {
            mag as i64
        }
    }
}

/// Saturating addition of two samples.
pub fn sat_add64(a: i64, c: i64) -> (r: i64)
    ensures
        r as int == sat_add_spec(a as int, c as int),
{
    let s: i128 = a as i128 + c as i128;
    if s > i64::MAX as i128 {
        i64::MAX
    } else if s < i64::MIN as i128 {
        i64::MIN
    } else {
        s as i64
    }
}

/// Saturating subtraction of two samples.
pub fn sat_sub64(a: i64, c: i64) -> (r: i64)
    ensures
        r as int == sat_sub_spec(a as int, c as int),
{
    let s: i128 = a as i128 - c as i128;
    if s > i64::MAX as i128 {
        i64::MAX
    } else if s < i64::MIN as i128 {
        i64::MIN
    } else {
        s as i64
    }
}

/// Q23.40 multiplication.
pub fn mul_q(a: i64, c: i64) -> (r: i64)
    ensures
        r as int == mul_q_spec(a as int, c as int),
{
    let ma = abs_mag(a);
    let mc = abs_mag(c);
    proof {
        assert((ma as int) * (mc as int) <= 85070591730234615865843651857942052864int)
            by (nonlinear_arith)
            requires
                ma as int <= 9223372036854775808int,
                mc as int <= 9223372036854775808int,
        ;
    }
    let p: u128 = (ma as u128) * (mc as u128);
    let q: u128 = p / (SAMPLE_ONE as u128);
    sat_from_parts((a < 0) != (c < 0), q)
}

/// Q23.40 division.
pub fn div_q(a: i64, d: i64) -> (r: i64)
    requires
        d != 0,
    ensures
        r as int == div_q_spec(a as int, d as int),
{
    let ma = abs_mag(a);
    let md = abs_mag(d);
    let p: u128 = (ma as u128) * (SAMPLE_ONE as u128);
    let q: u128 = p / (md as u128);
    sat_from_parts((a < 0) != (d < 0), q)
}

/// Truncated mean of two samples.
pub fn avg2(a: i64, c: i64) -> (r: i64)
    ensures
        r as int == avg2_spec(a as int, c as int),
{
    let s: i128 = a as i128 + c as i128;
    let neg = s < 0;
    let mag: u128 = if s >= 0 {
        s as u128
    } else {
        (-s) as u128
    };
    let q = mag / 2;
    sat_from_parts(neg, q)
}

/// Truncated mean of four samples.
pub fn avg4(a: i64, b: i64, c: i64, d: i64) -> (r: i64)
    ensures
        r as int == avg4_spec(a as int, b as int, c as int, d as int),
{
    let s: i128 = a as i128 + b as i128 + c as i128 + d as i128;
    let neg = s < 0;
    let mag: u128 = if s >= 0 {
        s as u128
    } else {
        (-s) as u128
    };
    let q = mag / 4;
    sat_from_parts(neg, q)
}

/// Quadrant of a phase value (0..4).
pub open spec fn sine_quadrant(phase: u64) -> int {
    (phase as int) / (QUARTER_CYCLE as int)
}

/// Offset of a phase value within its quadrant.
pub open spec fn sine_qrem(phase: u64) -> int {
    (phase as int) % (QUARTER_CYCLE as int)
}

/// Position along the ascending quarter wave, after folding the quadrant.
pub open spec fn sine_t(phase: u64) -> int {
    let q = sine_quadrant(phase);
    let rem = sine_qrem(phase);
    if q == 0 || q == 2 {
        rem
    } else {
        (QUARTER_CYCLE as int) - rem
    }
}

/// Angle in Q23.40 radians within `[0, pi/2]` for the folded quarter wave.
pub open spec fn sine_y(phase: u64) -> int {
    (sine_t(phase) * (PI_HALF_Q40 as int)) / (QUARTER_CYCLE as int)
}

/// Taylor evaluation of `sin` on the folded angle, in Q23.40.
pub open spec fn sine_poly_spec(y: int) -> int {
    let z = mul_q_spec(y, y);
    let e4 = sat_sub_spec(INV362880_Q40 as int, mul_q_spec(z, INV39916800_Q40 as int));
    let e3 = sat_sub_spec(INV5040_Q40 as int, mul_q_spec(z, e4));
    let e2 = sat_sub_spec(INV120_Q40 as int, mul_q_spec(z, e3));
    let e1 = sat_sub_spec(INV6_Q40 as int, mul_q_spec(z, e2));
    let p = sat_sub_spec(SAMPLE_ONE as int, mul_q_spec(z, e1));
    mul_q_spec(y, p)
}

/// Sine of a full-cycle phase (`2^64` steps per cycle), in Q23.40.
pub open spec fn sine_q_spec(phase: u64) -> int {
    let s = sine_poly_spec(sine_y(phase));
    if sine_quadrant(phase) >= 2 {
        sat_sub_spec(0, s)
    } else {
        s
    }
}

/// Compute the sine of a phase given as a fraction of a cycle in `2^64`
/// steps.  The result approximates `sin(2*pi*phase/2^64) * 2^40`.
pub fn sine_q(phase: u64) -> (r: i64)
    ensures
        r as int == sine_q_spec(phase),
{
    let quadrant = phase / QUARTER_CYCLE;
    let rem = phase % QUARTER_CYCLE;
    let t: u64 = if quadrant == 0 || quadrant == 2 {
        rem
    } else {
        QUARTER_CYCLE - rem
    };
    proof {
        assert((t as int) * (PI_HALF_Q40 as int) <= (QUARTER_CYCLE as int) * (
        PI_HALF_Q40 as int)) by (nonlinear_arith)
            requires
                t as int <= QUARTER_CYCLE as int,
        ;
    }
    let yw: u128 = (t as u128) * (PI_HALF_Q40 as u128);
    let y128: u128 = yw / (QUARTER_CYCLE as u128);
    let y: i64 = y128 as i64;
    let z = mul_q(y, y);
    let e4 = sat_sub64(INV362880_Q40, mul_q(z, INV39916800_Q40));
    let e3 = sat_sub64(INV5040_Q40, mul_q(z, e4));
    let e2 = sat_sub64(INV120_Q40, mul_q(z, e3));
    let e1 = sat_sub64(INV6_Q40, mul_q(z, e2));
    let p = sat_sub64(SAMPLE_ONE, mul_q(z, e1));
    let s = mul_q(y, p);
    if quadrant >= 2 {
        sat_sub64(0, s)
    } else {
        s
    }
}

/// `round(0.6960656421 * 2^40)`: cubic coefficient for `2^x` on `[0,1]`.
pub const EXP2_C1_Q40: i64 = 765332267184;
/// `round(0.224494337 * 2^40)`.
pub const EXP2_C2_Q40: i64 = 246834133901;
/// `round(0.0794384905 * 2^40)`.
pub const EXP2_C3_Q40: i64 = 87343543998;
/// `round(2^40 / 3)`.
pub const INV3_Q40: i64 = 366503875925;
/// `round(2^40 / 5)`.
pub const INV5_Q40: i64 = 219902325555;
/// `round(2^40 / 7)`.
pub const INV7_Q40: i64 = 157073089682;
/// `round((2 / ln 2) * 2^40)`.
pub const TWO_INV_LN2_Q40: i64 = 3172519945584;

/// Position of the highest set bit of `x` at or below bit `k`.
pub open spec fn msb_spec(x: int, k: nat) -> nat
    decreases k,
{
    if k == 0 {
        0
    } else if x >= vstd::arithmetic::power2::pow2(k) {
        k
    } else {
        msb_spec(x, (k - 1) as nat)
    }
}

/// `2^k` as a machine word.
pub fn pow2u(k: u64) -> (r: u64)
    requires
        k <= 63,
    ensures
        r == vstd::arithmetic::power2::pow2(k as nat),
        r >= 1,
{
    let mut i: u64 = 0;
    let mut cur: u64 = 1;
    proof {
        vstd::arithmetic::power2::lemma2_to64();
        vstd::arithmetic::power2::lemma2_to64_rest();
    }
    while i < k
        invariant
            i <= k <= 63,
            cur == vstd::arithmetic::power2::pow2(i as nat),
            cur >= 1,
        decreases k - i,
    {
        proof {
            if (i as nat) < 63 {
                vstd::arithmetic::power2::lemma_pow2_strictly_increases(i as nat, 63);
            }
            vstd::arithmetic::power2::lemma2_to64();
            vstd::arithmetic::power2::lemma2_to64_rest();
            vstd::arithmetic::power2::lemma_pow2_unfold((i + 1) as nat);
        }
        cur = cur * 2;
        i = i + 1;
    }
    cur
}

/// Highest set bit of `x` at or below bit `k`.
pub fn msb(x: u64, k: u64) -> (r: u64)
    requires
        x >= 1,
        k <= 63,
    ensures
        r == msb_spec(x as int, k as nat),
        r <= k,
    decreases k,
{
    if k == 0 {
        0
    } else if x >= pow2u(k) {
        k
    } else {
        msb(x, k - 1)
    }
}

/// `2^(x/2^40)` in Q23.40, saturated at the `i64` range, via a cubic
/// approximation of `2^f` on the fractional part.
pub open spec fn exp2_q_spec(x: int) -> int {
    let one = SAMPLE_ONE as int;
    if x >= 23 * one {
        i64::MAX as int
    } else if x < -40 * one {
        0
    } else {
        let n = x / one;
        let f = x % one;
        let p = sat_add_spec(
            one,
            mul_q_spec(f, sat_add_spec(EXP2_C1_Q40 as int, mul_q_spec(f, sat_add_spec(
                EXP2_C2_Q40 as int,
                mul_q_spec(f, EXP2_C3_Q40 as int),
            )))),
        );
        sat_i64_spec((p * vstd::arithmetic::power2::pow2((n + 40) as nat)) / one)
    }
}

/// Compute `2^(x/2^40)` in Q23.40.
pub fn exp2_q(x: i64) -> (r: i64)
    ensures
        r as int == exp2_q_spec(x as int),
{
    let one_i = SAMPLE_ONE;
    if x >= 23 * one_i {
        return i64::MAX;
    }
    if x < -40 * one_i {
        return 0;
    }
    // Floor-divide x by 2^40 into an integer part n and fraction f.
    let (n_plus_40, f): (u64, i64) = if x >= 0 {
        let ux = x as u64;
        let q = ux / (SAMPLE_ONE as u64);
        let rem = ux % (SAMPLE_ONE as u64);
        (q + 40, rem as i64)
    } else {
        let m = (-(x as i128)) as u64;
        let q = m / (SAMPLE_ONE as u64);
        let rem = m % (SAMPLE_ONE as u64);
        if rem == 0 {
            (40 - q, 0)
        } else {
            (40 - q - 1, (SAMPLE_ONE as u64 - rem) as i64)
        }
    };
    proof {
        assert(n_plus_40 == (x as int) / (SAMPLE_ONE as int) + 40);
        assert(f == (x as int) % (SAMPLE_ONE as int));
    }
    let c2 = sat_add64(EXP2_C2_Q40, mul_q(f, EXP2_C3_Q40));
    let c1 = sat_add64(EXP2_C1_Q40, mul_q(f, c2));
    let p = sat_add64(one_i, mul_q(f, c1));
    let scale = pow2u(n_plus_40);
    proof {
        vstd::arithmetic::power2::lemma2_to64();
        vstd::arithmetic::power2::lemma2_to64_rest();
        if (n_plus_40 as nat) < 63 {
            vstd::arithmetic::power2::lemma_pow2_strictly_increases(n_plus_40 as nat, 63);
        }
        assert(scale as int <= 9223372036854775808int);
        assert((p as int) * (scale as int) <= 85070591730234615865843651857942052864int)
            by (nonlinear_arith)
            requires
                p as int <= 9223372036854775808int,
                scale as int <= 9223372036854775808int,
        ;
    }
    let mag: u128 = (p as u128) * (scale as u128);
    let q128: u128 = mag / (SAMPLE_ONE as u128);
    sat_from_parts(false, q128)
}

/// `log2(x/2^40) * 2^40` for positive `x`, via the inverse-hyperbolic
/// series on the normalised mantissa; zero for non-positive `x`.
pub open spec fn log2_q_spec(x: int) -> int {
    let one = SAMPLE_ONE as int;
    if x <= 0 {
        0
    } else {
        let e = msb_spec(x, 63);
        let m = sat_i64_spec((x * one) / (vstd::arithmetic::power2::pow2(e) as int));
        let u = sat_sub_spec(m, one);
        let w = div_q_spec(u, sat_add_spec(u, 2 * one));
        let ws = mul_q_spec(w, w);
        let at = mul_q_spec(
            w,
            sat_add_spec(one, mul_q_spec(ws, sat_add_spec(INV3_Q40 as int, mul_q_spec(
                ws,
                sat_add_spec(INV5_Q40 as int, mul_q_spec(ws, INV7_Q40 as int)),
            )))),
        );
        let lg = mul_q_spec(at, TWO_INV_LN2_Q40 as int);
        sat_add_spec((e - 40) * one, lg)
    }
}

/// Compute `log2(x/2^40) * 2^40`; returns 0 for non-positive input.
pub fn log2_q(x: i64) -> (r: i64)
    ensures
        r as int == log2_q_spec(x as int),
{
    if x <= 0 {
        return 0;
    }
    let one_i = SAMPLE_ONE;
    let e = msb(x as u64, 63);
    let scale = pow2u(e);
    let m128: u128 = ((x as u64) as u128) * (SAMPLE_ONE as u128) / (scale as u128);
    proof {
        assert(((x as u64) as u128) * (SAMPLE_ONE as u128) <= (
        85070591730234615865843651857942052864u128)) by (nonlinear_arith)
            requires
                x as int <= 9223372036854775808int,
                x >= 0,
        ;
    }
    let m = sat_from_parts(false, m128);
    let u = sat_sub64(m, one_i);
    let w = div_q_helper(u, sat_add64(u, 2 * one_i));
    let ws = mul_q(w, w);
    let i5 = sat_add64(INV5_Q40, mul_q(ws, INV7_Q40));
    let i3 = sat_add64(INV3_Q40, mul_q(ws, i5));
    let series = sat_add64(one_i, mul_q(ws, i3));
    let at = mul_q(w, series);
    let lg = mul_q(at, TWO_INV_LN2_Q40);
    let diff: i64 = e as i64 - 40;
    let base: i64 = diff * one_i;
    sat_add64(base, lg)
}

/// Division that returns 0 for a zero divisor, matching `div_q_spec`
/// composition in `log2_q_spec` where the divisor is provably non-zero.
fn div_q_helper(a: i64, d: i64) -> (r: i64)
    ensures
        d != 0 ==> r as int == div_q_spec(a as int, d as int),
        d == 0 ==> r == 0,
{
    if d == 0 {
        0
    } else {
        div_q(a, d)
    }
}

/// `base^(e/2^40)` for positive `base`, via `exp2` and `log2`.
pub open spec fn pow_q_spec(base: int, e: int) -> int {
    exp2_q_spec(mul_q_spec(e, log2_q_spec(base)))
}

/// Compute `base^(e/2^40)` in Q23.40.
pub fn pow_q(base: i64, e: i64) -> (r: i64)
    ensures
        r as int == pow_q_spec(base as int, e as int),
{
    exp2_q(mul_q(e, log2_q(base)))
}

} // verus!
