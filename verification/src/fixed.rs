//! Fixed-point arithmetic kernel.
//!
//! Probabilities, decimal odds, strengths, rates and money amounts are all
//! integers scaled by [`SCALE`] (one unit is `1 / 1_000_000`). The helpers
//! here state their results exactly over mathematical integers, so callers
//! can reason about the domain formulas without touching machine widths.

use vstd::prelude::*;

verus! {

/// One whole unit in fixed-point representation: 10^6.
pub const SCALE: u64 = 1_000_000;

/// Signed variant of [`SCALE`] for amounts that may be negative.
pub const SCALE_I: i64 = 1_000_000;

/// Largest probability value: 1.0 in fixed point.
pub const PROB_ONE: u64 = 1_000_000;

/// Largest decimal odds the representation admits (1000.0).
pub const MAX_ODDS: u64 = 1_000_000_000;

/// Ceiling on any single money amount plus all potential payouts; keeps every
/// bankroll computation inside `i64`.
pub const MAX_MONEY: i64 = 2_000_000_000_000_000_000;

/// Scaled product: `(a * b) / SCALE`, the fixed-point multiplication.
pub open spec fn spec_mul_scale(a: int, b: int) -> int {
    (a * b) / (SCALE as int)
}

/// Fixed-point multiplication on non-negative `u64` values.
pub fn mul_scale(a: u64, b: u64) -> (r: u64)
    requires
        a * b / (SCALE as int) <= u64::MAX,
    ensures
        r == spec_mul_scale(a as int, b as int),
{
    let wide: u128 = (a as u128) * (b as u128);
    let q: u128 = wide / (SCALE as u128);
    q as u64
}

/// Division truncating towards zero, as the machine's signed division
/// does; meaningful for a positive divisor.
pub open spec fn spec_div_trunc(a: int, b: int) -> int {
    if a >= 0 {
        a / b
    } else {
        -((-a) / b)
    }
}

/// Clamp `x` into `[lo, hi]`.
pub open spec fn spec_clamp(x: int, lo: int, hi: int) -> int {
    if x < lo {
        lo
    } else if x > hi {
        hi
    } else {
        x
    }
}

/// Clamp for unsigned fixed-point values.
pub fn clamp_u64(x: u64, lo: u64, hi: u64) -> (r: u64)
    requires
        lo <= hi,
    ensures
        r == spec_clamp(x as int, lo as int, hi as int),
        lo <= r <= hi,
{
    if x < lo {
        lo
    } else if x > hi {
        hi
    } else {
        x
    }
}

/// Clamp for signed fixed-point values.
pub fn clamp_i64(x: i64, lo: i64, hi: i64) -> (r: i64)
    requires
        lo <= hi,
    ensures
        r == spec_clamp(x as int, lo as int, hi as int),
        lo <= r <= hi,
{
    if x < lo {
        lo
    } else if x > hi {
        hi
    } else {
        x
    }
}

/// Ceiling on the fixed-point exponential: a little above `e^20` scaled.
pub const EXP_CAP: u64 = 500_000_000_000_000;

/// Fixed-point base of the natural exponential.
pub const E_FIXED: u64 = 2_718_282;

/// Natural logarithm of 2, fixed point.
pub const LN2_FIXED: u64 = 693_147;

/// Natural logarithm of 3, fixed point.
pub const LN3_FIXED: u64 = 1_098_612;

/// The integer part of the exponential kernel after `n` saturating
/// multiplications by `e`.
pub open spec fn spec_exp_int(n: int) -> int
    decreases n,
{
    if n <= 0 {
        SCALE as int
    } else {
        let w = spec_exp_int(n - 1) * (E_FIXED as int) / (SCALE as int);
        if w > EXP_CAP {
            EXP_CAP as int
        } else if w < 1 {
            1
        } else {
            w
        }
    }
}

/// The `j`-th Taylor term `f^j / j!` of the kernel's fractional part, one
/// truncated factor at a time.
pub open spec fn spec_exp_term(f: int, j: int) -> int
    decreases j,
{
    if j <= 0 {
        SCALE as int
    } else {
        spec_exp_term(f, j - 1) * f / ((SCALE as int) * j)
    }
}

/// The kernel's fractional sum after `j` Taylor terms, saturating at 3.
pub open spec fn spec_exp_fracsum(f: int, j: int) -> int
    decreases j,
{
    if j <= 0 {
        SCALE as int
    } else {
        let s = spec_exp_fracsum(f, j - 1) + spec_exp_term(f, j);
        if s > 3 * (SCALE as int) {
            3 * (SCALE as int)
        } else {
            s
        }
    }
}

/// The kernel's value on a non-negative argument: integer part times the
/// eight-term fractional sum, clamped into the representable band.
pub open spec fn spec_exp_pos(x: int) -> int {
    let c = spec_exp_int(x / (SCALE as int))
        * spec_exp_fracsum(x % (SCALE as int), 8) / (SCALE as int);
    if c < 1 {
        1
    } else if c > 1_500_000_000_000_000 {
        1_500_000_000_000_000
    } else {
        c
    }
}

/// The full exponential kernel: the argument clamped into `[-20, 20]`, a
/// negative argument answered by the reciprocal, floored at the smallest
/// positive value.
pub open spec fn spec_exp(x: int) -> int {
    let xc = spec_clamp(x, -20_000_000, 20_000_000);
    if xc >= 0 {
        spec_exp_pos(xc)
    } else {
        let inv = (SCALE as int) * (SCALE as int) / spec_exp_pos(-xc);
        if inv < 1 {
            1
        } else {
            inv
        }
    }
}

/// Fixed-point approximation of `e^x` for a fixed-point argument, clamped
/// into `[-20, 20]`; exactly [`spec_exp`], the kernel's own saturating
/// integer recurrence. Callers that renormalize lean only on the bounds.
pub fn exp_fixed(x: i64) -> (r: u64)
    ensures
        r == spec_exp(x as int),
        1 <= r <= 2_000_000_000_000_000,
{
    let xc = clamp_i64(x, -20_000_000, 20_000_000);
    if xc >= 0 {
        exp_fixed_pos(xc as u64)
    } else {
        let denom = exp_fixed_pos((-xc) as u64);
        let inv: u64 = (SCALE * SCALE) / denom;
        if inv < 1 {
            1
        } else {
            inv
        }
    }
}

/// `e^x` for a non-negative fixed-point argument at most 20, saturating at
/// [`EXP_CAP`]; exactly [`spec_exp_pos`].
fn exp_fixed_pos(x: u64) -> (r: u64)
    requires
        x <= 20_000_000,
    ensures
        r == spec_exp_pos(x as int),
        1 <= r <= 2_000_000_000_000_000,
{
    let n = x / SCALE;
    let f = x % SCALE;

    // Integer part: repeated multiplication by e, saturating.
    let mut acc: u64 = SCALE;
    let mut k: u64 = 0;
    while k < n
        invariant
            n <= 20,
            k <= n,
            1 <= acc <= EXP_CAP,
            acc == spec_exp_int(k as int),
        decreases n - k,
    {
        proof {
            let ghost a = acc as int;
            assert(a * (E_FIXED as int) <= (EXP_CAP as int) * (E_FIXED as int))
                by (nonlinear_arith)
                requires 1 <= a <= EXP_CAP;
            assert(a * (E_FIXED as int) / (SCALE as int) >= 0) by (nonlinear_arith)
                requires a * (E_FIXED as int) >= 0;
        }
        let wide: u128 = (acc as u128) * (E_FIXED as u128) / (SCALE as u128);
        acc = if wide > (EXP_CAP as u128) {
            EXP_CAP
        } else if wide < 1 {
            1
        } else {
            wide as u64
        };
        k += 1;
    }

    // Fractional part: an eight-term Taylor series of e^f, f in [0, 1).
    let mut frac_sum: u64 = SCALE;
    let mut term: u64 = SCALE;
    let mut j: u64 = 1;
    while j <= 8
        invariant
            term <= SCALE,
            frac_sum <= 3 * SCALE,
            f < SCALE,
            1 <= j <= 9,
            term == spec_exp_term(f as int, j as int - 1),
            frac_sum == spec_exp_fracsum(f as int, j as int - 1),
        decreases 9 - j,
    {
        proof {
            let ghost t = term as int;
            let ghost ff = f as int;
            let ghost jj = j as int;
            assert(t * ff <= (SCALE as int) * (SCALE as int)) by (nonlinear_arith)
                requires 0 <= t <= SCALE, 0 <= ff <= SCALE;
            assert(t * ff / ((SCALE as int) * jj) <= (SCALE as int)) by (nonlinear_arith)
                requires 0 <= t * ff <= (SCALE as int) * (SCALE as int), jj >= 1;
            assert(t * ff / ((SCALE as int) * jj) >= 0) by (nonlinear_arith)
                requires t * ff >= 0, jj >= 1;
        }
        let next: u64 = (((term as u128) * (f as u128)) / ((SCALE as u128) * (j as u128))) as u64;
        term = next;
        frac_sum = if frac_sum + term > 3 * SCALE {
            3 * SCALE
        } else {
            frac_sum + term
        };
        j += 1;
    }

    proof {
        let ghost a = acc as int;
        let ghost fs = frac_sum as int;
        assert(a * fs <= (EXP_CAP as int) * 3 * (SCALE as int)) by (nonlinear_arith)
            requires 1 <= a <= EXP_CAP, 0 <= fs <= 3 * (SCALE as int);
        assert(a * fs / (SCALE as int) <= (EXP_CAP as int) * 3) by (nonlinear_arith)
            requires a * fs <= (EXP_CAP as int) * 3 * (SCALE as int);
        assert(a * fs / (SCALE as int) >= 0) by (nonlinear_arith)
            requires a * fs >= 0;
    }
    let combined: u128 = (acc as u128) * (frac_sum as u128) / (SCALE as u128);
    if combined < 1 {
        1
    } else if combined > 1_500_000_000_000_000 {
        1_500_000_000_000_000
    } else {
        combined as u64
    }
}

/// The normalized mantissa of the logarithm kernel: `m` doubled until it
/// reaches one half.
pub open spec fn spec_ln_norm(m: int) -> int
    decreases (SCALE as int) - m,
{
    if m < 1 || m >= (SCALE as int) / 2 {
        m
    } else {
        spec_ln_norm(2 * m)
    }
}

/// How many doublings the logarithm kernel spends normalizing `m`.
pub open spec fn spec_ln_shift(m: int) -> int
    decreases (SCALE as int) - m,
{
    if m < 1 || m >= (SCALE as int) / 2 {
        0
    } else {
        1 + spec_ln_shift(2 * m)
    }
}

/// The `j`-th power `u^j` of the kernel's series argument, one truncated
/// factor at a time.
pub open spec fn spec_ln_power(u: int, j: int) -> int
    decreases j,
{
    if j <= 1 {
        u
    } else {
        spec_ln_power(u, j - 1) * u / (SCALE as int)
    }
}

/// The kernel's Mercator sum `sum u^j / j` after `j` terms, saturating at 1.
pub open spec fn spec_ln_series(u: int, j: int) -> int
    decreases j,
{
    if j <= 0 {
        0
    } else {
        let s = spec_ln_series(u, j - 1) + spec_ln_power(u, j) / j;
        if s > (SCALE as int) {
            SCALE as int
        } else {
            s
        }
    }
}

/// The full logarithm kernel: `-ln(p) = k ln 2 - ln(m)`. A mantissa of
/// exactly one half — every dyadic probability lands there — contributes
/// the `ln 2` constant itself, so `-log2` of such a probability is a whole
/// number of bits; any other mantissa takes the 25-term Mercator series.
pub open spec fn spec_neg_ln(p: int) -> int {
    if p == SCALE {
        0
    } else {
        let mn = spec_ln_norm(p);
        let m2 = if mn > SCALE {
            SCALE as int
        } else {
            mn
        };
        if m2 == (SCALE as int) / 2 {
            (spec_ln_shift(p) + 1) * (LN2_FIXED as int)
        } else {
            spec_ln_shift(p) * (LN2_FIXED as int) + spec_ln_series((SCALE as int) - m2, 25)
        }
    }
}

/// Fixed-point approximation of `-ln(p)` for a probability `p` in `(0, 1]`;
/// exactly [`spec_neg_ln`], the kernel's own integer recurrence. Bounded by
/// a little over `ln` of the smallest representable probability.
pub fn neg_ln_fixed(p: u64) -> (r: u64)
    requires
        1 <= p <= SCALE,
    ensures
        r == spec_neg_ln(p as int),
        r <= 15_000_000,
        p == SCALE ==> r == 0,
{
    if p == SCALE {
        return 0;
    }
    // Normalize into [1/2, 1) by doublings: -ln(p) = k*ln(2) - ln(m).
    let mut m: u64 = p;
    let mut k: u64 = 0;
    proof {
        vstd::arithmetic::power2::lemma2_to64();
    }
    while m < SCALE / 2
        invariant
            1 <= m <= SCALE,
            k <= 19,
            vstd::arithmetic::power2::pow2(k as nat) <= m,
            spec_ln_norm(m as int) == spec_ln_norm(p as int),
            k + spec_ln_shift(m as int) == spec_ln_shift(p as int),
        decreases SCALE - m,
    {
        proof {
            vstd::arithmetic::power2::lemma2_to64();
            if k >= 19 {
                vstd::arithmetic::power2::lemma_pow2_strictly_increases(19, k as nat + 1);
            }
            assert(vstd::arithmetic::power2::pow2(k as nat + 1)
                == 2 * vstd::arithmetic::power2::pow2(k as nat)) by {
                vstd::arithmetic::power2::lemma_pow2_unfold(k as nat + 1);
            }
            assert(spec_ln_norm(m as int) == spec_ln_norm(2 * m as int));
            assert(spec_ln_shift(m as int) == 1 + spec_ln_shift(2 * m as int));
        }
        m = m * 2;
        k = k + 1;
    }
    proof {
        assert(spec_ln_norm(m as int) == m as int);
        assert(spec_ln_shift(m as int) == 0);
    }
    let m2: u64 = if m > SCALE {
        SCALE
    } else {
        m
    };

    // A mantissa of exactly one half carries ln 2 itself: a dyadic
    // probability then reads a whole number of bits, exactly.
    if m2 == SCALE / 2 {
        return (k + 1) * LN2_FIXED;
    }

    // -ln(m) = sum over j of u^j / j with u = 1 - m, u in [0, 1/2].
    let u: u64 = SCALE - m2;
    let mut power: u64 = u;
    let mut series: u64 = 0;
    let mut j: u64 = 1;
    while j <= 25
        invariant
            power <= SCALE / 2,
            series <= SCALE,
            u <= SCALE / 2,
            1 <= j <= 26,
            power == spec_ln_power(u as int, j as int),
            series == spec_ln_series(u as int, j as int - 1),
        decreases 26 - j,
    {
        let term: u64 = power / j;
        series = if series + term > SCALE {
            SCALE
        } else {
            series + term
        };
        proof {
            assert(series == spec_ln_series(u as int, j as int));
            let ghost pw = power as int;
            let ghost uu = u as int;
            assert(pw * uu <= (SCALE as int) / 2 * ((SCALE as int) / 2)) by (nonlinear_arith)
                requires 0 <= pw <= (SCALE as int) / 2, 0 <= uu <= (SCALE as int) / 2;
            assert(pw * uu / (SCALE as int) <= (SCALE as int) / 2) by (nonlinear_arith)
                requires 0 <= pw * uu <= (SCALE as int) / 2 * ((SCALE as int) / 2);
            assert(pw * uu / (SCALE as int) >= 0) by (nonlinear_arith)
                requires pw * uu >= 0;
        }
        power = (((power as u128) * (u as u128)) / (SCALE as u128)) as u64;
        proof {
            assert(power == spec_ln_power(u as int, j as int + 1));
        }
        j += 1;
    }

    k * LN2_FIXED + series
}

/// Three weights divided by their sum on the fixed-point grid, as a
/// mathematical triple.
pub open spec fn spec_norm3(a: int, b: int, c: int) -> (int, int, int) {
    let t = a + b + c;
    (a * (SCALE as int) / t, b * (SCALE as int) / t, c * (SCALE as int) / t)
}

/// Divide three non-negative weights by their sum, giving a distribution on
/// the fixed-point grid: each part is exactly `w * SCALE / total`, so the
/// three sum to within three units of one whole.
pub fn normalize3(a: u64, b: u64, c: u64) -> (r: (u64, u64, u64))
    requires
        1 <= a <= 2_000_000_000_000_000,
        1 <= b <= 2_000_000_000_000_000,
        1 <= c <= 2_000_000_000_000_000,
    ensures
        r.0 == a * (SCALE as int) / (a + b + c),
        r.1 == b * (SCALE as int) / (a + b + c),
        r.2 == c * (SCALE as int) / (a + b + c),
        r.0 <= SCALE && r.1 <= SCALE && r.2 <= SCALE,
        (SCALE as int) - 3 <= r.0 + r.1 + r.2 <= SCALE,
{
    let total: u64 = a + b + c;
    proof {
        let ghost aa = a as int;
        let ghost bb = b as int;
        let ghost cc = c as int;
        let ghost tt = aa + bb + cc;
        let ghost sc = SCALE as int;
        assert(aa * sc <= tt * sc && bb * sc <= tt * sc && cc * sc <= tt * sc)
            by (nonlinear_arith)
            requires 0 <= aa, 0 <= bb, 0 <= cc, tt == aa + bb + cc, sc > 0;
        assert(aa * sc / tt <= sc && bb * sc / tt <= sc && cc * sc / tt <= sc)
            by (nonlinear_arith)
            requires
                aa * sc <= tt * sc,
                bb * sc <= tt * sc,
                cc * sc <= tt * sc,
                tt >= 3,
                sc > 0;
        assert(aa * sc / tt >= 0 && bb * sc / tt >= 0 && cc * sc / tt >= 0)
            by (nonlinear_arith)
            requires aa >= 0, bb >= 0, cc >= 0, tt >= 3, sc > 0;
        lemma_normalize3_sum(aa, bb, cc, sc);
    }
    let pa: u64 = (((a as u128) * (SCALE as u128)) / (total as u128)) as u64;
    let pb: u64 = (((b as u128) * (SCALE as u128)) / (total as u128)) as u64;
    let pc: u64 = (((c as u128) * (SCALE as u128)) / (total as u128)) as u64;
    (pa, pb, pc)
}

/// The floor divisions of `normalize3` lose less than one unit each, so the
/// three parts sum to within three units of a whole.
proof fn lemma_normalize3_sum(a: int, b: int, c: int, sc: int)
    requires
        a >= 1,
        b >= 1,
        c >= 1,
        sc >= 1,
    ensures
        sc - 3 <= a * sc / (a + b + c) + b * sc / (a + b + c) + c * sc / (a + b + c) <= sc,
{
    let t = a + b + c;
    vstd::arithmetic::div_mod::lemma_fundamental_div_mod(a * sc, t);
    vstd::arithmetic::div_mod::lemma_fundamental_div_mod(b * sc, t);
    vstd::arithmetic::div_mod::lemma_fundamental_div_mod(c * sc, t);
    vstd::arithmetic::div_mod::lemma_mod_bound(a * sc, t);
    vstd::arithmetic::div_mod::lemma_mod_bound(b * sc, t);
    vstd::arithmetic::div_mod::lemma_mod_bound(c * sc, t);
    let qa = a * sc / t;
    let qb = b * sc / t;
    let qc = c * sc / t;
    let ra = (a * sc) % t;
    let rb = (b * sc) % t;
    let rc = (c * sc) % t;
    assert(a * sc + b * sc + c * sc == t * sc) by (nonlinear_arith)
        requires t == a + b + c;
    assert(t * (qa + qb + qc) + (ra + rb + rc) == t * sc) by (nonlinear_arith)
        requires
            t * qa + ra == a * sc,
            t * qb + rb == b * sc,
            t * qc + rc == c * sc,
            a * sc + b * sc + c * sc == t * sc;
    assert(qa + qb + qc == sc - (ra + rb + rc) / t
        && (ra + rb + rc) % t == 0 ==> true);
    assert(0 <= ra + rb + rc < 3 * t);
    assert(sc - 3 <= qa + qb + qc <= sc) by (nonlinear_arith)
        requires
            t * (qa + qb + qc) + (ra + rb + rc) == t * sc,
            0 <= ra + rb + rc,
            ra + rb + rc < 3 * t,
            t >= 3;
}

} // verus!
