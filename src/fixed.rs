//! Fixed-point helpers: floor division, integer square root, and the
//! trigonometric and exponential series that the physical model needs.
//!
//! Ratios (sines, cosines, exponentials) are scaled by `UNIT`; angles are in
//! nanoradians.
use vstd::prelude::*;
use vstd::arithmetic::div_mod::{lemma_div_is_ordered, lemma_div_multiples_vanish};

verus! {

/// One whole unit of a scaled ratio.
pub const UNIT: i128 = 1_000_000_000;

/// π in nanoradians, rounded to the nearest unit.
pub const PI: i64 = 3_141_592_654;

/// 2π in nanoradians, rounded to the nearest unit.
pub const TWO_PI: i64 = 6_283_185_307;

/// π/2, a quarter turn, in nanoradians.
pub const HALF_PI: i64 = 1_570_796_327;

/// π/4 (45 degrees), in nanoradians.
pub const QUARTER_PI: i64 = 785_398_163;

/// Number of terms summed in the sine and cosine series.
pub const TRIG_TERMS: u64 = 13;

/// `a / d` rounded towards minus infinity, as an integer.
pub open spec fn fdiv(a: int, d: int) -> int {
    a / d
}

/// If `|a| <= b * d` then `|a / d| <= b`.
pub proof fn lemma_fdiv_bounded(a: int, d: int, b: int)
    requires
        d > 0,
        b >= 0,
        -(b * d) <= a <= b * d,
    ensures
        -b <= fdiv(a, d) <= b,
{
    lemma_div_is_ordered(a, b * d, d);
    lemma_div_is_ordered(-(b * d), a, d);
    lemma_div_multiples_vanish(b, d);
    lemma_div_multiples_vanish(-b, d);
    assert(d * b == b * d) by (nonlinear_arith);
    assert(d * (-b) == -(b * d)) by (nonlinear_arith);
}

/// Floor division of a signed value by a positive divisor.
pub fn div_floor(a: i128, d: i128) -> (r: i128)
    requires
        d > 0,
        -0x4000_0000_0000_0000_0000_0000_0000_0000 <= a <= 0x4000_0000_0000_0000_0000_0000_0000_0000,
        d <= 0x4000_0000_0000_0000_0000_0000_0000_0000,
    ensures
        r == fdiv(a as int, d as int),
{
    if a >= 0 {
        let q = (a as u128) / (d as u128);
        proof {
            lemma_div_is_ordered(a as int, 0x4000_0000_0000_0000_0000_0000_0000_0000, d as int);
            vstd::arithmetic::div_mod::lemma_div_is_ordered_by_denominator(
                0x4000_0000_0000_0000_0000_0000_0000_0000,
                1,
                d as int,
            );
        }
        q as i128
    } else {
        let n = (-a) as u128;
        let q = (n + (d as u128) - 1) / (d as u128);
        proof {
            let ni = n as int;
            let di = d as int;
            let qi = q as int;
            vstd::arithmetic::div_mod::lemma_fundamental_div_mod(ni + di - 1, di);
            vstd::arithmetic::div_mod::lemma_fundamental_div_mod(a as int, di);
            let r1 = (ni + di - 1) % di;
            let q2 = (a as int) / di;
            let r2 = (a as int) % di;
            assert(0 <= r1 < di);
            assert(0 <= r2 < di);
            assert(di * qi + r1 == ni + di - 1);
            assert(di * q2 + r2 == -ni);
            // -qi is the floor of -ni / di
            assert(q2 + qi == 0) by (nonlinear_arith)
                requires
                    di * qi + r1 == ni + di - 1,
                    di * q2 + r2 == -ni,
                    0 <= r1 < di,
                    0 <= r2 < di,
                    di > 0,
            ;
            lemma_div_is_ordered(ni + di - 1, 0x8000_0000_0000_0000_0000_0000_0000_0000, di);
            vstd::arithmetic::div_mod::lemma_div_is_ordered_by_denominator(
                0x8000_0000_0000_0000_0000_0000_0000_0000,
                1,
                di,
            );
        }
        -(q as i128)
    }
}

/// `a / d` rounded towards zero, as an integer.
pub open spec fn tdiv(a: int, d: int) -> int {
    if a >= 0 {
        a / d
    } else {
        -((-a) / d)
    }
}

/// If `|a| <= b * d` then `|a / d| <= b`, rounding towards zero.
pub proof fn lemma_tdiv_bounded(a: int, d: int, b: int)
    requires
        d > 0,
        b >= 0,
        -(b * d) <= a <= b * d,
    ensures
        -b <= tdiv(a, d) <= b,
{
    if a >= 0 {
        lemma_fdiv_bounded(a, d, b);
    } else {
        lemma_fdiv_bounded(-a, d, b);
    }
}

/// Division of a signed value by a positive divisor, rounded towards zero.
pub fn div_trunc(a: i128, d: i128) -> (r: i128)
    requires
        d > 0,
        -0x4000_0000_0000_0000_0000_0000_0000_0000 <= a <= 0x4000_0000_0000_0000_0000_0000_0000_0000,
    ensures
        r == tdiv(a as int, d as int),
{
    if a >= 0 {
        ((a as u128) / (d as u128)) as i128
    } else {
        proof {
            vstd::arithmetic::div_mod::lemma_div_is_ordered(-a as int, 0x4000_0000_0000_0000_0000_0000_0000_0000, d as int);
            vstd::arithmetic::div_mod::lemma_div_is_ordered_by_denominator(
                0x4000_0000_0000_0000_0000_0000_0000_0000,
                1,
                d as int,
            );
        }
        -((((-a) as u128) / (d as u128)) as i128)
    }
}

/// The integer square root, rounded down, defined by repeated quartering.
pub open spec fn sqrt_floor(n: nat) -> nat
    decreases n,
{
    if n < 2 {
        n
    } else {
        let s = 2 * sqrt_floor(n / 4);
        if (s + 1) * (s + 1) <= n {
            (s + 1) as nat
        } else {
            s
        }
    }
}

/// `sqrt_floor(n)` is the largest integer whose square does not exceed `n`.
pub proof fn lemma_sqrt_floor(n: nat)
    ensures
        sqrt_floor(n) * sqrt_floor(n) <= n,
        n < (sqrt_floor(n) + 1) * (sqrt_floor(n) + 1),
    decreases n,
{
    if n >= 2 {
        let q = n / 4;
        lemma_sqrt_floor(q);
        let t = sqrt_floor(q);
        let s = 2 * t;
        assert(s * s <= n && n < (s + 2) * (s + 2)) by (nonlinear_arith)
            requires
                t * t <= q,
                q < (t + 1) * (t + 1),
                s == 2 * t,
                q == n / 4,
                n >= 2,
        {
            assert(n >= 4 * q && n < 4 * q + 4);
        }
        if (s + 1) * (s + 1) <= n {
            assert(sqrt_floor(n) == s + 1);
            assert((s + 2) * (s + 2) == (s + 1 + 1) * (s + 1 + 1));
        } else {
            assert(sqrt_floor(n) == s);
        }
    } else {
        assert(sqrt_floor(n) == n);
        assert(n * n <= n && n < (n + 1) * (n + 1)) by (nonlinear_arith)
            requires
                n < 2,
        ;
    }
}

/// Integer square root, rounded down.
pub fn isqrt(n: u128) -> (r: u128)
    requires
        n < 0x10_0000_0000_0000_0000_0000_0000_0000,
    ensures
        r == sqrt_floor(n as nat),
        r * r <= n < (r + 1) * (r + 1),
    decreases n,
{
    proof {
        lemma_sqrt_floor(n as nat);
    }
    if n < 2 {
        n
    } else {
        let t = isqrt(n / 4);
        proof {
            assert(t < 0x200_0000_0000_0000) by (nonlinear_arith)
                requires
                    t * t <= n / 4,
                    n < 0x10_0000_0000_0000_0000_0000_0000_0000,
            ;
            assert((2 * t + 1) * (2 * t + 1) < 0x40_0000_0000_0000_0000_0000_0000_0000) by (nonlinear_arith)
                requires
                    t < 0x200_0000_0000_0000,
            ;
        }
        let s = 2 * t;
        if (s + 1) * (s + 1) <= n {
            s + 1
        } else {
            s
        }
    }
}

/// Growth of the denominator from series term `k - 1` to term `k`:
/// `(2k)(2k+1)` for the sine series, `(2k-1)(2k)` for the cosine series.
pub open spec fn series_den(k: nat, odd: bool) -> nat {
    if odd {
        ((2 * k) * (2 * k + 1)) as nat
    } else {
        ((2 * k - 1) * (2 * k)) as nat
    }
}

/// Magnitude of term `k` of the Taylor series of sine (`odd`) or cosine at
/// `x / UNIT`, scaled by `UNIT`, each product rounded down.
pub open spec fn series_term(x: nat, k: nat, odd: bool) -> nat
    decreases k,
{
    if k == 0 {
        if odd {
            x
        } else {
            UNIT as nat
        }
    } else {
        series_term(x, (k - 1) as nat, odd) * x / (UNIT as nat) * x / ((UNIT as nat) * series_den(k, odd))
    }
}

/// The first `n` terms of the series, with alternating signs.
pub open spec fn series_sum(x: nat, n: nat, odd: bool) -> int
    decreases n,
{
    if n == 0 {
        0
    } else {
        let t = series_term(x, (n - 1) as nat, odd) as int;
        series_sum(x, (n - 1) as nat, odd) + if (n - 1) % 2 == 0 {
            t
        } else {
            -t
        }
    }
}

proof fn lemma_series_step(t: nat, x: nat, q: nat, bt: nat)
    requires
        t <= bt,
        10 * x <= 32 * UNIT,
        q >= 1,
        1024 * bt <= 600_000_000_000 * q,
    ensures
        t * x / (UNIT as nat) * x / ((UNIT as nat) * q) <= 6 * UNIT,
{
    let u = UNIT as nat;
    let a = t * x / u;
    let b = a * x / (u * q);
    vstd::arithmetic::div_mod::lemma_fundamental_div_mod((t * x) as int, u as int);
    assert(u * q > 0) by (nonlinear_arith)
        requires
            u > 0,
            q >= 1,
    ;
    vstd::arithmetic::div_mod::lemma_fundamental_div_mod((a * x) as int, (u * q) as int);
    assert(a * u <= t * x);
    assert(b * (u * q) <= a * x);
    assert(b * q * u * u <= bt * x * x) by (nonlinear_arith)
        requires
            a * u <= t * x,
            b * (u * q) <= a * x,
            t <= bt,
    ;
    assert(b <= 6 * u) by (nonlinear_arith)
        requires
            b * q * u * u <= bt * x * x,
            10 * x <= 32 * u,
            1024 * bt <= 600_000_000_000 * q,
            u == 1_000_000_000,
            u > 0,
            q >= 1,
    ;
}

/// Every term of the series at `x <= PI` stays within six units.
pub proof fn lemma_series_term_bound(x: nat, k: nat, odd: bool)
    requires
        x <= PI,
    ensures
        series_term(x, k, odd) <= 6 * UNIT,
        k == 0 && odd ==> series_term(x, k, odd) <= PI,
        k == 0 && !odd ==> series_term(x, k, odd) == UNIT,
    decreases k,
{
    if k > 0 {
        lemma_series_term_bound(x, (k - 1) as nat, odd);
        let t = series_term(x, (k - 1) as nat, odd);
        let q = series_den(k, odd);
        if k == 1 {
            assert(q == if odd { 6nat } else { 2nat }) by (nonlinear_arith)
                requires
                    k == 1,
                    odd ==> q == (2 * k) * (2 * k + 1),
                    !odd ==> q == (2 * k - 1) * (2 * k),
            ;
            if odd {
                lemma_series_step(t, x, q, PI as nat);
            } else {
                lemma_series_step(t, x, q, UNIT as nat);
            }
        } else {
            assert(q >= 12) by (nonlinear_arith)
                requires
                    k >= 2,
                    q == series_den(k, odd),
                    odd ==> q == (2 * k) * (2 * k + 1),
                    !odd ==> q == (2 * k - 1) * (2 * k),
            ;
            assert(1024 * (6 * UNIT) <= 600_000_000_000 * q) by (nonlinear_arith)
                requires
                    q >= 12,
            ;
            lemma_series_step(t, x, q, (6 * UNIT) as nat);
        }
    }
}

/// Sum of the first `TRIG_TERMS` terms of the sine or cosine series at `x <= PI`.
fn series(x: u64, odd: bool) -> (r: i128)
    requires
        x <= PI,
    ensures
        r == series_sum(x as nat, TRIG_TERMS as nat, odd),
        -78_000_000_000 <= r <= 78_000_000_000,
{
    let mut term: u128 = if odd {
        x as u128
    } else {
        UNIT as u128
    };
    let mut sum: i128 = 0;
    let mut k: u64 = 0;
    proof {
        lemma_series_term_bound(x as nat, 0, odd);
    }
    while k < TRIG_TERMS
        invariant
            k <= TRIG_TERMS,
            x <= PI,
            term == series_term(x as nat, k as nat, odd),
            term <= 6 * UNIT,
            sum == series_sum(x as nat, k as nat, odd),
            -6_000_000_000 * k <= sum <= 6_000_000_000 * k,
        decreases TRIG_TERMS - k,
    {
        if k % 2 == 0 {
            sum = sum + term as i128;
        } else {
            sum = sum - term as i128;
        }
        k = k + 1;
        let k2: u128 = 2 * (k as u128);
        proof {
            assert(k2 * (k2 + 1) <= 702 && (k2 - 1) * k2 <= 702) by (nonlinear_arith)
                requires
                    2 <= k2 <= 26,
            ;
        }
        let q: u128 = if odd {
            k2 * (k2 + 1)
        } else {
            (k2 - 1) * k2
        };
        proof {
            lemma_series_term_bound(x as nat, k as nat, odd);
            assert(q == series_den(k as nat, odd));
            let ti = term as int;
            let xi = x as int;
            assert(ti * xi <= 6 * UNIT * PI) by (nonlinear_arith)
                requires
                    ti <= 6 * UNIT,
                    xi <= PI,
                    xi >= 0,
            ;
            lemma_div_is_ordered(ti * xi, 6 * UNIT * PI, UNIT as int);
            lemma_div_multiples_vanish(6 * PI, UNIT as int);
            assert((ti * xi) / (UNIT as int) <= 6 * PI);
            assert((ti * xi) / (UNIT as int) * xi <= 6 * PI * PI) by (nonlinear_arith)
                requires
                    (ti * xi) / (UNIT as int) <= 6 * PI,
                    0 <= xi <= PI,
                    (ti * xi) / (UNIT as int) >= 0,
            ;
            assert(2 <= q <= 1000) by (nonlinear_arith)
                requires
                    1 <= k <= 13,
                    odd ==> q == (2 * k) * (2 * k + 1),
                    !odd ==> q == (2 * k - 1) * (2 * k),
            ;
            assert(1_000_000_000 * q <= 1_000_000_000_000);
            assert(1_000_000_000 * q >= 2);
        }
        term = term * (x as u128) / (UNIT as u128) * (x as u128) / ((UNIT as u128) * q);
    }
    sum
}

/// An angle brought into `(-PI, PI]` by a whole number of turns.
pub open spec fn wrap_angle(a: int) -> int {
    let m = a % (TWO_PI as int);
    if m > PI {
        m - TWO_PI
    } else {
        m
    }
}

/// A scaled ratio limited to `[-UNIT, UNIT]`.
pub open spec fn clamp_unit(v: int) -> int {
    if v > UNIT {
        UNIT as int
    } else if v < -UNIT {
        -UNIT
    } else {
        v
    }
}

/// Sine of an angle in nanoradians, scaled by `UNIT`.
pub open spec fn sin_fx(a: int) -> int {
    let w = wrap_angle(a);
    clamp_unit(
        if w >= 0 {
            series_sum(w as nat, TRIG_TERMS as nat, true)
        } else {
            -series_sum((-w) as nat, TRIG_TERMS as nat, true)
        },
    )
}

/// Cosine of an angle in nanoradians, scaled by `UNIT`.
pub open spec fn cos_fx(a: int) -> int {
    let w = wrap_angle(a);
    clamp_unit(
        if w >= 0 {
            series_sum(w as nat, TRIG_TERMS as nat, false)
        } else {
            series_sum((-w) as nat, TRIG_TERMS as nat, false)
        },
    )
}

fn wrap(a: i64) -> (r: i64)
    ensures
        r == wrap_angle(a as int),
        -PI <= r <= PI,
{
    let tp = TWO_PI as i128;
    let a2 = a as i128;
    let m: i128 = if a2 >= 0 {
        a2 % tp
    } else {
        let n = -a2;
        let rem = n % tp;
        proof {
            vstd::arithmetic::div_mod::lemma_fundamental_div_mod(n as int, tp as int);
            let q = (n as int) / (tp as int);
            if rem > 0 {
                vstd::arithmetic::div_mod::lemma_fundamental_div_mod_converse(
                    a2 as int,
                    tp as int,
                    -q - 1,
                    tp - rem,
                );
            } else {
                vstd::arithmetic::div_mod::lemma_fundamental_div_mod_converse(
                    a2 as int,
                    tp as int,
                    -q,
                    0,
                );
            }
        }
        if rem == 0 {
            0
        } else {
            tp - rem
        }
    };
    proof {
        assert(m == (a as int) % (TWO_PI as int));
    }
    if m > PI as i128 {
        (m - tp) as i64
    } else {
        m as i64
    }
}

fn clamp(v: i128) -> (r: i64)
    ensures
        r == clamp_unit(v as int),
{
    if v > UNIT {
        UNIT as i64
    } else if v < -UNIT {
        -UNIT as i64
    } else {
        v as i64
    }
}

/// Sine of `a` nanoradians, scaled by `UNIT`.
pub fn sin(a: i64) -> (r: i64)
    ensures
        r == sin_fx(a as int),
        -UNIT <= r <= UNIT,
{
    let w = wrap(a);
    if w >= 0 {
        clamp(series(w as u64, true))
    } else {
        clamp(-series((-w) as u64, true))
    }
}

/// Cosine of `a` nanoradians, scaled by `UNIT`.
pub fn cos(a: i64) -> (r: i64)
    ensures
        r == cos_fx(a as int),
        -UNIT <= r <= UNIT,
{
    let w = wrap(a);
    if w >= 0 {
        clamp(series(w as u64, false))
    } else {
        clamp(series((-w) as u64, false))
    }
}

/// Number of terms summed in the exponential series.
pub const EXP_TERMS: u64 = 14;

/// Largest magnitude of the argument of `exp`, scaled by `UNIT` (9.6).
pub const EXP_LIMIT: i64 = 9_600_000_000;

/// Term `k` of the exponential series at `y / UNIT`, scaled by `UNIT`, each
/// step rounded down.
pub open spec fn exp_term(y: nat, k: nat) -> nat
    decreases k,
{
    if k == 0 {
        UNIT as nat
    } else {
        exp_term(y, (k - 1) as nat) * y / ((UNIT as nat) * k)
    }
}

/// The first `n` terms of the exponential series.
pub open spec fn exp_sum(y: nat, n: nat) -> nat
    decreases n,
{
    if n == 0 {
        0
    } else {
        exp_sum(y, (n - 1) as nat) + exp_term(y, (n - 1) as nat)
    }
}

/// A scaled ratio squared `n` times, rounded down after each squaring.
pub open spec fn square_times(e: nat, n: nat) -> nat
    decreases n,
{
    if n == 0 {
        e
    } else {
        let f = square_times(e, (n - 1) as nat);
        f * f / (UNIT as nat)
    }
}

/// `exp` of a non-negative `x / UNIT`, as the sixteenth power of the series at `x / 16`.
pub open spec fn exp_pos(x: nat) -> nat {
    square_times(exp_sum(x / 16, EXP_TERMS as nat), 4)
}

/// `exp(x / UNIT)`, scaled by `UNIT`; a negative argument goes through the reciprocal.
pub open spec fn exp_fx(x: int) -> int {
    if x >= 0 {
        exp_pos(x as nat) as int
    } else {
        (UNIT * UNIT) / (exp_pos((-x) as nat) as int)
    }
}

fn exp_series(y: u64) -> (r: u128)
    requires
        y <= 600_000_000,
    ensures
        r == exp_sum(y as nat, EXP_TERMS as nat),
        1_000_000_000 <= r <= 2_500_000_000,
{
    let mut term: u128 = UNIT as u128;
    let mut sum: u128 = 0;
    let mut k: u64 = 0;
    while k < EXP_TERMS
        invariant
            k <= EXP_TERMS,
            y <= 600_000_000,
            term == exp_term(y as nat, k as nat),
            sum == exp_sum(y as nat, k as nat),
            2 * sum + 5 * term <= 5_000_000_000,
            k > 0 ==> sum >= 1_000_000_000,
            k == 0 ==> sum == 0 && term == 1_000_000_000,
        decreases EXP_TERMS - k,
    {
        sum = sum + term;
        k = k + 1;
        let d: u128 = 1_000_000_000 * (k as u128);
        proof {
            assert(term * y <= 1_000_000_000 * 600_000_000) by (nonlinear_arith)
                requires
                    term <= 1_000_000_000,
                    y <= 600_000_000,
            ;
        }
        let next = term * (y as u128) / d;
        proof {
            let t = term as int;
            let yi = y as int;
            let di = d as int;
            vstd::arithmetic::div_mod::lemma_fundamental_div_mod(t * yi, di);
            vstd::arithmetic::div_mod::lemma_mod_pos_bound(t * yi, di);
            assert(next * di <= t * yi) by (nonlinear_arith)
                requires
                    t * yi == di * ((t * yi) / di) + (t * yi) % di,
                    (t * yi) % di >= 0,
                    next == (t * yi) / di,
            ;
            assert(5 * next <= 3 * t) by (nonlinear_arith)
                requires
                    next * di <= t * yi,
                    di >= 1_000_000_000,
                    0 <= yi <= 600_000_000,
                    t >= 0,
                    next >= 0,
            ;
        }
        term = next;
    }
    sum
}

fn square(e: u128) -> (r: u128)
    requires
        e <= 0x8000_0000_0000_0000,
    ensures
        r == (e as nat) * (e as nat) / (UNIT as nat),
{
    proof {
        assert(e * e <= 0x8000_0000_0000_0000 * 0x8000_0000_0000_0000) by (nonlinear_arith)
            requires
                e <= 0x8000_0000_0000_0000,
        ;
    }
    e * e / (UNIT as u128)
}

proof fn lemma_square_bounds(e: nat, lo: nat, hi: nat, hi2: nat)
    requires
        lo <= e <= hi,
        lo >= UNIT,
        hi * hi <= hi2 * UNIT,
    ensures
        lo <= e * e / (UNIT as nat) <= hi2,
{
    assert(lo * UNIT <= e * e && e * e <= hi2 * UNIT) by (nonlinear_arith)
        requires
            lo <= e <= hi,
            lo >= UNIT,
            hi * hi <= hi2 * UNIT,
    ;
    lemma_div_is_ordered(lo * UNIT, (e * e) as int, UNIT as int);
    lemma_div_is_ordered((e * e) as int, hi2 * UNIT, UNIT as int);
    lemma_div_multiples_vanish(lo as int, UNIT as int);
    lemma_div_multiples_vanish(hi2 as int, UNIT as int);
}

fn exp_positive(x: u64) -> (r: u128)
    requires
        x <= EXP_LIMIT,
    ensures
        r == exp_pos(x as nat),
        1_000_000_000 <= r <= 2_400_000_000_000_000,
{
    let e0 = exp_series(x / 16);
    proof {
        lemma_square_bounds(e0 as nat, UNIT as nat, 2_500_000_000, 6_250_000_000);
    }
    let e1 = square(e0);
    proof {
        lemma_square_bounds(e1 as nat, UNIT as nat, 6_250_000_000, 39_062_500_000);
    }
    let e2 = square(e1);
    proof {
        lemma_square_bounds(e2 as nat, UNIT as nat, 39_062_500_000, 1_525_878_906_250);
    }
    let e3 = square(e2);
    proof {
        lemma_square_bounds(e3 as nat, UNIT as nat, 1_525_878_906_250, 2_400_000_000_000_000);
        assert(square_times(e0 as nat, 0) == e0);
        assert(square_times(e0 as nat, 1) == e1);
        assert(square_times(e0 as nat, 2) == e2);
        assert(square_times(e0 as nat, 3) == e3);
    }
    square(e3)
}

/// `exp(x / UNIT)`, scaled by `UNIT`.
pub fn exp(x: i64) -> (r: i128)
    requires
        -EXP_LIMIT <= x <= EXP_LIMIT,
    ensures
        r == exp_fx(x as int),
        0 <= r <= 2_400_000_000_000_000,
{
    if x >= 0 {
        exp_positive(x as u64) as i128
    } else {
        let d = exp_positive((-x) as u64) as i128;
        proof {
            lemma_div_is_ordered(0, UNIT * UNIT, d as int);
            vstd::arithmetic::div_mod::lemma_div_is_ordered_by_denominator(
                (UNIT * UNIT) as int,
                UNIT as int,
                d as int,
            );
            lemma_div_multiples_vanish(UNIT as int, UNIT as int);
        }
        (UNIT * UNIT) / d
    }
}

/// Number of terms summed in the arctangent series.
pub const ATAN_TERMS: u64 = 12;


/// `t^(2k+1)`, scaled by `UNIT`, each product rounded down.
pub open spec fn atan_power(t: nat, k: nat) -> nat
    decreases k,
{
    if k == 0 {
        t
    } else {
        atan_power(t, (k - 1) as nat) * t / (UNIT as nat) * t / (UNIT as nat)
    }
}

/// The first `n` terms of the arctangent series at `t / UNIT`.
pub open spec fn atan_sum(t: nat, n: nat) -> int
    decreases n,
{
    if n == 0 {
        0
    } else {
        let k = (n - 1) as nat;
        let term = (atan_power(t, k) / (2 * k + 1)) as int;
        atan_sum(t, k) + if k % 2 == 0 {
            term
        } else {
            -term
        }
    }
}

/// `tan(a / 2)` from `tan(a) = t / UNIT`: `t / (1 + sqrt(1 + t^2))`, scaled.
pub open spec fn half_tangent(t: nat) -> nat {
    t * (UNIT as nat) / ((UNIT as nat) + sqrt_floor((UNIT * UNIT + t * t) as nat))
}

/// Arctangent of `t / UNIT` for `t <= UNIT`, in nanoradians: four times the
/// series at the tangent of a quarter of the angle.
pub open spec fn atan_unit(t: nat) -> int {
    4 * atan_sum(half_tangent(half_tangent(t)), ATAN_TERMS as nat)
}

/// Arctangent of `t / UNIT`, in nanoradians; beyond one, through the
/// complement of the reciprocal.
pub open spec fn atan_fx(t: int) -> int {
    let m = if t < 0 {
        -t
    } else {
        t
    };
    let a = if m <= UNIT {
        atan_unit(m as nat)
    } else {
        HALF_PI - atan_unit(((UNIT * UNIT) / m) as nat)
    };
    if t < 0 {
        -a
    } else {
        a
    }
}

fn atan_series(t: u64) -> (r: i128)
    requires
        t <= 250_000_000,
    ensures
        r == atan_sum(t as nat, ATAN_TERMS as nat),
        -3_000_000_000 <= r <= 3_000_000_000,
{
    let mut power: u128 = t as u128;
    let mut sum: i128 = 0;
    let mut k: u64 = 0;
    while k < ATAN_TERMS
        invariant
            k <= ATAN_TERMS,
            t <= 250_000_000,
            power == atan_power(t as nat, k as nat),
            power <= 250_000_000,
            sum == atan_sum(t as nat, k as nat),
            -250_000_000 * k <= sum <= 250_000_000 * k,
        decreases ATAN_TERMS - k,
    {
        let term = power / (2 * k as u128 + 1);
        proof {
            vstd::arithmetic::div_mod::lemma_div_is_ordered_by_denominator(power as int, 1, 2 * k + 1);
        }
        if k % 2 == 0 {
            sum = sum + term as i128;
        } else {
            sum = sum - term as i128;
        }
        proof {
            let pi = power as int;
            let ti = t as int;
            assert(pi * ti <= 250_000_000 * 250_000_000) by (nonlinear_arith)
                requires
                    0 <= pi <= 250_000_000,
                    0 <= ti <= 250_000_000,
            ;
            lemma_div_is_ordered(pi * ti, 62_500_000_000_000_000int, UNIT as int);
            assert((pi * ti) / (UNIT as int) * ti <= 62_500_000 * 250_000_000) by (nonlinear_arith)
                requires
                    0 <= (pi * ti) / (UNIT as int) <= 62_500_000,
                    0 <= ti <= 250_000_000,
            ;
            lemma_div_is_ordered((pi * ti) / (UNIT as int) * ti, 15_625_000_000_000_000int, UNIT as int);
            assert((pi * ti) / (UNIT as int) >= 0) by {
                lemma_div_is_ordered(0, pi * ti, UNIT as int);
            }
        }
        power = power * (t as u128) / (UNIT as u128) * (t as u128) / (UNIT as u128);
        k = k + 1;
    }
    sum
}

fn halve_tangent(t: u64) -> (r: u64)
    requires
        t <= UNIT,
    ensures
        r == half_tangent(t as nat),
        2 * r <= t,
{
    let u = UNIT as u128;
    let tt = t as u128;
    proof {
        assert(tt * tt <= u * u) by (nonlinear_arith)
            requires
                tt <= u,
        ;
    }
    let s = isqrt(u * u + tt * tt);
    proof {
        assert(s <= 2 * u) by (nonlinear_arith)
            requires
                s * s <= u * u + tt * tt,
                tt * tt <= u * u,
                u > 0,
        ;
        assert(s >= u) by (nonlinear_arith)
            requires
                u * u + tt * tt < (s + 1) * (s + 1),
                u * u <= u * u + tt * tt,
                s >= 0,
                u > 0,
        ;
        vstd::arithmetic::div_mod::lemma_div_is_ordered_by_denominator((tt * u) as int, 2 * u, (u + s) as int);
        lemma_div_multiples_vanish(tt as int, 2 * u);
        vstd::arithmetic::div_mod::lemma_div_denominator((tt * u) as int, 2, u as int);
        lemma_div_multiples_vanish(tt as int, u as int);
        assert(u * tt == tt * u) by (nonlinear_arith);
        vstd::arithmetic::div_mod::lemma_fundamental_div_mod(tt as int, 2);
    }
    (tt * u / (u + s)) as u64
}

/// Arctangent of `t / UNIT` for `t <= UNIT`, in nanoradians.
fn atan_unit_range(t: u64) -> (r: i128)
    requires
        t <= UNIT,
    ensures
        r == atan_unit(t as nat),
        -12_000_000_000 <= r <= 12_000_000_000,
{
    let h = halve_tangent(t);
    let q = halve_tangent(h);
    4 * atan_series(q)
}

/// Arctangent of `t / UNIT`, in nanoradians.
pub fn atan(t: i128) -> (r: i128)
    requires
        -0x1_0000_0000_0000_0000_0000_0000 <= t <= 0x1_0000_0000_0000_0000_0000_0000,
    ensures
        r == atan_fx(t as int),
        -14_000_000_000 <= r <= 14_000_000_000,
{
    let m = if t < 0 {
        -t
    } else {
        t
    };
    let a = if m <= UNIT {
        atan_unit_range(m as u64)
    } else {
        proof {
            vstd::arithmetic::div_mod::lemma_div_is_ordered_by_denominator((UNIT * UNIT) as int, UNIT as int, m as int);
            lemma_div_multiples_vanish(UNIT as int, UNIT as int);
            lemma_div_is_ordered(0, (UNIT * UNIT) as int, m as int);
        }
        HALF_PI as i128 - atan_unit_range(((UNIT * UNIT) / m) as u64)
    };
    if t < 0 {
        -a
    } else {
        a
    }
}

} // verus!
