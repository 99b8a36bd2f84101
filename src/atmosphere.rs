//! Air density and the speed of sound from temperature, pressure and
//! humidity.
use vstd::prelude::*;
use crate::fixed::{div_floor, exp, exp_fx, fdiv, isqrt, lemma_fdiv_bounded, sqrt_floor, EXP_LIMIT, UNIT};

verus! {

/// Lowest accepted temperature, in thousandths of a degree Celsius.
pub const TEMPERATURE_MIN: i64 = -80_000;
/// Highest accepted temperature, in thousandths of a degree Celsius.
pub const TEMPERATURE_MAX: i64 = 60_000;
/// Lowest accepted pressure, in pascals.
pub const PRESSURE_MIN: u64 = 25_000;
/// Highest accepted pressure, in pascals.
pub const PRESSURE_MAX: u64 = 200_000;
/// Relative humidity of saturated air, in ten-thousandths.
pub const HUMIDITY_MAX: u64 = 10_000;

/// The state of the air around the shot.
#[derive(Clone, Copy, Debug, PartialEq, Eq, Structural)]
pub struct Atmosphere {
    /// Thousandths of a degree Celsius.
    pub temperature: i64,
    /// Pascals.
    pub pressure: u64,
    /// Relative humidity in ten-thousandths (10 000 is saturated).
    pub humidity: u64,
}

impl Atmosphere {
    /// The inputs lie in the domain of the model.
    pub open spec fn valid(&self) -> bool {
        TEMPERATURE_MIN <= self.temperature <= TEMPERATURE_MAX && PRESSURE_MIN <= self.pressure
            <= PRESSURE_MAX && self.humidity <= HUMIDITY_MAX
    }

    pub fn is_valid(&self) -> (r: bool)
        ensures
            r == self.valid(),
    {
        TEMPERATURE_MIN <= self.temperature && self.temperature <= TEMPERATURE_MAX && PRESSURE_MIN
            <= self.pressure && self.pressure <= PRESSURE_MAX && self.humidity <= HUMIDITY_MAX
    }
}

/// Exponent of the Arden Buck equation, `(18.678 - T/234.5) * (T / (257.14 + T))`,
/// scaled by `UNIT`, for `t` thousandths of a degree.
pub open spec fn buck_exponent(t: int) -> int {
    fdiv((4_379_991_000 - 1000 * t) * t * UNIT, 234_500_000 * (257_140 + t))
}

/// Saturation vapour pressure in pascals (Arden Buck): `611.21 * exp(buck_exponent)`.
pub open spec fn saturation_pressure(t: int) -> int {
    fdiv(61121 * exp_fx(buck_exponent(t)), 100 * UNIT)
}

/// Partial pressure of water vapour, in pascals.
pub open spec fn vapor_pressure(a: Atmosphere) -> int {
    fdiv(a.humidity * saturation_pressure(a.temperature as int), HUMIDITY_MAX as int)
}

/// Air density in milligrams per cubic metre, as the ideal-gas mixture of
/// dry air (287.058 J/(kg K)) and water vapour (461.495 J/(kg K)).
pub open spec fn density(a: Atmosphere) -> int {
    let pv = vapor_pressure(a);
    let pd = a.pressure - pv;
    let tk = a.temperature + 273_150;
    fdiv(pd * 1_000_000_000_000, 287_058 * tk) + fdiv(pv * 1_000_000_000_000, 461_495 * tk)
}

/// Speed of sound in micrometres per second, `sqrt(1.4 * pressure / density)`.
pub open spec fn speed_of_sound(a: Atmosphere, rho: int) -> int {
    sqrt_floor(((14 * a.pressure * 100_000_000_000_000_000) / rho) as nat) as int
}

fn buck(t: i64) -> (r: i64)
    requires
        TEMPERATURE_MIN <= t <= TEMPERATURE_MAX,
    ensures
        r == buck_exponent(t as int),
        -EXP_LIMIT <= r <= EXP_LIMIT,
{
    let ti = t as i128;
    let a = 4_379_991_000 - 1000 * ti;
    let den = 234_500_000 * (257_140 + ti);
    proof {
        assert(-360_000_000_000_000_000_000_000 <= a * ti * UNIT <= 360_000_000_000_000_000_000_000)
            by (nonlinear_arith)
            requires
                a == 4_379_991_000 - 1000 * ti,
                -80_000 <= ti <= 60_000,
        ;
        assert(9_600_000_000 * 41_539_000_000_000 <= 9_600_000_000 * den) by (nonlinear_arith)
            requires
                den == 234_500_000 * (257_140 + ti),
                -80_000 <= ti,
        ;
        lemma_fdiv_bounded(a * ti * UNIT, den as int, 9_600_000_000);
    }
    div_floor(a * ti * UNIT, den) as i64
}

impl Atmosphere {
    /// Partial pressure of water vapour, in pascals.
    pub fn vapor_pressure(&self) -> (r: i64)
        requires
            self.valid(),
        ensures
            r == vapor_pressure(*self),
            0 <= r <= 20_000_000_000,
    {
        let e = exp(buck(self.temperature));
        proof {
            lemma_fdiv_bounded(61121 * e, 100 * UNIT, 1_500_000_000);
        }
        let ps = div_floor(61121 * e, 100 * UNIT);
        proof {
            vstd::arithmetic::div_mod::lemma_div_is_ordered(0, 61121 * e, 100 * UNIT);
            assert(0 <= self.humidity * ps <= 10_000 * 1_500_000_000) by (nonlinear_arith)
                requires
                    self.humidity <= 10_000,
                    0 <= ps <= 1_500_000_000,
            ;
            lemma_fdiv_bounded(self.humidity * ps, 10_000, 1_500_000_000);
            vstd::arithmetic::div_mod::lemma_div_is_ordered(0, self.humidity * ps, 10_000);
        }
        div_floor(self.humidity as i128 * ps, HUMIDITY_MAX as i128) as i64
    }

    /// Air density in milligrams per cubic metre.
    pub fn density(&self) -> (r: i64)
        requires
            self.valid(),
        ensures
            r == density(*self),
    {
        let pv = self.vapor_pressure() as i128;
        let pd = self.pressure as i128 - pv;
        let tk = self.temperature as i128 + 273_150;
        proof {
            lemma_fdiv_bounded(pd * 1_000_000_000_000, 287_058 * tk, 1_000_000_000_000_000_000_000_000);
            lemma_fdiv_bounded(pv * 1_000_000_000_000, 461_495 * tk, 1_000_000_000_000_000_000_000_000);
        }
        let dry = div_floor(pd * 1_000_000_000_000, 287_058 * tk);
        let wet = div_floor(pv * 1_000_000_000_000, 461_495 * tk);
        proof {
            assert(-20_000_000_000_000_000_000_000 <= pd * 1_000_000_000_000 <= 20_000_000_000_000_000_000_000);
            assert(0 <= pv * 1_000_000_000_000 <= 20_000_000_000_000_000_000_000);
            lemma_fdiv_bounded(pd * 1_000_000_000_000, 287_058 * tk, 1_000_000_000_000);
            lemma_fdiv_bounded(pv * 1_000_000_000_000, 461_495 * tk, 1_000_000_000_000);
        }
        (dry + wet) as i64
    }

    /// Speed of sound in micrometres per second, for a density `rho` in
    /// milligrams per cubic metre.
    pub fn speed_of_sound(&self, rho: i64) -> (r: u64)
        requires
            self.valid(),
            rho >= 1,
        ensures
            r == speed_of_sound(*self, rho as int),
    {
        let n = 14 * (self.pressure as u128) * 100_000_000_000_000_000;
        let q = n / (rho as u128);
        proof {
            vstd::arithmetic::div_mod::lemma_div_is_ordered_by_denominator(n as int, 1, rho as int);
        }
        let s = isqrt(q);
        proof {
            assert(s <= 0xffff_ffff_ffff) by (nonlinear_arith)
                requires
                    s * s <= q,
                    q <= 280_000_000_000_000_000_000_000,
            ;
        }
        s as u64
    }
}

} // verus!
