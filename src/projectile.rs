//! The projectile: mass, calibre, ballistic coefficient, muzzle velocity and
//! reference drag function, with the quantities the drag force derives from them.
use vstd::prelude::*;
use crate::fixed::{PI, UNIT};

verus! {

/// Heaviest accepted projectile, in milligrams.
pub const MASS_MAX: u64 = 100_000_000;
/// Widest accepted calibre, in micrometres.
pub const CALIBER_MAX: u64 = 100_000;
/// Smallest accepted ballistic coefficient, in ten-thousandths.
pub const BC_MIN: u64 = 100;
/// Largest accepted ballistic coefficient, in ten-thousandths.
pub const BC_MAX: u64 = 1_000_000;
/// Fastest accepted muzzle velocity, in micrometres per second.
pub const VELOCITY_MAX: u64 = 2_000_000_000;

/// The standard reference projectiles, each with its own drag table.
#[derive(Clone, Copy, Debug, PartialEq, Eq, Structural)]
pub enum DragFunction {
    G1,
    G5,
    G7,
    G8,
}

/// What is fired.
#[derive(Clone, Copy, Debug, PartialEq, Eq, Structural)]
pub struct Projectile {
    /// Milligrams.
    pub mass: u64,
    /// Micrometres.
    pub caliber: u64,
    /// Ballistic coefficient (pounds per square inch) in ten-thousandths.
    pub bc: u64,
    /// Muzzle velocity in micrometres per second.
    pub velocity: u64,
    /// Reference drag function that the ballistic coefficient refers to.
    pub drag: DragFunction,
}

impl Projectile {
    /// The inputs lie in the domain of the model.
    pub open spec fn valid(&self) -> bool {
        1 <= self.mass <= MASS_MAX && 1 <= self.caliber <= CALIBER_MAX && BC_MIN <= self.bc <= BC_MAX
            && self.velocity <= VELOCITY_MAX
    }

    pub fn is_valid(&self) -> (r: bool)
        ensures
            r == self.valid(),
    {
        1 <= self.mass && self.mass <= MASS_MAX && 1 <= self.caliber && self.caliber <= CALIBER_MAX
            && BC_MIN <= self.bc && self.bc <= BC_MAX && self.velocity <= VELOCITY_MAX
    }

    /// Frontal area `pi * d^2 / 4`, in square micrometres.
    pub open spec fn area_spec(&self) -> int {
        (PI * self.caliber * self.caliber) / (4 * UNIT)
    }

    /// Form factor `sectional_density / bc` in millionths, with the sectional
    /// density in pounds per square inch (1 lb = 453 592.37 mg, 1 in = 25 400 um).
    pub open spec fn form_factor_spec(&self) -> int {
        (self.mass * 645_160_000_000_000_000_000) / (45_359_237 * self.caliber * self.caliber * self.bc)
    }

    /// Frontal area in square micrometres.
    pub fn area(&self) -> (r: u64)
        requires
            self.valid(),
        ensures
            r == self.area_spec(),
            r <= 8_000_000_000,
    {
        let c = self.caliber as u128;
        proof {
            assert(c * c <= 10_000_000_000) by (nonlinear_arith)
                requires
                    c <= 100_000,
            ;
        }
        let n = (PI as u128) * (c * c);
        proof {
            assert((PI as u128) * (c * c) == PI * c * c) by (nonlinear_arith);
            vstd::arithmetic::div_mod::lemma_div_is_ordered(n as int, 32_000_000_000_000_000_000, 4 * UNIT);
        }
        (n / (4 * (UNIT as u128))) as u64
    }

    /// Form factor in millionths.
    pub fn form_factor(&self) -> (r: u64)
        requires
            self.valid(),
        ensures
            r == self.form_factor_spec(),
            r <= 15_000_000_000_000_000_000,
    {
        let c = self.caliber as u128;
        proof {
            assert(45_359_237 * c * c <= 45_359_237 * 10_000_000_000) by (nonlinear_arith)
                requires
                    1 <= c <= 100_000,
            ;
            assert(45_359_237 * c * c * (self.bc as u128) <= 45_359_237 * 10_000_000_000 * 1_000_000)
                by (nonlinear_arith)
                requires
                    1 <= c <= 100_000,
                    self.bc <= 1_000_000,
            ;
        }
        let d = 45_359_237 * c * c * (self.bc as u128);
        proof {
            assert(d >= 4_535_923_700) by (nonlinear_arith)
                requires
                    d == 45_359_237 * c * c * (self.bc as u128),
                    c >= 1,
                    self.bc >= 100,
            ;
            vstd::arithmetic::div_mod::lemma_div_is_ordered_by_denominator(
                (self.mass * 645_160_000_000_000_000_000) as int,
                4_535_923_700,
                d as int,
            );
            vstd::arithmetic::div_mod::lemma_div_is_ordered(
                (self.mass * 645_160_000_000_000_000_000) as int,
                (100_000_000 * 645_160_000_000_000_000_000) as int,
                4_535_923_700,
            );
        }
        ((self.mass as u128) * 645_160_000_000_000_000_000 / d) as u64
    }
}

} // verus!
