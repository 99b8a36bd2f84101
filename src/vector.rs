//! Three-component integer vectors and the rotations about the vertical and
//! the lateral axis.
use vstd::prelude::*;
use crate::fixed::{cos, cos_fx, div_floor, fdiv, isqrt, lemma_fdiv_bounded, sin, sin_fx, sqrt_floor, UNIT};

verus! {

/// A vector of three integer components.
#[derive(Clone, Copy, Debug, PartialEq, Eq, Structural)]
pub struct Vector3 {
    pub x: i64,
    pub y: i64,
    pub z: i64,
}

impl View for Vector3 {
    type V = (int, int, int);

    open spec fn view(&self) -> (int, int, int) {
        (self.x as int, self.y as int, self.z as int)
    }
}

/// Largest magnitude among the components.
pub open spec fn max_abs(v: (int, int, int)) -> int {
    let ax = if v.0 < 0 { -v.0 } else { v.0 };
    let ay = if v.1 < 0 { -v.1 } else { v.1 };
    let az = if v.2 < 0 { -v.2 } else { v.2 };
    if ax >= ay && ax >= az {
        ax
    } else if ay >= az {
        ay
    } else {
        az
    }
}

/// Every component lies within `[-b, b]`.
pub open spec fn bounded(v: (int, int, int), b: int) -> bool {
    -b <= v.0 <= b && -b <= v.1 <= b && -b <= v.2 <= b
}

/// Rotation about the z axis (pitch) by `a` nanoradians.
pub open spec fn pivot_z(v: (int, int, int), a: int) -> (int, int, int) {
    let c = cos_fx(a);
    let s = sin_fx(a);
    (fdiv(v.0 * c - v.1 * s, UNIT as int), fdiv(v.0 * s + v.1 * c, UNIT as int), v.2)
}

/// Rotation about the y axis (yaw) by `a` nanoradians.
pub open spec fn pivot_y(v: (int, int, int), a: int) -> (int, int, int) {
    let c = cos_fx(a);
    let s = sin_fx(a);
    (fdiv(v.0 * c + v.2 * s, UNIT as int), v.1, fdiv(v.2 * c - v.0 * s, UNIT as int))
}

/// Euclidean length, rounded down.
pub open spec fn norm(v: (int, int, int)) -> int {
    sqrt_floor((v.0 * v.0 + v.1 * v.1 + v.2 * v.2) as nat) as int
}

/// The largest component magnitude that the rotations accept.
pub const ROTATE_LIMIT: i64 = 0x1000_0000_0000_0000;

proof fn lemma_rotated_component(p: int, q: int, c: int, s: int, b: int)
    requires
        -b <= p <= b,
        -b <= q <= b,
        -UNIT <= c <= UNIT,
        -UNIT <= s <= UNIT,
        b >= 0,
    ensures
        -2 * b <= fdiv(p * c - q * s, UNIT as int) <= 2 * b,
        -2 * b <= fdiv(p * c + q * s, UNIT as int) <= 2 * b,
        -2 * b * UNIT <= p * c - q * s <= 2 * b * UNIT,
        -2 * b * UNIT <= p * c + q * s <= 2 * b * UNIT,
{
    assert(-b * UNIT <= p * c <= b * UNIT) by (nonlinear_arith)
        requires
            -b <= p <= b,
            -UNIT <= c <= UNIT,
    ;
    assert(-b * UNIT <= q * s <= b * UNIT) by (nonlinear_arith)
        requires
            -b <= q <= b,
            -UNIT <= s <= UNIT,
    ;
    assert(2 * b * UNIT == (2 * b) * UNIT);
    lemma_fdiv_bounded(p * c - q * s, UNIT as int, 2 * b);
    lemma_fdiv_bounded(p * c + q * s, UNIT as int, 2 * b);
}

/// A rotation at most doubles the bound on the components.
pub proof fn lemma_pivot_bounded(v: (int, int, int), a: int, b: int)
    requires
        b >= 0,
        bounded(v, b),
    ensures
        bounded(pivot_z(v, a), 2 * b),
        bounded(pivot_y(v, a), 2 * b),
{
    let c = cos_fx(a);
    let s = sin_fx(a);
    assert(-UNIT <= c <= UNIT && -UNIT <= s <= UNIT);
    lemma_rotated_component(v.0, v.1, c, s, b);
    lemma_rotated_component(v.1, v.0, c, -s, b);
    lemma_rotated_component(v.0, v.2, c, -s, b);
    lemma_rotated_component(v.2, v.0, c, s, b);
    assert(v.1 * c - v.0 * (-s) == v.0 * s + v.1 * c) by (nonlinear_arith);
    assert(v.0 * c - v.2 * (-s) == v.0 * c + v.2 * s) by (nonlinear_arith);
}

impl Vector3 {
    /// The zero vector.
    pub fn zero() -> (r: Vector3)
        ensures
            r@ == (0int, 0int, 0int),
    {
        Vector3 { x: 0, y: 0, z: 0 }
    }

    /// Rotation about the z axis by `a` nanoradians.
    pub fn pivot_z(&self, a: i64) -> (r: Vector3)
        requires
            bounded(self@, ROTATE_LIMIT as int),
        ensures
            r@ == pivot_z(self@, a as int),
            forall|b: int| b >= 0 && #[trigger] bounded(self@, b) ==> bounded(r@, 2 * b),
    {
        let c = cos(a) as i128;
        let s = sin(a) as i128;
        let x = self.x as i128;
        let y = self.y as i128;
        proof {
            lemma_rotated_component(x as int, y as int, c as int, s as int, ROTATE_LIMIT as int);
            lemma_rotated_component(y as int, x as int, c as int, -s as int, ROTATE_LIMIT as int);
            assert(y * c + x * s == x * s + y * c);
            assert(y * c - x * (-s) == x * s + y * c) by (nonlinear_arith);
            assert forall|b: int| b >= 0 && #[trigger] bounded(self@, b) implies bounded(
                pivot_z(self@, a as int),
                2 * b,
            ) by {
                lemma_rotated_component(x as int, y as int, c as int, s as int, b);
                lemma_rotated_component(y as int, x as int, c as int, -s as int, b);
            }
        }
        let nx = div_floor(x * c - y * s, UNIT);
        let ny = div_floor(x * s + y * c, UNIT);
        Vector3 { x: nx as i64, y: ny as i64, z: self.z }
    }

    /// Rotation about the y axis by `a` nanoradians.
    pub fn pivot_y(&self, a: i64) -> (r: Vector3)
        requires
            bounded(self@, ROTATE_LIMIT as int),
        ensures
            r@ == pivot_y(self@, a as int),
            forall|b: int| b >= 0 && #[trigger] bounded(self@, b) ==> bounded(r@, 2 * b),
    {
        let c = cos(a) as i128;
        let s = sin(a) as i128;
        let x = self.x as i128;
        let z = self.z as i128;
        proof {
            lemma_rotated_component(x as int, z as int, c as int, -s as int, ROTATE_LIMIT as int);
            lemma_rotated_component(z as int, x as int, c as int, s as int, ROTATE_LIMIT as int);
            assert(x * c - z * (-s) == x * c + z * s) by (nonlinear_arith);
            assert forall|b: int| b >= 0 && #[trigger] bounded(self@, b) implies bounded(
                pivot_y(self@, a as int),
                2 * b,
            ) by {
                lemma_rotated_component(x as int, z as int, c as int, -s as int, b);
                lemma_rotated_component(z as int, x as int, c as int, s as int, b);
            }
        }
        let nx = div_floor(x * c + z * s, UNIT);
        let nz = div_floor(z * c - x * s, UNIT);
        Vector3 { x: nx as i64, y: self.y, z: nz as i64 }
    }

    /// Euclidean length, rounded down.
    pub fn norm(&self) -> (r: u64)
        requires
            bounded(self@, 0x1_0000_0000_0000),
        ensures
            r == norm(self@),
            r * r <= self.x * self.x + self.y * self.y + self.z * self.z,
    {
        let x = self.x as i128;
        let y = self.y as i128;
        let z = self.z as i128;
        proof {
            let lim: int = 0x1_0000_0000_0000_0000_0000_0000;
            assert(x * x <= lim && y * y <= lim && z * z <= lim) by (nonlinear_arith)
                requires
                    -0x1_0000_0000_0000 <= x <= 0x1_0000_0000_0000,
                    -0x1_0000_0000_0000 <= y <= 0x1_0000_0000_0000,
                    -0x1_0000_0000_0000 <= z <= 0x1_0000_0000_0000,
                    lim == 0x1_0000_0000_0000_0000_0000_0000,
            ;
            assert(x * x >= 0 && y * y >= 0 && z * z >= 0) by (nonlinear_arith);
        }
        let sq = (x * x + y * y + z * z) as u128;
        let r = isqrt(sq);
        proof {
            assert(r <= 0x2_0000_0000_0000) by (nonlinear_arith)
                requires
                    r * r <= sq,
                    sq <= 0x3_0000_0000_0000_0000_0000_0000,
            ;
        }
        r as u64
    }
}

} // verus!
