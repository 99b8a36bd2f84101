//! A full solve: zero under one set of conditions, then tabulate the
//! trajectory under another.
use vstd::prelude::*;
use crate::error::BallisticError;
use crate::projectile::Projectile;
use crate::simulation::{accepts, describes, Conditions, Scope, Simulation};
use crate::table::{increasing_buckets, kept, kept_rows, Row, STEP_MAX};
use crate::zero::{zero_result, ZERO_OFFSET_MAX};
use crate::runs::{lemma_describes_same_model, lemma_same_zero};

verus! {

/// The inputs of a full solve: the projectile and scope, the conditions to
/// zero under, the conditions to solve under, and the zero's target.
pub struct Simulator {
    pub projectile: Projectile,
    pub scope: Scope,
    /// Conditions under which the zero is found.
    pub zero_conditions: Conditions,
    /// Conditions under which the drop table is computed.
    pub solve_conditions: Conditions,
    /// Height above the line of sight to zero at, micrometres.
    pub zero_offset: i64,
    /// Accepted distance from that height, micrometres.
    pub zero_tolerance: i64,
}

/// Every simulation of the zero inputs, from a level muzzle, zeroes at
/// `zero_distance` with result `r`. All such simulations make the same runs
/// (`lemma_same_zero`), so at most one `r` qualifies.
pub open spec fn zeroes_to(sim: Simulator, zero_distance: int, r: Result<int, BallisticError>) -> bool {
    forall|z: Simulation|
        #[trigger] describes(z, sim.projectile, sim.scope, sim.zero_conditions, 0) ==> zero_result(
            z,
            zero_distance,
            sim.zero_offset as int,
            sim.zero_tolerance as int,
        ) == r
}

/// `s` simulates the solve conditions at the pitch found by zeroing.
pub open spec fn solves(sim: Simulator, zero_distance: int, s: Simulation) -> bool {
    &&& describes(s, sim.projectile, sim.scope, sim.solve_conditions, s.muzzle_pitch as int)
    &&& zeroes_to(sim, zero_distance, Ok::<int, BallisticError>(s.muzzle_pitch as int))
}

/// Zeroing under the zero conditions fails with `e`.
pub open spec fn zero_fails(sim: Simulator, zero_distance: int, e: BallisticError) -> bool {
    zeroes_to(sim, zero_distance, Err::<int, BallisticError>(e))
}

/// What a solve owes: refused inputs give `OutOfRange`; otherwise a failed
/// zero gives its error, and a zero at a pitch the solve conditions accept
/// gives a simulation.
pub open spec fn solve_outcome<T>(sim: Simulator, zero_distance: int, r: Result<T, BallisticError>) -> bool {
    &&& (!sim.valid_target() || !accepts(sim.projectile, sim.scope, sim.zero_conditions, 0)) ==> r
        == Err::<T, BallisticError>(BallisticError::OutOfRange)
    &&& (sim.valid_target() && accepts(sim.projectile, sim.scope, sim.zero_conditions, 0)) ==> {
        &&& forall|e: BallisticError| #[trigger] zero_fails(sim, zero_distance, e) ==> r == Err::<T, BallisticError>(e)
        &&& forall|p: int|
            #[trigger] zeroes_to(sim, zero_distance, Ok::<int, BallisticError>(p)) ==> (r is Ok <==> accepts(
                sim.projectile,
                sim.scope,
                sim.solve_conditions,
                p,
            ))
        &&& r matches Err(e) ==> e == BallisticError::OutOfRange || zero_fails(sim, zero_distance, e)
    }
}

impl Simulator {
    pub fn new(
        projectile: Projectile,
        scope: Scope,
        zero_conditions: Conditions,
        solve_conditions: Conditions,
        zero_offset: i64,
        zero_tolerance: i64,
    ) -> (r: Simulator)
        ensures
            r.projectile == projectile,
            r.scope == scope,
            r.zero_conditions == zero_conditions,
            r.solve_conditions == solve_conditions,
            r.zero_offset == zero_offset,
            r.zero_tolerance == zero_tolerance,
    {
        Simulator { projectile, scope, zero_conditions, solve_conditions, zero_offset, zero_tolerance }
    }

    /// The target of the zero lies in the accepted domain.
    pub open spec fn valid_target(&self) -> bool {
        -ZERO_OFFSET_MAX <= self.zero_offset <= ZERO_OFFSET_MAX && 0 <= self.zero_tolerance <= ZERO_OFFSET_MAX
    }

    /// The simulation used to find the zero, from a level muzzle.
    pub fn zero_simulation(&self) -> (r: Result<Simulation, BallisticError>)
        ensures
            r matches Ok(s) ==> describes(s, self.projectile, self.scope, self.zero_conditions, 0),
            r matches Err(e) ==> e == BallisticError::OutOfRange,
            r is Ok <==> accepts(self.projectile, self.scope, self.zero_conditions, 0),
    {
        Simulation::new(self.projectile, self.scope, self.zero_conditions, 0)
    }

    /// The simulation under the solve conditions at the muzzle pitch that
    /// zeroing finds under the zero conditions.
    pub fn solution_simulation(&self, zero_distance: i64) -> (r: Result<Simulation, BallisticError>)
        ensures
            r matches Ok(s) ==> solves(*self, zero_distance as int, s) && self.valid_target(),
            solve_outcome(*self, zero_distance as int, r),
    {
        if self.zero_offset < -ZERO_OFFSET_MAX || self.zero_offset > ZERO_OFFSET_MAX || self.zero_tolerance
            < 0 || self.zero_tolerance > ZERO_OFFSET_MAX {
            return Err(BallisticError::OutOfRange);
        }
        let zero = match self.zero_simulation() {
            Ok(z) => z,
            Err(e) => {
                return Err(e);
            },
        };
        let found = zero.zero(zero_distance, self.zero_offset, self.zero_tolerance);
        let ghost outcome = zero_result(zero, zero_distance as int, self.zero_offset as int, self.zero_tolerance as int);
        proof {
            assert forall|z: Simulation|
                #[trigger] describes(z, self.projectile, self.scope, self.zero_conditions, 0) implies zero_result(
                z,
                zero_distance as int,
                self.zero_offset as int,
                self.zero_tolerance as int,
            ) == outcome by {
                lemma_describes_same_model(zero, z, self.projectile, self.scope, self.zero_conditions, 0, 0);
                lemma_same_zero(zero, z, zero_distance as int, self.zero_offset as int, self.zero_tolerance as int);
            }
            assert(zeroes_to(*self, zero_distance as int, outcome));
            assert(describes(zero, self.projectile, self.scope, self.zero_conditions, 0));
        }
        let pitch = match found {
            Ok(p) => p,
            Err(e) => {
                return Err(e);
            },
        };
        Simulation::new(self.projectile, self.scope, self.solve_conditions, pitch)
    }

    /// The drop table under the solve conditions, at the pitch found by
    /// zeroing at `zero_distance`: the first sample at or past each multiple
    /// of `step` up to `range`.
    pub fn drop_table(&self, zero_distance: i64, step: i64, range: i64) -> (r: Result<Vec<Row>, BallisticError>)
        ensures
            r matches Ok(rows) ==> exists|s: Simulation|
                {
                    &&& solves(*self, zero_distance as int, s)
                    &&& exists|n: nat|
                        rows@ == kept_rows(
                            s,
                            s.muzzle_pitch as int,
                            step as int,
                            range as int,
                            self.zero_tolerance as int,
                            n,
                        ) && forall|m: nat| m >= n ==> !#[trigger] kept(s, s.muzzle_pitch as int, step as int, range as int, m)
                },
            r matches Ok(rows) ==> increasing_buckets(rows@, step as int),
            (step < 1 || step > STEP_MAX) ==> r == Err::<Vec<Row>, BallisticError>(BallisticError::OutOfRange),
            (1 <= step <= STEP_MAX) ==> solve_outcome(*self, zero_distance as int, r),
    {
        if step < 1 || step > STEP_MAX {
            return Err(BallisticError::OutOfRange);
        }
        let solution = match self.solution_simulation(zero_distance) {
            Ok(s) => s,
            Err(e) => {
                return Err(e);
            },
        };
        Ok(solution.drop_table(step, range, self.zero_tolerance))
    }
}

} // verus!
