//! A run depends on the inputs of its simulation alone: two simulations of
//! the same inputs make the same runs, find the same zero and fail in the
//! same way.
use vstd::prelude::*;
use crate::error::BallisticError;
use crate::simulation::{advance, describes, sample, state_at, Conditions, Scope, Simulation};
use crate::projectile::Projectile;
use crate::zero::{crossing_at, height_at, lemma_crossing_unique, lemma_zero_round_trip, next_adjustment, search, zero_result};
use crate::fixed::QUARTER_PI;

verus! {

/// The two simulations agree on everything but their muzzle pitch.
pub open spec fn same_model(a: Simulation, b: Simulation) -> bool {
    &&& a.projectile == b.projectile
    &&& a.scope == b.scope
    &&& a.conditions == b.conditions
    &&& a.table@ == b.table@
    &&& a.density == b.density
    &&& a.sound == b.sound
    &&& a.drag_factor == b.drag_factor
    &&& a.wind == b.wind
    &&& a.rotation == b.rotation
}

/// Simulations of the same inputs agree on everything but their muzzle pitch.
pub proof fn lemma_describes_same_model(
    a: Simulation,
    b: Simulation,
    projectile: Projectile,
    scope: Scope,
    conditions: Conditions,
    pa: int,
    pb: int,
)
    requires
        describes(a, projectile, scope, conditions, pa),
        describes(b, projectile, scope, conditions, pb),
    ensures
        same_model(a, b),
{
}

/// Simulations of the same model make the same run at every pitch.
pub proof fn lemma_same_states(a: Simulation, b: Simulation, pitch: int, n: nat)
    requires
        same_model(a, b),
    ensures
        state_at(a, pitch, n) == state_at(b, pitch, n),
    decreases n,
{
    if n > 0 {
        lemma_same_states(a, b, pitch, (n - 1) as nat);
        if let Some(s) = state_at(a, pitch, (n - 1) as nat) {
            assert(advance(a, s) == advance(b, s));
        }
    }
}

/// Simulations of the same model reach a distance at the same height.
pub proof fn lemma_same_height(a: Simulation, b: Simulation, pitch: int, d: int)
    requires
        same_model(a, b),
    ensures
        height_at(a, pitch, d) == height_at(b, pitch, d),
{
    assert forall|n: nat| #[trigger] sample(a, pitch, n) == sample(b, pitch, n) by {
        lemma_same_states(a, b, pitch, n);
        lemma_same_states(a, b, pitch, n + 1);
    }
    assert forall|n: nat| crossing_at(a, pitch, d, n) == crossing_at(b, pitch, d, n) by {
        assert(sample(a, pitch, n) == sample(b, pitch, n));
        if crossing_at(a, pitch, d, n) {
            assert forall|m: nat| m < n implies #[trigger] sample(b, pitch, m) is Some && crate::zero::relative_of(
                b,
                sample(b, pitch, m)->0,
            ).0 < d by {
                assert(sample(a, pitch, m) == sample(b, pitch, m));
            }
        }
        if crossing_at(b, pitch, d, n) {
            assert forall|m: nat| m < n implies #[trigger] sample(a, pitch, m) is Some && crate::zero::relative_of(
                a,
                sample(a, pitch, m)->0,
            ).0 < d by {
                assert(sample(a, pitch, m) == sample(b, pitch, m));
            }
        }
    }
    if exists|n: nat| crossing_at(a, pitch, d, n) {
        let na = choose|n: nat| crossing_at(a, pitch, d, n);
        let nb = choose|n: nat| crossing_at(b, pitch, d, n);
        assert(crossing_at(b, pitch, d, na));
        lemma_crossing_unique(b, pitch, d, na, nb);
    }
}

proof fn lemma_same_search(
    a: Simulation,
    b: Simulation,
    d: int,
    offset: int,
    tolerance: int,
    pitch: int,
    adjustment: int,
    elevation: int,
)
    requires
        same_model(a, b),
    ensures
        search(a, d, offset, tolerance, pitch, adjustment, elevation) == search(
            b,
            d,
            offset,
            tolerance,
            pitch,
            adjustment,
            elevation,
        ),
    decreases (if adjustment < 0 {
        -adjustment
    } else {
        adjustment
    }),
{
    let na = next_adjustment(adjustment, elevation, offset);
    let np = pitch + na;
    lemma_same_height(a, b, np, d);
    if np <= QUARTER_PI && np != pitch {
        if let Some(h) = height_at(a, np, d) {
            if !(offset - tolerance <= h <= offset + tolerance) {
                lemma_same_search(a, b, d, offset, tolerance, np, na, h);
            }
        }
    }
}

/// Simulations of the same model find the same zero.
pub proof fn lemma_same_zero(a: Simulation, b: Simulation, d: int, offset: int, tolerance: int)
    requires
        same_model(a, b),
    ensures
        zero_result(a, d, offset, tolerance) == zero_result(b, d, offset, tolerance),
{
    lemma_same_search(a, b, d, offset, tolerance, 0, QUARTER_PI as int, crate::zero::ELEVATION_SENTINEL as int);
}

/// Zeroing a simulation at distance `d` with pitch `p` as result, then
/// running any simulation of the same inputs at `p`, reaches `d` at a height
/// within the tolerance of the offset.
pub proof fn lemma_zero_then_solve(
    zeroed: Simulation,
    solved: Simulation,
    projectile: Projectile,
    scope: Scope,
    conditions: Conditions,
    d: int,
    offset: int,
    tolerance: int,
    p: int,
)
    requires
        describes(zeroed, projectile, scope, conditions, 0),
        zero_result(zeroed, d, offset, tolerance) == Ok::<int, BallisticError>(p),
        describes(solved, projectile, scope, conditions, p),
    ensures
        height_at(solved, solved.muzzle_pitch as int, d) matches Some(h) && offset - tolerance <= h <= offset
            + tolerance,
{
    lemma_zero_round_trip(zeroed, d, offset, tolerance, p);
    lemma_describes_same_model(zeroed, solved, projectile, scope, conditions, 0, p);
    lemma_same_height(zeroed, solved, p, d);
}

} // verus!
