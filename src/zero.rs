//! Zeroing: the search for the muzzle pitch at which the trajectory crosses
//! the zero distance at the desired height.
use vstd::prelude::*;
use crate::error::BallisticError;
use crate::integrator::lemma_terminated_stays;
use crate::fixed::QUARTER_PI;
use vstd::arithmetic::power2::pow2;
use crate::simulation::{relative_position, sample, MotionState, Simulation, TIME_LIMIT};

verus! {

/// Height that the search starts from: one metre below the line of sight.
pub const ELEVATION_SENTINEL: i64 = -1_000_000;

/// Largest accepted zero offset or tolerance, in micrometres.
pub const ZERO_OFFSET_MAX: i64 = 0x1000_0000_0000_0000;

/// Position of a state relative to the line of sight.
pub open spec fn relative_of(sim: Simulation, s: MotionState) -> (int, int, int) {
    relative_position(sim, s.position@)
}

/// Sample `n` is the first sample of the run at `pitch` at or beyond
/// distance `d`.
pub open spec fn crossing_at(sim: Simulation, pitch: int, d: int, n: nat) -> bool {
    &&& sample(sim, pitch, n) is Some
    &&& relative_of(sim, sample(sim, pitch, n)->0).0 >= d
    &&& forall|m: nat|
        m < n ==> #[trigger] sample(sim, pitch, m) is Some && relative_of(sim, sample(sim, pitch, m)->0).0
            < d
}

/// Relative height at which the run at `pitch` first reaches distance `d`;
/// `None` if it terminates before.
pub open spec fn height_at(sim: Simulation, pitch: int, d: int) -> Option<int> {
    if exists|n: nat| crossing_at(sim, pitch, d, n) {
        let n = choose|n: nat| crossing_at(sim, pitch, d, n);
        Some(relative_of(sim, sample(sim, pitch, n)->0).1)
    } else {
        None
    }
}

/// Half of `a`, rounded towards zero.
pub open spec fn halve(a: int) -> int {
    if a >= 0 {
        a / 2
    } else {
        -((-a) / 2)
    }
}

/// The next pitch adjustment: reversed when the last one went up while the
/// height was above the target, or down while it was below; then halved.
pub open spec fn next_adjustment(adjustment: int, elevation: int, offset: int) -> int {
    let reverse = (adjustment > 0) != (elevation < offset);
    halve(
        if reverse {
            -adjustment
        } else {
            adjustment
        },
    )
}

/// The search from a pitch, the last adjustment and the last observed height.
pub open spec fn search(
    sim: Simulation,
    d: int,
    offset: int,
    tolerance: int,
    pitch: int,
    adjustment: int,
    elevation: int,
) -> Result<int, BallisticError>
    decreases (if adjustment < 0 {
        -adjustment
    } else {
        adjustment
    }),
{
    let a = next_adjustment(adjustment, elevation, offset);
    let np = pitch + a;
    if np > QUARTER_PI {
        Err(BallisticError::UnreachableZero)
    } else if np == pitch {
        Err(BallisticError::ConvergenceStalled)
    } else {
        match height_at(sim, np, d) {
            None => Err(BallisticError::RangeExceedsTrajectory),
            Some(h) => if offset - tolerance <= h <= offset + tolerance {
                Ok(np)
            } else {
                search(sim, d, offset, tolerance, np, a, h)
            },
        }
    }
}

/// The result of zeroing at distance `d`: the search from a level muzzle,
/// an upward adjustment of 45 degrees and the sentinel height.
pub open spec fn zero_result(sim: Simulation, d: int, offset: int, tolerance: int) -> Result<int, BallisticError> {
    search(sim, d, offset, tolerance, 0, QUARTER_PI as int, ELEVATION_SENTINEL as int)
}

/// Number of trial trajectories that the search evaluates.
pub open spec fn trials(
    sim: Simulation,
    d: int,
    offset: int,
    tolerance: int,
    pitch: int,
    adjustment: int,
    elevation: int,
) -> nat
    decreases (if adjustment < 0 {
        -adjustment
    } else {
        adjustment
    }),
{
    let a = next_adjustment(adjustment, elevation, offset);
    let np = pitch + a;
    if np > QUARTER_PI || np == pitch {
        0
    } else {
        match height_at(sim, np, d) {
            Some(h) => if offset - tolerance <= h <= offset + tolerance {
                1
            } else {
                1 + trials(sim, d, offset, tolerance, np, a, h)
            },
            None => 1,
        }
    }
}

proof fn lemma_trials_bounded(
    sim: Simulation,
    d: int,
    offset: int,
    tolerance: int,
    pitch: int,
    adjustment: int,
    elevation: int,
    k: nat,
)
    requires
        -(pow2(k) as int) < adjustment < pow2(k),
    ensures
        trials(sim, d, offset, tolerance, pitch, adjustment, elevation) <= k,
    decreases k,
{
    let a = next_adjustment(adjustment, elevation, offset);
    if k == 0 {
        vstd::arithmetic::power2::lemma2_to64();
    } else {
        vstd::arithmetic::power2::lemma_pow2_unfold(k);
        let np = pitch + a;
        if let Some(h) = height_at(sim, np, d) {
            if np <= QUARTER_PI && np != pitch && !(offset - tolerance <= h <= offset + tolerance) {
                lemma_trials_bounded(sim, d, offset, tolerance, np, a, h, (k - 1) as nat);
            }
        }
    }
}

/// Zeroing evaluates at most thirty trial trajectories: the adjustment
/// starts below 2^30 nanoradians and halves on every trial.
pub proof fn lemma_zero_trials_bounded(sim: Simulation, d: int, offset: int, tolerance: int)
    ensures
        trials(sim, d, offset, tolerance, 0, QUARTER_PI as int, ELEVATION_SENTINEL as int) <= 30,
{
    vstd::arithmetic::power2::lemma2_to64();
    lemma_trials_bounded(sim, d, offset, tolerance, 0, QUARTER_PI as int, ELEVATION_SENTINEL as int, 30);
}

/// The first crossing of a distance is unique.
pub proof fn lemma_crossing_unique(sim: Simulation, pitch: int, d: int, n: nat, k: nat)
    requires
        crossing_at(sim, pitch, d, n),
        crossing_at(sim, pitch, d, k),
    ensures
        n == k,
{
    if n < k {
        assert(sample(sim, pitch, n) is Some);
    } else if k < n {
        assert(sample(sim, pitch, k) is Some);
    }
}

/// If zeroing succeeds with pitch `p`, the run at `p` reaches the zero
/// distance at a height within the tolerance of the offset.
pub proof fn lemma_zero_round_trip(sim: Simulation, d: int, offset: int, tolerance: int, p: int)
    requires
        zero_result(sim, d, offset, tolerance) == Ok::<int, BallisticError>(p),
    ensures
        height_at(sim, p, d) matches Some(h) && offset - tolerance <= h <= offset + tolerance,
        exists|n: nat|
            crossing_at(sim, p, d, n) && offset - tolerance <= relative_of(sim, sample(sim, p, n)->0).1
                <= offset + tolerance,
{
    lemma_search_ok(sim, d, offset, tolerance, 0, QUARTER_PI as int, ELEVATION_SENTINEL as int, p);
}

proof fn lemma_search_ok(
    sim: Simulation,
    d: int,
    offset: int,
    tolerance: int,
    pitch: int,
    adjustment: int,
    elevation: int,
    p: int,
)
    requires
        search(sim, d, offset, tolerance, pitch, adjustment, elevation) == Ok::<int, BallisticError>(p),
    ensures
        height_at(sim, p, d) matches Some(h) && offset - tolerance <= h <= offset + tolerance,
        exists|n: nat|
            crossing_at(sim, p, d, n) && offset - tolerance <= relative_of(sim, sample(sim, p, n)->0).1
                <= offset + tolerance,
    decreases (if adjustment < 0 {
        -adjustment
    } else {
        adjustment
    }),
{
    let a = next_adjustment(adjustment, elevation, offset);
    let np = pitch + a;
    if np <= QUARTER_PI && np != pitch {
        if let Some(h) = height_at(sim, np, d) {
            if offset - tolerance <= h <= offset + tolerance {
                let n = choose|n: nat| crossing_at(sim, np, d, n);
                assert(crossing_at(sim, p, d, n));
            } else {
                lemma_search_ok(sim, d, offset, tolerance, np, a, h, p);
            }
        }
    }
}

impl Simulation {
    /// Relative height at which the run at `pitch` first reaches `distance`;
    /// `None` if the run terminates before.
    pub fn height_at(&self, pitch: i64, distance: i64) -> (r: Option<i64>)
        requires
            self.wf(),
            -QUARTER_PI <= pitch <= QUARTER_PI,
        ensures
            r matches Some(h) ==> height_at(*self, pitch as int, distance as int) == Some(h as int),
            r is None ==> height_at(*self, pitch as int, distance as int) is None,
            r matches Some(h) ==> -0x1_0000_0000_0000 <= h <= 0x1_0000_0000_0000,
    {
        let mut it = self.iter_at(pitch);
        loop
            invariant
                it.wf(),
                it.simulation == self,
                it.pitch == pitch,
                !it.done,
                forall|m: nat|
                    m < it.index@ ==> #[trigger] sample(*self, pitch as int, m) is Some && relative_of(
                        *self,
                        sample(*self, pitch as int, m)->0,
                    ).0 < distance,
            decreases TIME_LIMIT - it.state.time,
        {
            let ghost n = it.index@;
            let ghost before = it.state.time;
            match it.next() {
                Some(p) => {
                    let rel = p.relative_position();
                    if rel.x >= distance {
                        proof {
                            assert(crossing_at(*self, pitch as int, distance as int, n));
                            let k = choose|k: nat| crossing_at(*self, pitch as int, distance as int, k);
                            lemma_crossing_unique(*self, pitch as int, distance as int, n, k);
                        }
                        return Some(rel.y);
                    }
                    assert(it.state.time > before);
                },
                None => {
                    proof {
                        assert forall|k: nat| !crossing_at(*self, pitch as int, distance as int, k) by {
                            if k >= n && crossing_at(*self, pitch as int, distance as int, k) {
                                lemma_terminated_stays(*self, pitch as int, n + 1, k + 1);
                            }
                        }
                    }
                    return None;
                },
            }
        }
    }

    /// Searches for the muzzle pitch at which the trajectory crosses
    /// `distance` at `offset` above the line of sight, within `tolerance`.
    pub fn zero(&self, distance: i64, offset: i64, tolerance: i64) -> (r: Result<i64, BallisticError>)
        requires
            self.wf(),
            -ZERO_OFFSET_MAX <= offset <= ZERO_OFFSET_MAX,
            0 <= tolerance <= ZERO_OFFSET_MAX,
        ensures
            r matches Ok(p) ==> zero_result(*self, distance as int, offset as int, tolerance as int) == Ok::<
                int,
                BallisticError,
            >(p as int),
            r matches Err(e) ==> zero_result(*self, distance as int, offset as int, tolerance as int)
                == Err::<int, BallisticError>(e),
            r matches Ok(p) ==> -QUARTER_PI <= p <= QUARTER_PI,
            r matches Ok(p) ==> height_at(*self, p as int, distance as int) matches Some(h) && offset
                - tolerance <= h <= offset + tolerance,
            trials(*self, distance as int, offset as int, tolerance as int, 0, QUARTER_PI as int, ELEVATION_SENTINEL as int) <= 30,
    {
        proof {
            lemma_zero_trials_bounded(*self, distance as int, offset as int, tolerance as int);
        }
        let mut pitch: i64 = 0;
        let mut adjustment: i64 = QUARTER_PI;
        let mut elevation: i64 = ELEVATION_SENTINEL;
        loop
            invariant
                trials(*self, distance as int, offset as int, tolerance as int, 0, QUARTER_PI as int, ELEVATION_SENTINEL as int) <= 30,
                self.wf(),
                -ZERO_OFFSET_MAX <= offset <= ZERO_OFFSET_MAX,
                0 <= tolerance <= ZERO_OFFSET_MAX,
                -0x1_0000_0000_0000 <= elevation <= 0x1_0000_0000_0000,
                (if pitch < 0 {
                    -pitch
                } else {
                    pitch as int
                }) + (if adjustment < 0 {
                    -adjustment
                } else {
                    adjustment as int
                }) <= QUARTER_PI,
                search(*self, distance as int, offset as int, tolerance as int, pitch as int, adjustment as int, elevation as int)
                    == zero_result(*self, distance as int, offset as int, tolerance as int),
            decreases (if adjustment < 0 {
                -adjustment
            } else {
                adjustment as int
            }),
        {
            let reverse = (adjustment > 0) != (elevation < offset);
            let turned = if reverse {
                -adjustment
            } else {
                adjustment
            };
            let a = if turned >= 0 {
                turned / 2
            } else {
                -((-turned) / 2)
            };
            let np = pitch + a;
            if np > QUARTER_PI {
                return Err(BallisticError::UnreachableZero);
            }
            if np == pitch {
                return Err(BallisticError::ConvergenceStalled);
            }
            match self.height_at(np, distance) {
                None => {
                    return Err(BallisticError::RangeExceedsTrajectory);
                },
                Some(h) => {
                    if offset as i128 - tolerance as i128 <= h as i128 && h as i128 <= offset as i128
                        + tolerance as i128 {
                        proof {
                            lemma_zero_round_trip(*self, distance as int, offset as int, tolerance as int, np as int);
                        }
                        return Ok(np);
                    }
                    pitch = np;
                    adjustment = a;
                    elevation = h;
                },
            }
        }
    }
}

} // verus!
