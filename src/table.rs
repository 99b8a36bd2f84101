//! Drop tables: one run sampled at regular distance intervals, with the
//! quantities a shooter reads at each distance.
use vstd::prelude::*;
use crate::fixed::{atan, atan_fx, div_floor, fdiv, lemma_fdiv_bounded, HALF_PI, PI, QUARTER_PI, UNIT};
use crate::integrator::{lemma_terminated_stays, Packet};
use crate::simulation::{
    relative_position, sample, state_at, state_in_domain, MotionState, Simulation, POSITION_LIMIT,
    TIME_LIMIT, VELOCITY_LIMIT,
};
use crate::vector::{bounded, lemma_pivot_bounded, norm, Vector3};
use crate::zero::{relative_of, ZERO_OFFSET_MAX};

verus! {

/// Largest accepted step between the rows of a drop table, in micrometres.
pub const STEP_MAX: i64 = 0x1_0000_0000_0000;

/// Bound on the relative position of any state of a run.
pub const RELATIVE_LIMIT: i64 = 0x1_0000_0000_0000;

/// One row of a drop table.
#[derive(Clone, Copy, Debug, PartialEq, Eq, Structural)]
pub struct Row {
    /// Distance down the line of sight, micrometres.
    pub distance: i64,
    /// Height above the line of sight, micrometres.
    pub drop: i64,
    /// Lateral offset from the line of sight, micrometres.
    pub windage: i64,
    /// Speed, nanometres per second.
    pub velocity: u64,
    /// Kinetic energy, millijoules.
    pub energy: u64,
    /// Elevation correction, nanoradians; negative means dial down.
    pub vertical_angle: i64,
    /// Windage correction, nanoradians; negative means dial left.
    pub horizontal_angle: i64,
    /// Time of flight, microseconds.
    pub time: u64,
}

/// Arctangent of the slope `y / x`, in nanoradians; a quarter turn up or
/// down (or zero) when `x` is zero.
pub open spec fn angle_of(y: int, x: int) -> int {
    if x > 0 {
        atan_fx(fdiv(y * UNIT, x))
    } else if x < 0 {
        -atan_fx(fdiv(y * UNIT, -x))
    } else if y > 0 {
        HALF_PI as int
    } else if y < 0 {
        -HALF_PI
    } else {
        0
    }
}

/// Angle between the `x` axis and a direction `n >= 0` away from it at
/// distance `x` along it, in nanoradians: from zero straight ahead to a half
/// turn straight behind.
pub open spec fn off_axis_angle(n: int, x: int) -> int {
    if x > 0 {
        atan_fx(fdiv(n * UNIT, x))
    } else if x < 0 {
        PI - atan_fx(fdiv(n * UNIT, -x))
    } else if n > 0 {
        HALF_PI as int
    } else {
        0
    }
}

/// The angle between the point `value` and the point `offset`, both at
/// distance `x`; negative when `value` is at or above `offset - tolerance`.
pub open spec fn correction(value: int, x: int, offset: int, tolerance: int) -> int {
    let d = angle_of(value, x) - angle_of(offset, x);
    let m = if d < 0 {
        -d
    } else {
        d
    };
    if value >= offset - tolerance {
        -m
    } else {
        m
    }
}

/// Kinetic energy in millijoules of `mass` milligrams at `speed` nanometres per second.
pub open spec fn kinetic_energy(mass: int, speed: int) -> int {
    (mass * speed * speed) / 2_000_000_000_000_000_000_000
}

/// The row that a state of the run gives.
pub open spec fn row_of(sim: Simulation, s: MotionState, tolerance: int) -> Row {
    let rel = relative_of(sim, s);
    let speed = norm(s.velocity@);
    Row {
        distance: rel.0 as i64,
        drop: rel.1 as i64,
        windage: rel.2 as i64,
        velocity: speed as u64,
        energy: kinetic_energy(sim.projectile.mass as int, speed) as u64,
        vertical_angle: correction(rel.1, rel.0, 0, tolerance) as i64,
        horizontal_angle: correction(rel.2, rel.0, 0, tolerance) as i64,
        time: s.time,
    }
}

/// The smallest multiple of `step` beyond `x`.
pub open spec fn next_multiple(x: int, step: int) -> int {
    (x / step + 1) * step
}

/// Distance that the next retained sample must reach, before sample `n`.
pub open spec fn threshold_before(sim: Simulation, pitch: int, step: int, range: int, n: nat) -> int
    decreases n,
{
    if n == 0 {
        0
    } else {
        let k = (n - 1) as nat;
        let t = threshold_before(sim, pitch, step, range, k);
        match sample(sim, pitch, k) {
            Some(s) => if t <= range && relative_of(sim, s).0 >= t {
                next_multiple(relative_of(sim, s).0, step)
            } else {
                t
            },
            None => t,
        }
    }
}

/// Sample `n` is the first at or past the current threshold, which lies
/// within the range.
pub open spec fn kept(sim: Simulation, pitch: int, step: int, range: int, n: nat) -> bool {
    &&& sample(sim, pitch, n) is Some
    &&& threshold_before(sim, pitch, step, range, n) <= range
    &&& relative_of(sim, sample(sim, pitch, n)->0).0 >= threshold_before(sim, pitch, step, range, n)
}

/// The rows of the samples before `n` that are kept.
pub open spec fn kept_rows(sim: Simulation, pitch: int, step: int, range: int, tolerance: int, n: nat) -> Seq<Row>
    decreases n,
{
    if n == 0 {
        Seq::empty()
    } else {
        let k = (n - 1) as nat;
        let rows = kept_rows(sim, pitch, step, range, tolerance, k);
        if kept(sim, pitch, step, range, k) {
            rows.push(row_of(sim, sample(sim, pitch, k)->0, tolerance))
        } else {
            rows
        }
    }
}

/// Every state of a run lies in the domain of a run.
pub proof fn lemma_states_in_domain(sim: Simulation, pitch: int, n: nat)
    requires
        sim.wf(),
        -QUARTER_PI <= pitch <= QUARTER_PI,
    ensures
        state_at(sim, pitch, n) matches Some(s) ==> state_in_domain(s),
    decreases n,
{
    if n == 0 {
        lemma_pivot_bounded((sim.projectile.velocity * 1000, 0, 0), sim.conditions.shooter.line_of_sight + pitch, 0x200_0000_0000);
        let raised = crate::vector::pivot_z((sim.projectile.velocity * 1000, 0, 0), sim.conditions.shooter.line_of_sight + pitch);
        lemma_pivot_bounded(raised, -sim.conditions.shooter.azimuth, 0x400_0000_0000);
    } else {
        lemma_states_in_domain(sim, pitch, (n - 1) as nat);
    }
}

/// The position of a state in the domain of a run, relative to the line of
/// sight, stays within `RELATIVE_LIMIT`.
pub proof fn lemma_relative_bounded(sim: Simulation, s: MotionState)
    requires
        sim.wf(),
        state_in_domain(s),
    ensures
        bounded(relative_of(sim, s), RELATIVE_LIMIT as int),
{
    lemma_pivot_bounded(s.position@, sim.conditions.shooter.azimuth as int, POSITION_LIMIT as int);
    let turned = crate::vector::pivot_y(s.position@, sim.conditions.shooter.azimuth as int);
    lemma_pivot_bounded(turned, -sim.conditions.shooter.line_of_sight, 2 * POSITION_LIMIT);
}

proof fn lemma_next_multiple(x: int, step: int)
    requires
        step >= 1,
    ensures
        x < next_multiple(x, step),
        next_multiple(x, step) / step == x / step + 1,
{
    vstd::arithmetic::div_mod::lemma_fundamental_div_mod(x, step);
    vstd::arithmetic::div_mod::lemma_mod_bound(x, step);
    assert((x / step + 1) * step == step * (x / step) + step) by (nonlinear_arith);
    vstd::arithmetic::div_mod::lemma_div_multiples_vanish(x / step + 1, step);
    assert(step * (x / step + 1) == (x / step + 1) * step) by (nonlinear_arith);
}

/// The threshold never decreases along the run.
proof fn lemma_threshold_grows(sim: Simulation, pitch: int, step: int, range: int, n: nat, m: nat)
    requires
        step >= 1,
        n <= m,
    ensures
        threshold_before(sim, pitch, step, range, n) <= threshold_before(sim, pitch, step, range, m),
    decreases m - n,
{
    if n < m {
        lemma_threshold_grows(sim, pitch, step, range, n, (m - 1) as nat);
        let k = (m - 1) as nat;
        if let Some(s) = sample(sim, pitch, k) {
            lemma_next_multiple(relative_of(sim, s).0, step);
        }
    }
}

/// Distances increase strictly from row to row, each in a later multiple of `step`.
pub open spec fn increasing_buckets(rows: Seq<Row>, step: int) -> bool {
    forall|i: int, j: int|
        0 <= i < j < rows.len() ==> #[trigger] rows[i].distance < #[trigger] rows[j].distance && (
        rows[i].distance as int) / step < (rows[j].distance as int) / step
}

/// Every distance lies below `t`, in an earlier multiple of `step`.
pub open spec fn all_below(rows: Seq<Row>, t: int, step: int) -> bool {
    forall|i: int| 0 <= i < rows.len() ==> #[trigger] rows[i].distance < t && (rows[i].distance as int) / step < t / step
}

/// The rows of a drop table have strictly increasing distances, each in a
/// later multiple of the step than the one before.
pub proof fn lemma_drop_table_ordered(
    sim: Simulation,
    pitch: int,
    step: int,
    range: int,
    tolerance: int,
    n: nat,
)
    requires
        sim.wf(),
        -QUARTER_PI <= pitch <= QUARTER_PI,
        step >= 1,
    ensures
        increasing_buckets(kept_rows(sim, pitch, step, range, tolerance, n), step),
        all_below(kept_rows(sim, pitch, step, range, tolerance, n), threshold_before(sim, pitch, step, range, n), step),
    decreases n,
{
    if n > 0 {
        let k = (n - 1) as nat;
        lemma_drop_table_ordered(sim, pitch, step, range, tolerance, k);
        let rows = kept_rows(sim, pitch, step, range, tolerance, k);
        let t = threshold_before(sim, pitch, step, range, k);
        if let Some(s) = sample(sim, pitch, k) {
            let x = relative_of(sim, s).0;
            lemma_next_multiple(x, step);
            if t <= range && x >= t {
                lemma_states_in_domain(sim, pitch, k);
                lemma_relative_bounded(sim, s);
                let row = row_of(sim, s, tolerance);
                assert(row.distance == x);
                vstd::arithmetic::div_mod::lemma_div_is_ordered(t, x, step);
                let all = rows.push(row);
                assert forall|i: int, j: int| 0 <= i < j < all.len() implies #[trigger] all[i].distance
                    < #[trigger] all[j].distance && (all[i].distance as int) / step < (all[j].distance as int)
                    / step by {
                    if j == all.len() - 1 {
                        assert(all[i] == rows[i]);
                    } else {
                        assert(all[i] == rows[i] && all[j] == rows[j]);
                    }
                }
                assert forall|i: int| 0 <= i < all.len() implies #[trigger] all[i].distance < next_multiple(
                    x,
                    step,
                ) && (all[i].distance as int) / step < next_multiple(x, step) / step by {
                    if i < all.len() - 1 {
                        assert(all[i] == rows[i]);
                    }
                }
            }
        }
    }
}

impl<'a> Packet<'a> {
    /// Speed, nanometres per second.
    pub fn speed(&self) -> (r: u64)
        requires
            bounded(self.velocity@, VELOCITY_LIMIT as int),
        ensures
            r == norm(self.velocity@),
            r <= 0x2000_0000_0000,
    {
        let r = self.velocity.norm();
        proof {
            let (a, b, c) = (self.velocity.x as int, self.velocity.y as int, self.velocity.z as int);
            assert(r <= 0x2000_0000_0000) by (nonlinear_arith)
                requires
                    r * r <= a * a + b * b + c * c,
                    -0x1000_0000_0000 <= a <= 0x1000_0000_0000,
                    -0x1000_0000_0000 <= b <= 0x1000_0000_0000,
                    -0x1000_0000_0000 <= c <= 0x1000_0000_0000,
            ;
        }
        r
    }

    /// Kinetic energy, millijoules.
    pub fn energy(&self) -> (r: u64)
        requires
            self.simulation.wf(),
            bounded(self.velocity@, VELOCITY_LIMIT as int),
        ensures
            r == kinetic_energy(self.simulation.projectile.mass as int, norm(self.velocity@)),
    {
        let v = self.speed() as u128;
        let m = self.simulation.projectile.mass as u128;
        proof {
            assert(m * v <= 100_000_000 * 0x2000_0000_0000) by (nonlinear_arith)
                requires
                    m <= 100_000_000,
                    v <= 0x2000_0000_0000,
            ;
            assert(m * v * v <= 100_000_000 * 0x2000_0000_0000 * 0x2000_0000_0000) by (nonlinear_arith)
                requires
                    m * v <= 100_000_000 * 0x2000_0000_0000,
                    v <= 0x2000_0000_0000,
            ;
            vstd::arithmetic::div_mod::lemma_div_is_ordered(
                (m * v * v) as int,
                (100_000_000 * 0x2000_0000_0000 * 0x2000_0000_0000) as int,
                2_000_000_000_000_000_000_000,
            );
        }
        (m * v * v / 2_000_000_000_000_000_000_000) as u64
    }
}

/// Direction to `(x, y)` from the muzzle, in nanoradians.
fn direction(y: i64, x: i64) -> (r: i128)
    requires
        -0x4_0000_0000_0000 <= y <= 0x4_0000_0000_0000,
    ensures
        r == angle_of(y as int, x as int),
        -14_000_000_000 <= r <= 14_000_000_000,
{
    if x != 0 {
        let n = y as i128 * UNIT;
        let d: i128 = if x > 0 {
            x as i128
        } else {
            -(x as i128)
        };
        proof {
            lemma_fdiv_bounded(n as int, d as int, 0x4_0000_0000_0000 * UNIT);
        }
        let a = atan(div_floor(n, d));
        if x > 0 {
            a
        } else {
            -a
        }
    } else if y > 0 {
        HALF_PI as i128
    } else if y < 0 {
        -(HALF_PI as i128)
    } else {
        0
    }
}

/// Angle from the `x` axis to a direction `n >= 0` off it at distance `x`.
fn off_axis(n: i64, x: i64) -> (r: i128)
    requires
        0 <= n <= 0x4_0000_0000_0000,
    ensures
        r == off_axis_angle(n as int, x as int),
{
    if x != 0 {
        let t = n as i128 * UNIT;
        let d: i128 = if x > 0 {
            x as i128
        } else {
            -(x as i128)
        };
        proof {
            lemma_fdiv_bounded(t as int, d as int, 0x4_0000_0000_0000 * UNIT);
        }
        let a = atan(div_floor(t, d));
        if x > 0 {
            a
        } else {
            PI as i128 - a
        }
    } else if n > 0 {
        HALF_PI as i128
    } else {
        0
    }
}

/// Signed angular correction from `offset` to `value`, both at distance `x`.
fn angular_correction(value: i64, x: i64, offset: i64, tolerance: i64) -> (r: i64)
    requires
        -RELATIVE_LIMIT <= value <= RELATIVE_LIMIT,
        -RELATIVE_LIMIT <= offset <= RELATIVE_LIMIT,
        0 <= tolerance <= ZERO_OFFSET_MAX,
    ensures
        r == correction(value as int, x as int, offset as int, tolerance as int),
{
    let d = direction(value, x) - direction(offset, x);
    let m = if d < 0 {
        -d
    } else {
        d
    };
    if value as i128 >= offset as i128 - tolerance as i128 {
        (-m) as i64
    } else {
        m as i64
    }
}

impl<'a> Packet<'a> {
    /// Elevation correction towards a point `offset` above the line of sight,
    /// nanoradians; negative (dial down) when the sample is at or above
    /// `offset - tolerance`.
    pub fn offset_vertical_angle(&self, offset: i64, tolerance: i64) -> (r: i64)
        requires
            self.simulation.wf(),
            bounded(self.position@, POSITION_LIMIT as int),
            -RELATIVE_LIMIT <= offset <= RELATIVE_LIMIT,
            0 <= tolerance <= ZERO_OFFSET_MAX,
        ensures
            r == correction(
                relative_position(*self.simulation, self.position@).1,
                relative_position(*self.simulation, self.position@).0,
                offset as int,
                tolerance as int,
            ),
    {
        let rel = self.relative_position();
        angular_correction(rel.y, rel.x, offset, tolerance)
    }

    /// Windage correction towards a point `offset` right of the line of
    /// sight, nanoradians; negative when the sample is at or right of
    /// `offset - tolerance`.
    pub fn offset_horizontal_angle(&self, offset: i64, tolerance: i64) -> (r: i64)
        requires
            self.simulation.wf(),
            bounded(self.position@, POSITION_LIMIT as int),
            -RELATIVE_LIMIT <= offset <= RELATIVE_LIMIT,
            0 <= tolerance <= ZERO_OFFSET_MAX,
        ensures
            r == correction(
                relative_position(*self.simulation, self.position@).2,
                relative_position(*self.simulation, self.position@).0,
                offset as int,
                tolerance as int,
            ),
    {
        let rel = self.relative_position();
        angular_correction(rel.z, rel.x, offset, tolerance)
    }

    /// Angle between the line of sight and the direction to the sample,
    /// nanoradians.
    pub fn angle(&self) -> (r: i128)
        requires
            self.simulation.wf(),
            bounded(self.position@, POSITION_LIMIT as int),
        ensures
            r == off_axis_angle(
                norm((0int, relative_position(*self.simulation, self.position@).1, relative_position(*self.simulation, self.position@).2)),
                relative_position(*self.simulation, self.position@).0,
            ),
    {
        let rel = self.relative_position();
        let lateral = Vector3 { x: 0, y: rel.y, z: rel.z };
        let n = lateral.norm();
        proof {
            let (b, c) = (rel.y as int, rel.z as int);
            assert(n <= 0x2_0000_0000_0000) by (nonlinear_arith)
                requires
                    n * n <= 0 * 0 + b * b + c * c,
                    -0x1_0000_0000_0000 <= b <= 0x1_0000_0000_0000,
                    -0x1_0000_0000_0000 <= c <= 0x1_0000_0000_0000,
            ;
        }
        off_axis(n as i64, rel.x)
    }

    /// Elevation correction towards the line of sight.
    pub fn vertical_angle(&self, tolerance: i64) -> (r: i64)
        requires
            self.simulation.wf(),
            bounded(self.position@, POSITION_LIMIT as int),
            0 <= tolerance <= ZERO_OFFSET_MAX,
        ensures
            r == correction(
                relative_position(*self.simulation, self.position@).1,
                relative_position(*self.simulation, self.position@).0,
                0,
                tolerance as int,
            ),
    {
        self.offset_vertical_angle(0, tolerance)
    }

    /// Windage correction towards the line of sight.
    pub fn horizontal_angle(&self, tolerance: i64) -> (r: i64)
        requires
            self.simulation.wf(),
            bounded(self.position@, POSITION_LIMIT as int),
            0 <= tolerance <= ZERO_OFFSET_MAX,
        ensures
            r == correction(
                relative_position(*self.simulation, self.position@).2,
                relative_position(*self.simulation, self.position@).0,
                0,
                tolerance as int,
            ),
    {
        self.offset_horizontal_angle(0, tolerance)
    }
}

impl Simulation {
    /// The drop-table row of a sample.
    pub fn row(&self, p: &Packet, tolerance: i64) -> (r: Row)
        requires
            self.wf(),
            p.simulation == self,
            bounded(p.position@, POSITION_LIMIT as int),
            bounded(p.velocity@, VELOCITY_LIMIT as int),
            0 <= tolerance <= ZERO_OFFSET_MAX,
        ensures
            r == row_of(*self, MotionState { time: p.time, position: p.position, velocity: p.velocity }, tolerance as int),
    {
        let rel = p.relative_position();
        Row {
            distance: rel.x,
            drop: rel.y,
            windage: rel.z,
            velocity: p.speed(),
            energy: p.energy(),
            vertical_angle: p.vertical_angle(tolerance),
            horizontal_angle: p.horizontal_angle(tolerance),
            time: p.time,
        }
    }

    /// Drop table of the run at this simulation's muzzle pitch: the first
    /// sample at or past each successive multiple of `step`, up to `range`.
    pub fn drop_table(&self, step: i64, range: i64, tolerance: i64) -> (rows: Vec<Row>)
        requires
            self.wf(),
            1 <= step <= STEP_MAX,
            0 <= tolerance <= ZERO_OFFSET_MAX,
        ensures
            exists|n: nat|
                rows@ == kept_rows(*self, self.muzzle_pitch as int, step as int, range as int, tolerance as int, n)
                    && forall|m: nat| m >= n ==> !#[trigger] kept(*self, self.muzzle_pitch as int, step as int, range as int, m),
            increasing_buckets(rows@, step as int),
    {
        let ghost pitch = self.muzzle_pitch as int;
        let mut it = self.iter();
        let mut threshold: i64 = 0;
        let mut rows: Vec<Row> = Vec::new();
        loop
            invariant
                self.wf(),
                pitch == self.muzzle_pitch as int,
                it.wf(),
                it.simulation == self,
                it.pitch == self.muzzle_pitch,
                !it.done,
                1 <= step <= STEP_MAX,
                0 <= tolerance <= ZERO_OFFSET_MAX,
                0 <= threshold <= 0x2_0000_0000_0000,
                threshold == threshold_before(*self, pitch, step as int, range as int, it.index@),
                rows@ == kept_rows(*self, pitch, step as int, range as int, tolerance as int, it.index@),
            decreases TIME_LIMIT - it.state.time,
        {
            let ghost n = it.index@;
            proof {
                lemma_drop_table_ordered(*self, pitch, step as int, range as int, tolerance as int, n);
            }
            if threshold > range {
                proof {
                    assert forall|m: nat| m >= n implies !#[trigger] kept(*self, pitch, step as int, range as int, m) by {
                        lemma_threshold_grows(*self, pitch, step as int, range as int, n, m);
                    }
                }
                return rows;
            }
            let ghost before = it.state.time;
            match it.next() {
                Some(p) => {
                    let rel = p.relative_position();
                    if rel.x >= threshold {
                        let row = self.row(&p, tolerance);
                        rows.push(row);
                        proof {
                            lemma_next_multiple(rel.x as int, step as int);
                            assert(rel.x / step <= rel.x);
                            vstd::arithmetic::div_mod::lemma_div_is_ordered(0, rel.x as int, step as int);
                            vstd::arithmetic::div_mod::lemma_fundamental_div_mod(rel.x as int, step as int);
                            vstd::arithmetic::div_mod::lemma_mod_bound(rel.x as int, step as int);
                            assert((rel.x / step) * step <= rel.x) by (nonlinear_arith)
                                requires
                                    rel.x == step * (rel.x / step) + rel.x % step,
                                    rel.x % step >= 0,
                            ;
                            assert((rel.x / step + 1) * step <= rel.x + step) by (nonlinear_arith)
                                requires
                                    (rel.x / step) * step <= rel.x,
                                    step >= 1,
                            {
                                vstd::arithmetic::div_mod::lemma_fundamental_div_mod(rel.x as int, step as int);
                            }
                        }
                        let next = (rel.x as i128 / step as i128 + 1) * step as i128;
                        threshold = next as i64;
                    }
                    assert(it.state.time > before);
                },
                None => {
                    proof {
                        assert forall|m: nat| m >= n implies !#[trigger] kept(*self, pitch, step as int, range as int, m) by {
                            lemma_terminated_stays(*self, pitch, n + 1, m + 1);
                        }
                    }
                    return rows;
                },
            }
        }
    }
}

} // verus!
