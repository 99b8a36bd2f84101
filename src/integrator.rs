//! The force model and the integrator: net acceleration at a velocity, one
//! time step, and the lazy sequence of motion samples of a run.
use vstd::prelude::*;
use crate::fixed::{div_trunc, lemma_tdiv_bounded, QUARTER_PI};
use crate::simulation::{
    acceleration, advance, air_velocity, coriolis_acceleration, delta_position, delta_velocity,
    drag_acceleration, initial_state, mach, sample, state_at, state_in_domain, step, MotionState,
    Simulation, ACCELERATION_LIMIT, CORIOLIS_DIVISOR, DRAG_DIVISOR, RATE_DIVISOR, EARTH_ROTATION, POSITION_LIMIT,
    TIME_LIMIT, TIME_STEP_MAX, VELOCITY_LIMIT, relative_position,
};
use crate::vector::{bounded, lemma_pivot_bounded, Vector3};

verus! {

/// Bound on the drag acceleration components.
pub const DRAG_LIMIT: i64 = 0x2000_0000_0000_0000;

/// Bound on the Coriolis acceleration components.
pub const CORIOLIS_LIMIT: i64 = 0x8_0000_0000;

/// Position and velocity along one axis after one step.
fn axis_step(p: i64, v: i64, a: i64, dt: i64) -> (r: (i128, i128))
    requires
        -POSITION_LIMIT <= p <= POSITION_LIMIT,
        -VELOCITY_LIMIT <= v <= VELOCITY_LIMIT,
        -ACCELERATION_LIMIT <= a <= ACCELERATION_LIMIT,
        1 <= dt <= TIME_STEP_MAX,
    ensures
        r.0 == p + delta_position(v as int, a as int, dt as int),
        r.1 == v + delta_velocity(a as int, dt as int),
{
    let vi = v as i128;
    let ai = a as i128;
    let d = dt as i128;
    proof {
        assert(-0x1000_0000_0000 * 1_000_000 <= vi * d <= 0x1000_0000_0000 * 1_000_000) by (nonlinear_arith)
            requires
                -0x1000_0000_0000 <= vi <= 0x1000_0000_0000,
                1 <= d <= 1_000_000,
        ;
        assert(-0x4000_0000_0000_0000 * 1_000_000 <= ai * d <= 0x4000_0000_0000_0000 * 1_000_000)
            by (nonlinear_arith)
            requires
                -0x4000_0000_0000_0000 <= ai <= 0x4000_0000_0000_0000,
                1 <= d <= 1_000_000,
        ;
        assert(-0x4000_0000_0000_0000 * 1_000_000 * 1_000_000 <= ai * d * d <= 0x4000_0000_0000_0000
            * 1_000_000 * 1_000_000) by (nonlinear_arith)
            requires
                -0x4000_0000_0000_0000 * 1_000_000 <= ai * d <= 0x4000_0000_0000_0000 * 1_000_000,
                1 <= d <= 1_000_000,
        ;
        lemma_tdiv_bounded(vi * d, 1_000_000_000, 0x1000_0000_0000);
        lemma_tdiv_bounded(ai * d, 1_000_000, 0x4000_0000_0000_0000);
        lemma_tdiv_bounded(ai * d * d, 2_000_000_000_000_000, 0x4000_0000_0000_0000);
    }
    let np = p as i128 + div_trunc(vi * d, 1_000_000_000) + div_trunc(ai * d * d, 2_000_000_000_000_000);
    let nv = vi + div_trunc(ai * d, 1_000_000);
    (np, nv)
}

/// A velocity that a run can hold, less the wind, stays within 2^45.
proof fn lemma_air_velocity_bounded(sim: Simulation, v: (int, int, int))
    requires
        sim.wf(),
        bounded(v, VELOCITY_LIMIT as int),
    ensures
        bounded(sim.wind@, 0x400_0000_0000),
        bounded(air_velocity(sim, v), 0x2000_0000_0000),
{
    lemma_pivot_bounded((sim.conditions.wind.speed * 1000, 0, 0), -(sim.conditions.wind.bearing
        + sim.conditions.shooter.azimuth), 0x200_0000_0000);
}

impl Simulation {
    /// Drag acceleration at velocity `v`.
    pub fn drag_acceleration(&self, v: &Vector3) -> (r: Vector3)
        requires
            self.wf(),
            bounded(v@, VELOCITY_LIMIT as int),
        ensures
            r@ == drag_acceleration(*self, v@),
            bounded(r@, DRAG_LIMIT as int),
    {
        proof {
            lemma_air_velocity_bounded(*self, v@);
        }
        let vr = Vector3 { x: v.x - self.wind.x, y: v.y - self.wind.y, z: v.z - self.wind.z };
        let speed = vr.norm();
        proof {
            let (a, b, c) = (vr.x as int, vr.y as int, vr.z as int);
            assert(speed * speed <= 3 * 0x2000_0000_0000 * 0x2000_0000_0000) by (nonlinear_arith)
                requires
                    speed * speed <= a * a + b * b + c * c,
                    -0x2000_0000_0000 <= a <= 0x2000_0000_0000,
                    -0x2000_0000_0000 <= b <= 0x2000_0000_0000,
                    -0x2000_0000_0000 <= c <= 0x2000_0000_0000,
            ;
            assert(speed <= 0x4000_0000_0000) by (nonlinear_arith)
                requires
                    speed * speed <= 3 * 0x2000_0000_0000 * 0x2000_0000_0000,
            ;
        }
        let m = (speed as u128) * 10 / (self.sound as u128);
        let key: u32 = if m > u32::MAX as u128 {
            u32::MAX
        } else {
            m as u32
        };
        let cd = self.table.lookup(key);
        proof {
            assert(key == mach(self.sound as int, speed as int));
            assert((self.drag_factor as int) * (cd as int) <= 0x10_0000_0000 * 65535) by (nonlinear_arith)
                requires
                    self.drag_factor <= 0x10_0000_0000,
                    cd <= 65535,
            ;
            assert((self.drag_factor as int) * (cd as int) * (speed as int) <= 0x10_0000_0000 * 65535
                * 0x4000_0000_0000) by (nonlinear_arith)
                requires
                    (self.drag_factor as int) * (cd as int) <= 0x10_0000_0000 * 65535,
                    (self.drag_factor as int) * (cd as int) >= 0,
                    speed <= 0x4000_0000_0000,
            ;
            assert((self.drag_factor as int) * (cd as int) * (speed as int) >= 0) by (nonlinear_arith);
        }
        let product = (self.drag_factor as i128) * (cd as i128) * (speed as i128);
        proof {
            lemma_tdiv_bounded(product as int, RATE_DIVISOR as int, 0x20_0000_0000_0000_0000);
        }
        let f = div_trunc(product, RATE_DIVISOR);
        proof {
            assert(f >= 0);
            let lim = 0x20_0000_0000_0000_0000 * 0x2000_0000_0000;
            assert forall|x: int| -0x2000_0000_0000 <= x <= 0x2000_0000_0000 implies -lim <= #[trigger] (f
                * x) <= lim by {
                assert(-lim <= f * x <= lim) by (nonlinear_arith)
                    requires
                        0 <= f <= 0x20_0000_0000_0000_0000,
                        -0x2000_0000_0000 <= x <= 0x2000_0000_0000,
                        lim == 0x20_0000_0000_0000_0000 * 0x2000_0000_0000,
                ;
            }
            assert(f * vr.x == f * (vr.x as int));
            lemma_tdiv_bounded(-(f * vr.x), DRAG_DIVISOR as int, DRAG_LIMIT as int);
            lemma_tdiv_bounded(-(f * vr.y), DRAG_DIVISOR as int, DRAG_LIMIT as int);
            lemma_tdiv_bounded(-(f * vr.z), DRAG_DIVISOR as int, DRAG_LIMIT as int);
        }
        let ax = div_trunc(-(f * vr.x as i128), DRAG_DIVISOR);
        let ay = div_trunc(-(f * vr.y as i128), DRAG_DIVISOR);
        let az = div_trunc(-(f * vr.z as i128), DRAG_DIVISOR);
        Vector3 { x: ax as i64, y: ay as i64, z: az as i64 }
    }

    /// Coriolis acceleration at velocity `v`.
    pub fn coriolis_acceleration(&self, v: &Vector3) -> (r: Vector3)
        requires
            self.wf(),
            bounded(v@, VELOCITY_LIMIT as int),
        ensures
            r@ == coriolis_acceleration(*self, v@),
            bounded(r@, CORIOLIS_LIMIT as int),
    {
        proof {
            lemma_pivot_bounded((EARTH_ROTATION as int, 0, 0), self.conditions.shooter.latitude as int, 0x800_0000);
        }
        let w = self.rotation;
        let (wx, wy, wz) = (w.x as i128, w.y as i128, w.z as i128);
        let (vx, vy, vz) = (v.x as i128, v.y as i128, v.z as i128);
        proof {
            let lim = 0x1000_0000 * 0x1000_0000_0000;
            assert forall|p: int, q: int|
                -0x1000_0000 <= p <= 0x1000_0000 && -0x1000_0000_0000 <= q <= 0x1000_0000_0000 implies -lim
                <= #[trigger] (p * q) <= lim by {
                assert(-lim <= p * q <= lim) by (nonlinear_arith)
                    requires
                        -0x1000_0000 <= p <= 0x1000_0000,
                        -0x1000_0000_0000 <= q <= 0x1000_0000_0000,
                        lim == 0x1000_0000 * 0x1000_0000_0000,
                ;
            }
            assert(-4 * lim <= -2 * (wy * vz - wz * vy) <= 4 * lim);
            assert(-4 * lim <= -2 * (wz * vx - wx * vz) <= 4 * lim);
            assert(-4 * lim <= -2 * (wx * vy - wy * vx) <= 4 * lim);
            lemma_tdiv_bounded(-2 * (wy * vz - wz * vy), CORIOLIS_DIVISOR as int, CORIOLIS_LIMIT as int);
            lemma_tdiv_bounded(-2 * (wz * vx - wx * vz), CORIOLIS_DIVISOR as int, CORIOLIS_LIMIT as int);
            lemma_tdiv_bounded(-2 * (wx * vy - wy * vx), CORIOLIS_DIVISOR as int, CORIOLIS_LIMIT as int);
        }
        let ax = div_trunc(-2 * (wy * vz - wz * vy), CORIOLIS_DIVISOR);
        let ay = div_trunc(-2 * (wz * vx - wx * vz), CORIOLIS_DIVISOR);
        let az = div_trunc(-2 * (wx * vy - wy * vx), CORIOLIS_DIVISOR);
        Vector3 { x: ax as i64, y: ay as i64, z: az as i64 }
    }

    /// Net acceleration at velocity `v`: drag, gravity and Coriolis together.
    pub fn acceleration(&self, v: &Vector3) -> (r: Vector3)
        requires
            self.wf(),
            bounded(v@, VELOCITY_LIMIT as int),
        ensures
            r@ == acceleration(*self, v@),
            bounded(r@, ACCELERATION_LIMIT as int),
    {
        let d = self.drag_acceleration(v);
        let c = self.coriolis_acceleration(v);
        Vector3 { x: d.x + c.x, y: d.y + c.y - self.conditions.shooter.gravity as i64 * 1000, z: d.z + c.z }
    }

    /// The state one time step after `s`, if it stays in the domain of a run.
    pub fn step(&self, s: &MotionState) -> (r: Option<MotionState>)
        requires
            self.wf(),
            state_in_domain(*s),
        ensures
            r == step(*self, *s),
            r matches Some(n) ==> state_in_domain(n) && n.time == s.time + self.conditions.time_step,
    {
        let dt = self.conditions.time_step as i64;
        let a = self.acceleration(&s.velocity);
        let p = s.position;
        let v = s.velocity;
        let (px, vx) = axis_step(p.x, v.x, a.x, dt);
        let (py, vy) = axis_step(p.y, v.y, a.y, dt);
        let (pz, vz) = axis_step(p.z, v.z, a.z, dt);
        let t = s.time + self.conditions.time_step;
        let pl = POSITION_LIMIT as i128;
        let vl = VELOCITY_LIMIT as i128;
        if t <= TIME_LIMIT && -pl <= px && px <= pl && -pl <= py && py <= pl && -pl <= pz && pz <= pl
            && -vl <= vx && vx <= vl && -vl <= vy && vy <= vl && -vl <= vz && vz <= vl {
            Some(
                MotionState {
                    time: t,
                    position: Vector3 { x: px as i64, y: py as i64, z: pz as i64 },
                    velocity: Vector3 { x: vx as i64, y: vy as i64, z: vz as i64 },
                },
            )
        } else {
            None
        }
    }

    /// The state after `s` while the run goes on: `None` once the step leaves
    /// the domain of a run or the forward position stops changing.
    pub fn advance(&self, s: &MotionState) -> (r: Option<MotionState>)
        requires
            self.wf(),
            state_in_domain(*s),
        ensures
            r == advance(*self, *s),
            r matches Some(n) ==> state_in_domain(n) && n.time == s.time + self.conditions.time_step,
    {
        match self.step(s) {
            Some(n) => {
                if n.position.x != s.position.x {
                    Some(n)
                } else {
                    None
                }
            },
            None => None,
        }
    }

    /// The state in which a run at muzzle pitch `pitch` starts.
    pub fn initial_state(&self, pitch: i64) -> (r: MotionState)
        requires
            self.wf(),
            -QUARTER_PI <= pitch <= QUARTER_PI,
        ensures
            r == initial_state(*self, pitch as int),
            state_in_domain(r),
            r.time == 0,
            r.position@ == (0int, 0int, 0int),
    {
        let muzzle = Vector3 { x: self.projectile.velocity as i64 * 1000, y: 0, z: 0 };
        assert(bounded(muzzle@, 0x200_0000_0000));
        let raised = muzzle.pivot_z(self.conditions.shooter.line_of_sight + pitch);
        assert(bounded(raised@, 0x400_0000_0000));
        let v = raised.pivot_y(-self.conditions.shooter.azimuth);
        MotionState { time: 0, position: Vector3 { x: 0, y: 0, z: 0 }, velocity: v }
    }

    /// The samples of a run at this simulation's muzzle pitch. The first pull
    /// gives the initial state, at time zero at the origin, whenever the run
    /// goes on after its first step; a first step that leaves the domain of
    /// a run or does not move the projectile forward by a micrometre ends the
    /// run before any sample.
    pub fn iter(&self) -> (r: Iter<'_>)
        requires
            self.wf(),
        ensures
            r.wf(),
            r.simulation == self,
            r.pitch == self.muzzle_pitch,
            r.index@ == 0,
            !r.done,
            r.state == initial_state(*self, self.muzzle_pitch as int),
            sample(*self, self.muzzle_pitch as int, 0) is Some <==> advance(
                *self,
                initial_state(*self, self.muzzle_pitch as int),
            ) is Some,
            sample(*self, self.muzzle_pitch as int, 0) is Some ==> sample(*self, self.muzzle_pitch as int, 0)
                == Some(initial_state(*self, self.muzzle_pitch as int)),
    {
        self.iter_at(self.muzzle_pitch)
    }

    /// The samples of a run at muzzle pitch `pitch`.
    pub fn iter_at(&self, pitch: i64) -> (r: Iter<'_>)
        requires
            self.wf(),
            -QUARTER_PI <= pitch <= QUARTER_PI,
        ensures
            r.wf(),
            r.simulation == self,
            r.pitch == pitch,
            r.index@ == 0,
            !r.done,
            r.state == initial_state(*self, pitch as int),
            sample(*self, pitch as int, 0) is Some <==> advance(*self, initial_state(*self, pitch as int)) is Some,
            sample(*self, pitch as int, 0) is Some ==> sample(*self, pitch as int, 0) == Some(
                initial_state(*self, pitch as int),
            ),
    {
        let state = self.initial_state(pitch);
        Iter { simulation: self, pitch, state, done: false, index: Ghost(0) }
    }
}

/// One reported snapshot of a run, with the simulation it came from.
pub struct Packet<'a> {
    pub simulation: &'a Simulation,
    /// Microseconds since the shot.
    pub time: u64,
    /// Micrometres, simulation frame.
    pub position: Vector3,
    /// Nanometres per second, simulation frame.
    pub velocity: Vector3,
}

impl<'a> Packet<'a> {
    /// Position relative to the line of sight, turned back into the shooter's
    /// frame: `x` the distance, `y` the height above the line of sight, `z`
    /// the windage.
    pub fn relative_position(&self) -> (r: Vector3)
        requires
            self.simulation.wf(),
            bounded(self.position@, POSITION_LIMIT as int),
        ensures
            r@ == relative_position(*self.simulation, self.position@),
            bounded(r@, 0x1_0000_0000_0000),
    {
        let sim = self.simulation;
        let turned = self.position.pivot_y(sim.conditions.shooter.azimuth);
        assert(bounded(turned@, 0x4000_0000_0000));
        let levelled = turned.pivot_z(-sim.conditions.shooter.line_of_sight);
        assert(bounded(levelled@, 0x8000_0000_0000));
        Vector3 { x: levelled.x, y: levelled.y - sim.scope.height, z: levelled.z - sim.scope.offset }
    }

    /// Distance down the line of sight, micrometres.
    pub fn distance(&self) -> (r: i64)
        requires
            self.simulation.wf(),
            bounded(self.position@, POSITION_LIMIT as int),
        ensures
            r == relative_position(*self.simulation, self.position@).0,
    {
        self.relative_position().x
    }

    /// Height above the line of sight, micrometres.
    pub fn elevation(&self) -> (r: i64)
        requires
            self.simulation.wf(),
            bounded(self.position@, POSITION_LIMIT as int),
        ensures
            r == relative_position(*self.simulation, self.position@).1,
    {
        self.relative_position().y
    }

    /// Lateral offset from the line of sight, micrometres.
    pub fn windage(&self) -> (r: i64)
        requires
            self.simulation.wf(),
            bounded(self.position@, POSITION_LIMIT as int),
        ensures
            r == relative_position(*self.simulation, self.position@).2,
    {
        self.relative_position().z
    }
}

/// The first sample of every run is at time zero at the origin.
pub proof fn lemma_first_sample_at_origin(sim: Simulation, pitch: int)
    ensures
        state_at(sim, pitch, 0) == Some(initial_state(sim, pitch)),
        initial_state(sim, pitch).time == 0,
        initial_state(sim, pitch).position@ == (0int, 0int, 0int),
        sample(sim, pitch, 0) matches Some(s) ==> s.time == 0 && s.position@ == (0int, 0int, 0int),
        state_at(sim, pitch, 1) is Some ==> sample(sim, pitch, 0) == Some(initial_state(sim, pitch)),
{
}

/// Once a run has terminated it stays terminated.
pub proof fn lemma_terminated_stays(sim: Simulation, pitch: int, n: nat, m: nat)
    requires
        state_at(sim, pitch, n) is None,
        n <= m,
    ensures
        state_at(sim, pitch, m) is None,
    decreases m - n,
{
    if n < m {
        lemma_terminated_stays(sim, pitch, n, (m - 1) as nat);
    }
}

/// A run in progress: pulls one sample at a time until the run terminates.
pub struct Iter<'a> {
    pub simulation: &'a Simulation,
    pub pitch: i64,
    /// State of the run before the next step.
    pub state: MotionState,
    /// The run has terminated.
    pub done: bool,
    /// Number of samples emitted so far.
    pub index: Ghost<nat>,
}

impl<'a> Iter<'a> {
    /// While running, `state` is the run's state after `index` steps; once
    /// terminated, the run has no state after `index + 1` steps.
    pub open spec fn wf(&self) -> bool {
        &&& self.simulation.wf()
        &&& -QUARTER_PI <= self.pitch <= QUARTER_PI
        &&& state_in_domain(self.state)
        &&& !self.done ==> state_at(*self.simulation, self.pitch as int, self.index@) == Some(self.state)
        &&& self.done ==> state_at(*self.simulation, self.pitch as int, self.index@ + 1) is None
    }

    /// The next sample: the state before one more step, as long as the run
    /// goes on after it; `None` from the moment the run terminates.
    pub fn next(&mut self) -> (r: Option<Packet<'a>>)
        requires
            old(self).wf(),
        ensures
            final(self).wf(),
            final(self).simulation == old(self).simulation,
            final(self).pitch == old(self).pitch,
            old(self).done ==> r is None && final(self).done && final(self).index == old(self).index
                && final(self).state == old(self).state,
            !old(self).done ==> (r is None <==> advance(*old(self).simulation, old(self).state) is None),
            !old(self).done && r is Some ==> Some(final(self).state) == advance(
                *old(self).simulation,
                old(self).state,
            ),
            !old(self).done ==> match sample(*old(self).simulation, old(self).pitch as int, old(self).index@) {
                Some(s) => {
                    &&& r matches Some(p) && p.simulation == old(self).simulation && p.time == s.time
                        && p.position == s.position && p.velocity == s.velocity
                    &&& !final(self).done
                    &&& final(self).index@ == old(self).index@ + 1
                    &&& final(self).state.time == old(self).state.time
                        + old(self).simulation.conditions.time_step
                },
                None => r is None && final(self).done && final(self).index == old(self).index
                    && final(self).state == old(self).state,
            },
    {
        if self.done {
            return None;
        }
        let s = self.state;
        match self.simulation.advance(&s) {
            Some(n) => {
                self.state = n;
                self.index = Ghost(self.index@ + 1);
                Some(Packet { simulation: self.simulation, time: s.time, position: s.position, velocity: s.velocity })
            },
            None => {
                self.done = true;
                None
            },
        }
    }
}

} // verus!
