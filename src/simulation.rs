//! One simulated shot: the immutable inputs of a run, the forces on the
//! projectile, and the step that advances its motion state.
//!
//! Inputs give lengths in micrometres, times in microseconds, speeds in
//! micrometres per second, accelerations in micrometres per second squared
//! and angles in nanoradians. A run keeps its position in micrometres, its
//! velocity in nanometres per second and its acceleration in nanometres per
//! second squared. The simulation frame has `x` pointing down
//! range, `y` up and `z` to the right.
use vstd::prelude::*;
use crate::atmosphere::{density, speed_of_sound, Atmosphere};
use crate::drag_table::{lookup_value, DragTable};
use crate::drag_tables::{g1, g5, g7, g8, table_points};
use crate::error::BallisticError;
use crate::fixed::{tdiv, HALF_PI, QUARTER_PI, TWO_PI};
use crate::projectile::{DragFunction, Projectile};
use crate::vector::{bounded, norm, pivot_y, pivot_z, Vector3};

verus! {

/// Angular velocity of the Earth, in picoradians per second.
pub const EARTH_ROTATION: i64 = 72_921_159;
/// Standard gravity, in micrometres per second squared.
pub const STANDARD_GRAVITY: u64 = 9_806_650;
/// Strongest accepted gravity, in micrometres per second squared.
pub const GRAVITY_MAX: u64 = 1_000_000_000;
/// Strongest accepted wind, in micrometres per second.
pub const WIND_MAX: u64 = 2_000_000_000;
/// Longest accepted time step, in microseconds.
pub const TIME_STEP_MAX: u64 = 1_000_000;
/// Largest accepted scope height or offset, in micrometres.
pub const SCOPE_MAX: i64 = 10_000_000;
/// Densest accepted air, in milligrams per cubic metre.
pub const DENSITY_MAX: i64 = 10_000_000;
/// Largest accepted drag factor, in millionths of a millionth per metre.
pub const DRAG_FACTOR_MAX: u64 = 0x10_0000_0000;
/// Largest position component that a run can reach, in micrometres.
pub const POSITION_LIMIT: i64 = 0x2000_0000_0000;
/// Largest velocity component that a run can reach, in nanometres per second.
pub const VELOCITY_LIMIT: i64 = 0x1000_0000_0000;
/// Longest time that a run can last, in microseconds.
pub const TIME_LIMIT: u64 = 0x100_0000_0000;
/// Bound on every acceleration component, in nanometres per second squared.
pub const ACCELERATION_LIMIT: i64 = 0x4000_0000_0000_0000;
/// Scale that turns drag factor x coefficient x speed into a rate.
pub const RATE_DIVISOR: i128 = 1_000_000_000;
/// Scale that turns that rate x velocity into an acceleration.
pub const DRAG_DIVISOR: i128 = 10_000_000_000_000_000;
/// Scale of the Earth's angular velocity against a velocity.
pub const CORIOLIS_DIVISOR: i128 = 1_000_000_000_000;

/// The sight above the bore.
#[derive(Clone, Copy, Debug, PartialEq, Eq, Structural)]
pub struct Scope {
    /// Height of the line of sight above the bore, micrometres.
    pub height: i64,
    /// Lateral offset of the line of sight from the bore, micrometres.
    pub offset: i64,
}

/// Wind speed and where it blows from.
#[derive(Clone, Copy, Debug, PartialEq, Eq, Structural)]
pub struct Wind {
    /// Micrometres per second.
    pub speed: u64,
    /// Nanoradians.
    pub bearing: i64,
}

/// Where and how the shooter aims.
#[derive(Clone, Copy, Debug, PartialEq, Eq, Structural)]
pub struct Shooter {
    /// Angle of the line of sight above the horizontal, nanoradians.
    pub line_of_sight: i64,
    /// Compass bearing of the shot (0 north, a quarter turn east), nanoradians.
    pub azimuth: i64,
    /// Latitude, nanoradians.
    pub latitude: i64,
    /// Magnitude of gravity, micrometres per second squared.
    pub gravity: u64,
}

/// Everything about the surroundings of one run.
#[derive(Clone, Copy, Debug, PartialEq, Eq, Structural)]
pub struct Conditions {
    pub atmosphere: Atmosphere,
    pub wind: Wind,
    pub shooter: Shooter,
    /// Integration time step, microseconds.
    pub time_step: u64,
}

impl Default for Scope {
    /// A scope 1.5 inches above the bore, centred over it.
    fn default() -> (r: Scope)
        ensures
            r.height == 38_100 && r.offset == 0,
    {
        Scope { height: 38_100, offset: 0 }
    }
}

impl Default for Shooter {
    /// A level shot due north at the equator under standard gravity.
    fn default() -> (r: Shooter)
        ensures
            r.line_of_sight == 0 && r.azimuth == 0 && r.latitude == 0 && r.gravity == STANDARD_GRAVITY,
    {
        Shooter { line_of_sight: 0, azimuth: 0, latitude: 0, gravity: STANDARD_GRAVITY }
    }
}

impl Scope {
    /// The scope sits within `SCOPE_MAX` of the bore.
    pub open spec fn valid(&self) -> bool {
        -SCOPE_MAX <= self.height <= SCOPE_MAX && -SCOPE_MAX <= self.offset <= SCOPE_MAX
    }

    pub fn is_valid(&self) -> (r: bool)
        ensures
            r == self.valid(),
    {
        -SCOPE_MAX <= self.height && self.height <= SCOPE_MAX && -SCOPE_MAX <= self.offset && self.offset
            <= SCOPE_MAX
    }
}

impl Conditions {
    /// The inputs lie in the domain of the model.
    pub open spec fn valid(&self) -> bool {
        &&& self.atmosphere.valid()
        &&& self.wind.speed <= WIND_MAX
        &&& -TWO_PI <= self.wind.bearing <= TWO_PI
        &&& -HALF_PI <= self.shooter.line_of_sight <= HALF_PI
        &&& -TWO_PI <= self.shooter.azimuth <= TWO_PI
        &&& -HALF_PI <= self.shooter.latitude <= HALF_PI
        &&& self.shooter.gravity <= GRAVITY_MAX
        &&& 1 <= self.time_step <= TIME_STEP_MAX
    }

    pub fn is_valid(&self) -> (r: bool)
        ensures
            r == self.valid(),
    {
        let w = &self.wind;
        let s = &self.shooter;
        self.atmosphere.is_valid() && w.speed <= WIND_MAX && -TWO_PI <= w.bearing && w.bearing <= TWO_PI
            && -HALF_PI <= s.line_of_sight && s.line_of_sight <= HALF_PI && -TWO_PI <= s.azimuth
            && s.azimuth <= TWO_PI && -HALF_PI <= s.latitude && s.latitude <= HALF_PI && s.gravity
            <= GRAVITY_MAX && 1 <= self.time_step && self.time_step <= TIME_STEP_MAX
    }
}

/// The wind as a velocity in nanometres per second: its speed turned about
/// the vertical axis by its bearing plus the azimuth (compass angles turn the
/// other way round).
pub open spec fn wind_velocity(c: Conditions) -> (int, int, int) {
    pivot_y((c.wind.speed * 1000, 0, 0), -(c.wind.bearing + c.shooter.azimuth))
}

/// The Earth's angular velocity, turned to the local vertical by the latitude.
pub open spec fn earth_rotation(c: Conditions) -> (int, int, int) {
    pivot_z((EARTH_ROTATION as int, 0, 0), c.shooter.latitude as int)
}

/// Drag factor `0.5 * rho * area * i / mass`, in millionths of a millionth
/// per metre, for a density in milligrams per cubic metre.
pub open spec fn drag_factor(rho: int, p: Projectile) -> int {
    (rho * p.area_spec() * p.form_factor_spec()) / (2 * p.mass * 1_000_000)
}

/// A snapshot of the motion: elapsed time, position and velocity.
#[derive(Clone, Copy, Debug, PartialEq, Eq, Structural)]
pub struct MotionState {
    pub time: u64,
    pub position: Vector3,
    pub velocity: Vector3,
}

/// A motion state that a run can hold.
pub open spec fn state_in_domain(s: MotionState) -> bool {
    s.time <= TIME_LIMIT && bounded(s.position@, POSITION_LIMIT as int) && bounded(
        s.velocity@,
        VELOCITY_LIMIT as int,
    )
}

/// The inputs of a run, with what is derived from them once.
pub struct Simulation {
    pub projectile: Projectile,
    pub scope: Scope,
    pub conditions: Conditions,
    /// Launch angle above the line of sight, nanoradians.
    pub muzzle_pitch: i64,
    pub table: DragTable,
    /// Air density, milligrams per cubic metre.
    pub density: i64,
    /// Speed of sound, micrometres per second.
    pub sound: u64,
    pub drag_factor: u64,
    pub wind: Vector3,
    pub rotation: Vector3,
}

/// Mach number in ten-thousandths for a speed in nanometres per second and
/// a speed of sound in micrometres per second, saturated to the range of a
/// table key.
pub open spec fn mach(sound: int, speed: int) -> int {
    let m = (speed * 10) / sound;
    if m > u32::MAX {
        u32::MAX as int
    } else {
        m
    }
}

/// `a - b`, component by component.
pub open spec fn difference(a: (int, int, int), b: (int, int, int)) -> (int, int, int) {
    (a.0 - b.0, a.1 - b.1, a.2 - b.2)
}

/// Velocity relative to the air.
pub open spec fn air_velocity(sim: Simulation, v: (int, int, int)) -> (int, int, int) {
    difference(v, sim.wind@)
}

/// Drag acceleration `-k * Cd(mach) * v_rel * |v_rel|`.
pub open spec fn drag_acceleration(sim: Simulation, v: (int, int, int)) -> (int, int, int) {
    let vr = air_velocity(sim, v);
    let speed = norm(vr);
    let cd = lookup_value(sim.table@, mach(sim.sound as int, speed));
    let f = tdiv(sim.drag_factor * cd * speed, RATE_DIVISOR as int);
    (
        tdiv(-(f * vr.0), DRAG_DIVISOR as int),
        tdiv(-(f * vr.1), DRAG_DIVISOR as int),
        tdiv(-(f * vr.2), DRAG_DIVISOR as int),
    )
}

/// Coriolis acceleration `-2 * omega x v`.
pub open spec fn coriolis_acceleration(sim: Simulation, v: (int, int, int)) -> (int, int, int) {
    let w = sim.rotation@;
    (
        tdiv(-2 * (w.1 * v.2 - w.2 * v.1), CORIOLIS_DIVISOR as int),
        tdiv(-2 * (w.2 * v.0 - w.0 * v.2), CORIOLIS_DIVISOR as int),
        tdiv(-2 * (w.0 * v.1 - w.1 * v.0), CORIOLIS_DIVISOR as int),
    )
}

/// Net acceleration: drag, gravity and Coriolis.
pub open spec fn acceleration(sim: Simulation, v: (int, int, int)) -> (int, int, int) {
    let d = drag_acceleration(sim, v);
    let c = coriolis_acceleration(sim, v);
    (d.0 + c.0, d.1 + c.1 - sim.conditions.shooter.gravity * 1000, d.2 + c.2)
}

/// Position change in micrometres over one step: `v * dt + a * dt^2 / 2`.
pub open spec fn delta_position(v: int, a: int, dt: int) -> int {
    tdiv(v * dt, 1_000_000_000) + tdiv(a * dt * dt, 2_000_000_000_000_000)
}

/// Velocity change in nanometres per second over one step: `a * dt`.
pub open spec fn delta_velocity(a: int, dt: int) -> int {
    tdiv(a * dt, 1_000_000)
}

/// The state one time step after `s`, if it stays in the domain of a run.
pub open spec fn step(sim: Simulation, s: MotionState) -> Option<MotionState> {
    let dt = sim.conditions.time_step as int;
    let v = s.velocity@;
    let p = s.position@;
    let a = acceleration(sim, v);
    let t = s.time + dt;
    let np = (
        p.0 + delta_position(v.0, a.0, dt),
        p.1 + delta_position(v.1, a.1, dt),
        p.2 + delta_position(v.2, a.2, dt),
    );
    let nv = (v.0 + delta_velocity(a.0, dt), v.1 + delta_velocity(a.1, dt), v.2 + delta_velocity(a.2, dt));
    if t <= TIME_LIMIT && bounded(np, POSITION_LIMIT as int) && bounded(nv, VELOCITY_LIMIT as int) {
        Some(
            MotionState {
                time: t as u64,
                position: Vector3 { x: np.0 as i64, y: np.1 as i64, z: np.2 as i64 },
                velocity: Vector3 { x: nv.0 as i64, y: nv.1 as i64, z: nv.2 as i64 },
            },
        )
    } else {
        None
    }
}

/// The projectile still progresses down range: its forward position changed.
pub open spec fn progressing(before: MotionState, after: MotionState) -> bool {
    after.position.x != before.position.x
}

/// The state after `s` while the run goes on; `None` once it terminates.
pub open spec fn advance(sim: Simulation, s: MotionState) -> Option<MotionState> {
    match step(sim, s) {
        Some(n) => if progressing(s, n) {
            Some(n)
        } else {
            None
        },
        None => None,
    }
}

/// Muzzle velocity turned up by the line of sight plus the muzzle pitch and
/// about the vertical by the azimuth.
pub open spec fn initial_velocity(sim: Simulation, pitch: int) -> (int, int, int) {
    pivot_y(
        pivot_z((sim.projectile.velocity * 1000, 0, 0), sim.conditions.shooter.line_of_sight + pitch),
        -sim.conditions.shooter.azimuth,
    )
}

/// The state in which every run starts: time zero at the origin.
pub open spec fn initial_state(sim: Simulation, pitch: int) -> MotionState {
    let v = initial_velocity(sim, pitch);
    MotionState {
        time: 0,
        position: Vector3 { x: 0, y: 0, z: 0 },
        velocity: Vector3 { x: v.0 as i64, y: v.1 as i64, z: v.2 as i64 },
    }
}

/// State of the run at muzzle pitch `pitch` after `n` steps; `None` once it
/// has terminated.
pub open spec fn state_at(sim: Simulation, pitch: int, n: nat) -> Option<MotionState>
    decreases n,
{
    if n == 0 {
        Some(initial_state(sim, pitch))
    } else {
        match state_at(sim, pitch, (n - 1) as nat) {
            Some(s) => advance(sim, s),
            None => None,
        }
    }
}

/// Sample `n` of the run: the state before step `n`, emitted only if the run
/// goes on after it.
pub open spec fn sample(sim: Simulation, pitch: int, n: nat) -> Option<MotionState> {
    if state_at(sim, pitch, n + 1) is Some {
        state_at(sim, pitch, n)
    } else {
        None
    }
}

/// Position relative to the line of sight: turned back by the azimuth and
/// the line-of-sight angle, less the scope's position.
pub open spec fn relative_position(sim: Simulation, p: (int, int, int)) -> (int, int, int) {
    let q = pivot_z(pivot_y(p, sim.conditions.shooter.azimuth as int), -sim.conditions.shooter.line_of_sight);
    (q.0, q.1 - sim.scope.height, q.2 - sim.scope.offset)
}

/// The inputs lie in the model's domain, and so do the air density and the
/// drag factor derived from them.
pub open spec fn accepts(projectile: Projectile, scope: Scope, conditions: Conditions, muzzle_pitch: int) -> bool {
    &&& projectile.valid()
    &&& scope.valid()
    &&& conditions.valid()
    &&& -QUARTER_PI <= muzzle_pitch <= QUARTER_PI
    &&& 1 <= density(conditions.atmosphere) <= DENSITY_MAX
    &&& speed_of_sound(conditions.atmosphere, density(conditions.atmosphere)) >= 1
    &&& drag_factor(density(conditions.atmosphere), projectile) <= DRAG_FACTOR_MAX
}

/// `s` is a well-formed simulation of these inputs.
pub open spec fn describes(s: Simulation, projectile: Projectile, scope: Scope, conditions: Conditions, muzzle_pitch: int) -> bool {
    s.wf() && s.projectile == projectile && s.scope == scope && s.conditions == conditions && s.muzzle_pitch == muzzle_pitch
}

impl Simulation {
    /// Inputs in their domain and the derived quantities computed from them.
    pub open spec fn wf(&self) -> bool {
        &&& self.projectile.valid()
        &&& self.scope.valid()
        &&& self.conditions.valid()
        &&& -QUARTER_PI <= self.muzzle_pitch <= QUARTER_PI
        &&& self.table.wf()
        &&& self.table@ == table_points(self.projectile.drag)
        &&& self.density == density(self.conditions.atmosphere)
        &&& 1 <= self.density <= DENSITY_MAX
        &&& self.sound == speed_of_sound(self.conditions.atmosphere, self.density as int)
        &&& self.sound >= 1
        &&& self.drag_factor == drag_factor(self.density as int, self.projectile)
        &&& self.drag_factor <= DRAG_FACTOR_MAX
        &&& self.wind@ == wind_velocity(self.conditions)
        &&& self.rotation@ == earth_rotation(self.conditions)
    }

    /// Builds a simulation; refuses inputs outside the model's domain.
    pub fn new(projectile: Projectile, scope: Scope, conditions: Conditions, muzzle_pitch: i64) -> (r:
        Result<Simulation, BallisticError>)
        ensures
            r matches Ok(s) ==> describes(s, projectile, scope, conditions, muzzle_pitch as int),
            r matches Err(e) ==> e == BallisticError::OutOfRange,
            r is Ok <==> accepts(projectile, scope, conditions, muzzle_pitch as int),
    {
        let valid_inputs = projectile.is_valid() && scope.is_valid() && conditions.is_valid()
            && -QUARTER_PI <= muzzle_pitch && muzzle_pitch <= QUARTER_PI;
        if !valid_inputs {
            return Err(BallisticError::OutOfRange);
        }
        let rho = conditions.atmosphere.density();
        if rho < 1 || rho > DENSITY_MAX {
            return Err(BallisticError::OutOfRange);
        }
        let sound = conditions.atmosphere.speed_of_sound(rho);
        if sound < 1 {
            return Err(BallisticError::OutOfRange);
        }
        let area = projectile.area();
        let form = projectile.form_factor();
        proof {
            assert((rho as int) * (area as int) <= 80_000_000_000_000_000) by (nonlinear_arith)
                requires
                    1 <= rho <= 10_000_000,
                    area <= 8_000_000_000,
            ;
            assert((rho as int) * (area as int) * (form as int) <= 80_000_000_000_000_000
                * 15_000_000_000_000_000_000) by (nonlinear_arith)
                requires
                    (rho as int) * (area as int) <= 80_000_000_000_000_000,
                    (rho as int) * (area as int) >= 0,
                    form <= 15_000_000_000_000_000_000,
            ;
        }
        let k = (rho as u128) * (area as u128) * (form as u128) / (2 * (projectile.mass as u128)
            * 1_000_000);
        if k > DRAG_FACTOR_MAX as u128 {
            return Err(BallisticError::OutOfRange);
        }
        let table = match projectile.drag {
            DragFunction::G1 => g1::init(),
            DragFunction::G5 => g5::init(),
            DragFunction::G7 => g7::init(),
            DragFunction::G8 => g8::init(),
        };
        let still = Vector3 { x: conditions.wind.speed as i64 * 1000, y: 0, z: 0 };
        let wind = still.pivot_y(-(conditions.wind.bearing + conditions.shooter.azimuth));
        let spin = Vector3 { x: EARTH_ROTATION, y: 0, z: 0 };
        let rotation = spin.pivot_z(conditions.shooter.latitude);
        Ok(
            Simulation {
                projectile,
                scope,
                conditions,
                muzzle_pitch,
                table,
                density: rho,
                sound,
                drag_factor: k as u64,
                wind,
                rotation,
            },
        )
    }
}

} // verus!
