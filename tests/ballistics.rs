use ballistics::atmosphere::Atmosphere;
use ballistics::drag_table::DragTable;
use ballistics::drag_tables::{g1, g5, g7, g8};
use ballistics::error::BallisticError;
use ballistics::fixed::{atan, cos, exp, isqrt, sin, HALF_PI, PI, QUARTER_PI};
use ballistics::projectile::{DragFunction, Projectile};
use ballistics::simulation::{Conditions, Scope, Shooter, Simulation, Wind};
use ballistics::simulator::Simulator;
use ballistics::vector::Vector3;

const METRE: i64 = 1_000_000;

fn projectile() -> Projectile {
    Projectile {
        mass: 9_100,
        caliber: 7_823,
        bc: 5_000,
        velocity: 800_000_000,
        drag: DragFunction::G1,
    }
}

fn scope() -> Scope {
    Scope { height: 38_100, offset: 0 }
}

fn standard() -> Atmosphere {
    Atmosphere { temperature: 15_000, pressure: 101_325, humidity: 0 }
}

fn conditions() -> Conditions {
    Conditions {
        atmosphere: standard(),
        wind: Wind { speed: 0, bearing: 0 },
        shooter: Shooter { line_of_sight: 0, azimuth: 0, latitude: 0, gravity: 9_806_650 },
        time_step: 1_000,
    }
}

fn simulation(pitch: i64) -> Simulation {
    Simulation::new(projectile(), scope(), conditions(), pitch).unwrap()
}

#[test]
fn table_needs_two_points() {
    assert_eq!(DragTable::new(vec![(0, 100)]).err(), Some(BallisticError::InvalidTable));
    assert_eq!(DragTable::new(vec![]).err(), Some(BallisticError::InvalidTable));
}

#[test]
fn table_needs_increasing_keys() {
    let r = DragTable::new(vec![(0, 100), (500, 200), (500, 300)]);
    assert_eq!(r.err(), Some(BallisticError::InvalidTable));
    let r = DragTable::new(vec![(0, 100), (700, 200), (600, 300)]);
    assert_eq!(r.err(), Some(BallisticError::InvalidTable));
}

#[test]
fn lookup_clamps_outside_keys() {
    let t = DragTable::new(vec![(1_000, 2_000), (2_000, 3_000), (3_000, 2_500)]).unwrap();
    assert_eq!(t.lookup(0), 2_000);
    assert_eq!(t.lookup(999), 2_000);
    assert_eq!(t.lookup(3_001), 2_500);
    assert_eq!(t.lookup(u32::MAX), 2_500);
}

#[test]
fn lookup_at_keys_is_exact() {
    let t = DragTable::new(vec![(1_000, 2_000), (2_000, 3_000), (3_000, 2_500)]).unwrap();
    assert_eq!(t.lookup(1_000), 2_000);
    assert_eq!(t.lookup(2_000), 3_000);
    assert_eq!(t.lookup(3_000), 2_500);
    let g = g1::init();
    for i in 0..g.len() {
        let (m, c) = g.point(i);
        assert_eq!(g.lookup(m), c as u32);
    }
}

#[test]
fn lookup_interpolates() {
    let t = DragTable::new(vec![(0, 1_000), (10_000, 2_000)]).unwrap();
    assert_eq!(t.lookup(5_000), 1_500);
    assert_eq!(t.lookup(2_500), 1_250);
    let d = DragTable::new(vec![(0, 2_000), (3, 1_000)]).unwrap();
    assert_eq!(d.lookup(1), 1_666);
}

#[test]
fn standard_tables() {
    assert_eq!(g1::init().len(), 79);
    assert_eq!(g5::init().len(), 76);
    assert_eq!(g7::init().len(), 84);
    assert_eq!(g8::init().len(), 78);
    assert_eq!(g1::init().lookup(0), 2_629);
    assert_eq!(g7::init().lookup(10_000), 3_803);
    assert_eq!(g7::init().lookup(10_250), 4_015);
}

#[test]
fn integer_square_root() {
    assert_eq!(isqrt(0), 0);
    assert_eq!(isqrt(1), 1);
    assert_eq!(isqrt(15), 3);
    assert_eq!(isqrt(16), 4);
    assert_eq!(isqrt(1_000_000_000_000), 1_000_000);
    assert_eq!(isqrt(1_000_000_000_001), 1_000_000);
}

#[test]
fn trigonometry() {
    assert_eq!(sin(0), 0);
    assert_eq!(cos(0), 1_000_000_000);
    assert!((sin(HALF_PI) - 1_000_000_000).abs() <= 2);
    assert!(cos(HALF_PI).abs() <= 2);
    assert!((sin(PI / 6) - 500_000_000).abs() <= 2);
    assert!((sin(-PI / 6) + 500_000_000).abs() <= 2);
    assert!((cos(2 * PI + PI / 3) - 500_000_000).abs() <= 2);
}

#[test]
fn exponential_and_arctangent() {
    assert_eq!(exp(0), 1_000_000_000);
    assert!((exp(1_000_000_000) - 2_718_281_828).abs() <= 1_000);
    assert!((exp(-1_000_000_000) - 367_879_441).abs() <= 1_000);
    assert_eq!(atan(0), 0);
    assert!((atan(1_000_000_000) - QUARTER_PI as i128).abs() <= 4);
    assert!((atan(-1_000_000_000) + QUARTER_PI as i128).abs() <= 4);
    assert!((atan(1_732_050_808) - 1_047_197_551).abs() <= 4);
}

#[test]
fn rotation_quarter_turn() {
    let v = Vector3 { x: 1_000_000_000, y: 0, z: 0 };
    let r = v.pivot_z(HALF_PI);
    assert!(r.x.abs() <= 2 && (r.y - 1_000_000_000).abs() <= 2 && r.z == 0);
    let r = v.pivot_y(HALF_PI);
    assert!(r.x.abs() <= 2 && r.y == 0 && (r.z + 1_000_000_000).abs() <= 2);
    assert_eq!(Vector3 { x: 3, y: 4, z: 12 }.norm(), 13);
}

#[test]
fn standard_atmosphere() {
    let a = standard();
    let rho = a.density();
    assert!((rho - 1_225_000).abs() <= 1_000, "{}", rho);
    let c = a.speed_of_sound(rho);
    assert!((c as i64 - 340_300_000).abs() <= 500_000, "{}", c);
    assert_eq!(a.vapor_pressure(), 0);
}

#[test]
fn humid_air_is_lighter() {
    let dry = standard();
    let wet = Atmosphere { humidity: 10_000, ..standard() };
    let pv = wet.vapor_pressure();
    assert!((pv - 1_705).abs() <= 5, "{}", pv);
    assert!(wet.density() < dry.density());
}

#[test]
fn projectile_area_and_form_factor() {
    let p = projectile();
    assert_eq!(p.area(), 48_065_840);
    assert_eq!(p.form_factor(), 422_986);
}

#[test]
fn inputs_out_of_range() {
    let mut c = conditions();
    c.time_step = 0;
    assert_eq!(Simulation::new(projectile(), scope(), c, 0).err(), Some(BallisticError::OutOfRange));
    let mut c = conditions();
    c.shooter.latitude = HALF_PI + 1;
    assert_eq!(Simulation::new(projectile(), scope(), c, 0).err(), Some(BallisticError::OutOfRange));
    let mut p = projectile();
    p.mass = 0;
    assert_eq!(Simulation::new(p, scope(), conditions(), 0).err(), Some(BallisticError::OutOfRange));
    assert_eq!(
        Simulation::new(projectile(), scope(), conditions(), QUARTER_PI + 1).err(),
        Some(BallisticError::OutOfRange)
    );
}

#[test]
fn first_sample_at_origin() {
    for pitch in [0, QUARTER_PI / 3, -QUARTER_PI / 2] {
        let sim = simulation(pitch);
        let mut it = sim.iter();
        let p = it.next().unwrap();
        assert_eq!(p.time, 0);
        assert_eq!(p.position, Vector3 { x: 0, y: 0, z: 0 });
        let q = it.next().unwrap();
        assert_eq!(q.time, 1_000);
    }
}

#[test]
fn flat_shot_only_falls() {
    let sim = simulation(0);
    let mut it = sim.iter();
    let mut last = 0i64;
    let mut last_x = -1i64;
    let mut count = 0;
    while let Some(p) = it.next() {
        let r = p.relative_position();
        if r.x > 1_000 * METRE {
            break;
        }
        assert!(r.y <= 0);
        assert!(r.y <= last);
        assert!(r.x > last_x);
        last = r.y;
        last_x = r.x;
        count += 1;
    }
    assert!(count > 100);
    assert!(last < -5 * METRE);
}

#[test]
fn zero_at_one_hundred_metres() {
    let sim = simulation(0);
    let pitch = sim.zero(100 * METRE, 0, 5_000).unwrap();
    assert!(pitch > 0 && pitch < QUARTER_PI);
    let h = sim.height_at(pitch, 100 * METRE).unwrap();
    assert!(h.abs() <= 5_000);
}

#[test]
fn zero_round_trip_through_drop_table() {
    let sim = simulation(0);
    let pitch = sim.zero(100 * METRE, 0, 5_000).unwrap();
    let solved = simulation(pitch);
    let rows = solved.drop_table(100 * METRE, 300 * METRE, 5_000);
    assert_eq!(rows.len(), 4);
    assert!(rows[1].distance >= 100 * METRE && rows[1].distance < 101 * METRE);
    assert!(rows[1].drop.abs() <= 5_000);
}

#[test]
fn zero_beyond_range() {
    let sim = simulation(0);
    assert_eq!(sim.zero(1_000_000 * METRE, 0, 5_000), Err(BallisticError::RangeExceedsTrajectory));
}

#[test]
fn zero_too_high_stalls() {
    let sim = simulation(0);
    assert_eq!(sim.zero(100 * METRE, 2_000 * METRE, 5_000), Err(BallisticError::ConvergenceStalled));
}

#[test]
fn drop_table_buckets() {
    let sim = simulation(QUARTER_PI / 400);
    let step = 50 * METRE;
    let rows = sim.drop_table(step, 500 * METRE, 5_000);
    assert_eq!(rows.len(), 11);
    assert_eq!(rows[0].distance, 0);
    assert_eq!(rows[0].time, 0);
    assert_eq!(rows[0].drop, -38_100);
    for i in 1..rows.len() {
        assert!(rows[i - 1].distance < rows[i].distance);
        assert!(rows[i - 1].distance / step < rows[i].distance / step);
        assert!(rows[i].distance >= i as i64 * step);
        assert!(rows[i - 1].velocity > rows[i].velocity);
        assert!(rows[i - 1].energy > rows[i].energy);
        assert!(rows[i - 1].time < rows[i].time);
    }
}

#[test]
fn drop_table_energy_at_muzzle() {
    let sim = simulation(0);
    let rows = sim.drop_table(METRE, 0, 5_000);
    assert_eq!(rows.len(), 1);
    assert_eq!(rows[0].velocity, 800_000_000_000);
    assert_eq!(rows[0].energy, 2_912_000);
    assert_eq!(rows[0].vertical_angle, HALF_PI);
    assert_eq!(rows[0].horizontal_angle, 0);
}

#[test]
fn simulator_solves() {
    let s = Simulator::new(projectile(), scope(), conditions(), conditions(), 0, 5_000);
    let rows = s.drop_table(100 * METRE, 100 * METRE, 1_000 * METRE).unwrap();
    assert_eq!(rows.len(), 11);
    assert!(rows[1].drop.abs() <= 5_000);
    assert!(rows[10].drop < -5 * METRE);
    assert!(rows[10].vertical_angle > 0);
    assert_eq!(s.drop_table(100 * METRE, 0, 1_000 * METRE).err(), Some(BallisticError::OutOfRange));
    let far = s.drop_table(1_000_000 * METRE, 100 * METRE, 1_000 * METRE);
    assert_eq!(far.err(), Some(BallisticError::RangeExceedsTrajectory));
}

#[test]
fn simulator_zero_and_solve_conditions_differ() {
    let mut field = conditions();
    field.atmosphere = Atmosphere { temperature: -10_000, pressure: 90_000, humidity: 5_000 };
    field.wind = Wind { speed: 5_000_000, bearing: HALF_PI };
    let s = Simulator::new(projectile(), scope(), conditions(), field, 0, 5_000);
    let zero = s.zero_simulation().unwrap();
    let solution = s.solution_simulation(100 * METRE).unwrap();
    assert_eq!(zero.muzzle_pitch, 0);
    assert_eq!(solution.conditions, field);
    assert_eq!(solution.muzzle_pitch, zero.zero(100 * METRE, 0, 5_000).unwrap());
    let rows = s.drop_table(100 * METRE, 100 * METRE, 300 * METRE).unwrap();
    assert!(rows[3].windage != 0);
}

fn windage_at(sim: &Simulation, distance: i64) -> i64 {
    let mut it = sim.iter();
    loop {
        let p = it.next().unwrap();
        if p.distance() >= distance {
            return p.windage();
        }
    }
}

#[test]
fn coriolis_drifts_with_hemisphere() {
    let level = simulation(0);
    assert_eq!(windage_at(&level, 500 * METRE), 0);
    let mut north = conditions();
    north.shooter.latitude = QUARTER_PI;
    let sim = Simulation::new(projectile(), scope(), north, 0).unwrap();
    assert!(windage_at(&sim, 500 * METRE) > 0);
    let mut south = conditions();
    south.shooter.latitude = -QUARTER_PI;
    let sim = Simulation::new(projectile(), scope(), south, 0).unwrap();
    assert!(windage_at(&sim, 500 * METRE) < 0);
}

#[test]
fn crosswind_pushes_sideways() {
    let mut c = conditions();
    c.wind = Wind { speed: 10_000_000, bearing: HALF_PI };
    let sim = Simulation::new(projectile(), scope(), c, 0).unwrap();
    assert!(windage_at(&sim, 300 * METRE).abs() > 10_000);
}

#[test]
fn drag_family_changes_the_drop() {
    let mut p = projectile();
    let g1_rows = Simulation::new(p, scope(), conditions(), 0).unwrap().drop_table(500 * METRE, 500 * METRE, 0);
    p.drag = DragFunction::G7;
    let g7_rows = Simulation::new(p, scope(), conditions(), 0).unwrap().drop_table(500 * METRE, 500 * METRE, 0);
    assert_eq!(g1_rows.len(), 2);
    assert_eq!(g7_rows.len(), 2);
    assert!(g1_rows[1].drop != g7_rows[1].drop);
    assert!(g1_rows[1].velocity != g7_rows[1].velocity);
}

#[test]
fn packet_measurements() {
    let sim = simulation(0);
    let mut it = sim.iter();
    let p = it.next().unwrap();
    assert_eq!(p.distance(), 0);
    assert_eq!(p.elevation(), -38_100);
    assert_eq!(p.windage(), 0);
    assert_eq!(p.speed(), 800_000_000_000);
    assert_eq!(p.energy(), 2_912_000);
    let q = it.next().unwrap();
    assert!(q.distance() > 799_000 && q.distance() < 800_000);
    assert!(q.elevation() < -38_100 && q.elevation() > -38_200);
}

#[test]
fn packet_angular_corrections() {
    let sim = simulation(0);
    let mut it = sim.iter();
    let p = loop {
        let p = it.next().unwrap();
        if p.distance() >= 100 * METRE {
            break p;
        }
    };
    let (x, y) = (p.distance() as f64, p.elevation() as f64);
    let expected = ((-y / x).atan() * 1e9) as i64;
    let va = p.vertical_angle(0);
    assert!(va > 0);
    assert!((va - expected).abs() <= 10, "{} {}", va, expected);
    assert_eq!(p.offset_vertical_angle(p.elevation(), 0), 0);
    assert_eq!(p.horizontal_angle(0), 0);
    assert!(p.offset_vertical_angle(-10 * METRE, 0) < 0);
    assert!(p.offset_horizontal_angle(METRE, 0) > 0);
}

#[test]
fn defaults() {
    let s = Scope::default();
    assert_eq!((s.height, s.offset), (38_100, 0));
    let sh = Shooter::default();
    assert_eq!(sh.gravity, 9_806_650);
    assert_eq!((sh.line_of_sight, sh.azimuth, sh.latitude), (0, 0, 0));
}

#[test]
fn packet_angle_from_line_of_sight() {
    let sim = simulation(0);
    let mut it = sim.iter();
    let p = it.next().unwrap();
    assert_eq!(p.angle(), HALF_PI as i128);
    let p = loop {
        let p = it.next().unwrap();
        if p.distance() >= 200 * METRE {
            break p;
        }
    };
    let (x, y) = (p.distance() as f64, p.elevation() as f64);
    let expected = ((y.abs() / x).atan() * 1e9) as i128;
    assert!((p.angle() - expected).abs() <= 10);
}

#[test]
fn g1_reference_points() {
    let g = g1::init();
    assert_eq!(g.lookup(0), 2_629);
    assert_eq!(g.lookup(10_000), 4_805);
    assert_eq!(g.lookup(50_000), 4_988);
    assert_eq!(g.lookup(75_000), 4_988);
    for i in 0..g.len() {
        assert!(g.point(i).1 > 0);
    }
}

#[test]
fn corrections_behind_the_muzzle() {
    let mut c = conditions();
    c.shooter.line_of_sight = HALF_PI / 9 * 8;
    let sim = Simulation::new(projectile(), scope(), c, 0).unwrap();
    let mut it = sim.iter();
    let p = loop {
        let p = it.next().unwrap();
        if p.distance() < -10 * METRE {
            break p;
        }
    };
    let (x, y) = (p.distance() as f64, p.elevation() as f64);
    let expected = ((y / x).atan().abs() * 1e9) as i64;
    let va = p.vertical_angle(0);
    assert!((va.abs() - expected).abs() <= 10, "{} {}", va, expected);
    assert!(p.angle() > HALF_PI as i128);
}

#[test]
fn first_step_without_progress_ends_the_run() {
    let mut p = projectile();
    p.velocity = 500_000;
    let mut c = conditions();
    c.time_step = 1;
    let sim = Simulation::new(p, scope(), c, 0).unwrap();
    let mut it = sim.iter();
    assert!(it.next().is_none());
    assert!(it.done);
    assert_eq!(it.state.time, 0);
    assert!(it.next().is_none());
}
