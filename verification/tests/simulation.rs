use nbody::euler::euler_next;
use nbody::fx::{FX_ONE, FX_UNSET, fx_mul, fx_of_int, fx_sqrt};
use nbody::model::{Body, Simulation, Vec3};
use nbody::verlet::{verlet_init, verlet_next};

const DT_1E5: i64 = 42949; // 0.00001
const DT_1E2: i64 = 42949672; // 0.01

fn v3(x: i64, y: i64, z: i64) -> Vec3 {
    Vec3 { x, y, z }
}

fn body(name: &[u8], r: Vec3, v: Vec3, m: i64, fixed: bool) -> Body {
    Body {
        name: name.to_vec(),
        color: b"000000".to_vec(),
        rad: FX_UNSET,
        r,
        v,
        a: v3(0, 0, 0),
        a_next: v3(0, 0, 0),
        m,
        min_rad: FX_UNSET,
        max_rad: FX_UNSET,
        fixed,
    }
}

fn to_f(raw: i64) -> f64 {
    raw as f64 / FX_ONE as f64
}

fn radius_of(b: &Body) -> f64 {
    let x = to_f(b.r.x);
    let y = to_f(b.r.y);
    let z = to_f(b.r.z);
    (x * x + y * y + z * z).sqrt()
}

/// Fixed bodies keep position and velocity exactly, under both schemes.
#[test]
fn fixed_body_never_moves() {
    let anchor = body(
        b"anchor",
        v3(FX_ONE, 2 * FX_ONE, 3 * FX_ONE),
        v3(4 * FX_ONE, 5 * FX_ONE, 6 * FX_ONE),
        fx_of_int(100000),
        true,
    );
    let probe = body(b"probe", v3(0, FX_ONE, 0), v3(FX_ONE, 0, 0), FX_ONE, false);
    let mut sim = Simulation { bodies: vec![anchor, probe], g: FX_ONE, dt: DT_1E5 };
    verlet_init(&mut sim);
    for _ in 0..3 {
        verlet_next(&mut sim);
    }
    for _ in 0..2 {
        euler_next(&mut sim);
    }
    let a = &sim.bodies[0];
    assert_eq!((a.r.x, a.r.y, a.r.z), (FX_ONE, 2 * FX_ONE, 3 * FX_ONE));
    assert_eq!((a.v.x, a.v.y, a.v.z), (4 * FX_ONE, 5 * FX_ONE, 6 * FX_ONE));
    // the probe, in contrast, did move
    let p = &sim.bodies[1];
    assert!((p.r.x, p.r.y, p.r.z) != (0, FX_ONE, 0));
}

/// The Euler update covers every body of the sequence, not only a prefix.
#[test]
fn euler_updates_all_bodies() {
    // massless bodies exert no force, so each moves in a straight line
    let mut bodies = Vec::new();
    for i in 0..4 {
        bodies.push(body(b"m", v3(0, 0, 0), v3((i + 1) * FX_ONE, 0, 0), 0, false));
    }
    let mut sim = Simulation { bodies, g: FX_ONE, dt: DT_1E2 };
    euler_next(&mut sim);
    for i in 0..4i64 {
        let b = &sim.bodies[i as usize];
        assert_eq!(b.r.x, fx_mul(DT_1E2, (i + 1) * FX_ONE));
        assert_eq!(b.v.x, (i + 1) * FX_ONE);
    }
}

/// Near-circular two-body orbit: the light body's radial distance stays
/// within about 1e-3 of 1 over 0.1 time units at dt = 0.00001.
#[test]
fn kepler_orbit_stays_near_unit_radius() {
    let heavy = body(b"S", v3(0, 0, 0), v3(0, 0, 0), fx_of_int(100000), true);
    let orbiter = body(
        b"p",
        v3(0, FX_ONE, 0),
        v3(fx_sqrt(fx_of_int(100000)), 0, 0),
        FX_ONE,
        false,
    );
    let mut sim = Simulation { bodies: vec![heavy, orbiter], g: FX_ONE, dt: DT_1E5 };
    verlet_init(&mut sim);
    let mut t: i64 = 0;
    let max_time = FX_ONE / 10;
    while t < max_time {
        verlet_next(&mut sim);
        let r = radius_of(&sim.bodies[1]);
        assert!((r - 1.0).abs() < 1.0e-3, "radius {} strayed", r);
        t += DT_1E5;
    }
}

/// Boundary invariant: a body with a set maximal bound never samples
/// beyond it once constrained, and the constraint really fires.
#[test]
fn max_bound_contains_body() {
    let mut escaper = body(b"e", v3(FX_ONE, 0, 0), v3(10 * FX_ONE, 0, 0), 0, false);
    escaper.max_rad = 2 * FX_ONE;
    let mut sim = Simulation { bodies: vec![escaper], g: FX_ONE, dt: DT_1E2 };
    verlet_init(&mut sim);
    for _ in 0..100 {
        verlet_next(&mut sim);
        assert!(radius_of(&sim.bodies[0]) <= 2.0 + 1.0e-6);
    }
    assert!(radius_of(&sim.bodies[0]) >= 2.0 - 1.0e-6);
}

/// Boundary invariant: a body with a set minimal bound never samples
/// under it once constrained.
#[test]
fn min_bound_contains_body() {
    let mut faller = body(
        b"f",
        v3(FX_ONE + FX_ONE / 2, 0, 0),
        v3(-10 * FX_ONE, 0, 0),
        0,
        false,
    );
    faller.min_rad = FX_ONE;
    let mut sim = Simulation { bodies: vec![faller], g: FX_ONE, dt: DT_1E2 };
    verlet_init(&mut sim);
    for _ in 0..10 {
        verlet_next(&mut sim);
        assert!(radius_of(&sim.bodies[0]) >= 1.0 - 1.0e-6);
    }
    let r = radius_of(&sim.bodies[0]);
    assert!((r - 1.0).abs() < 1.0e-6);
}

fn energy_and_momentum(sim: &Simulation) -> (f64, f64) {
    let g = to_f(sim.g);
    let mut kinetic = 0.0;
    let mut lz = 0.0;
    for b in sim.bodies.iter() {
        let m = to_f(b.m);
        let (vx, vy, vz) = (to_f(b.v.x), to_f(b.v.y), to_f(b.v.z));
        kinetic += 0.5 * m * (vx * vx + vy * vy + vz * vz);
        lz += m * (to_f(b.r.x) * vy - to_f(b.r.y) * vx);
    }
    let mut potential = 0.0;
    for i in 0..sim.bodies.len() {
        for j in (i + 1)..sim.bodies.len() {
            let bi = &sim.bodies[i];
            let bj = &sim.bodies[j];
            let dx = to_f(bi.r.x) - to_f(bj.r.x);
            let dy = to_f(bi.r.y) - to_f(bj.r.y);
            let dz = to_f(bi.r.z) - to_f(bj.r.z);
            let d = (dx * dx + dy * dy + dz * dz).sqrt();
            potential -= g * to_f(bi.m) * to_f(bj.m) / d;
        }
    }
    (kinetic + potential, lz)
}

/// Conservation: for a closed unconstrained system, energy and angular
/// momentum stay within a small tolerance of their initial values.
#[test]
fn closed_system_conserves_energy_and_momentum() {
    let m = fx_of_int(100);
    let half = FX_ONE / 2;
    let v = fx_sqrt(fx_of_int(50));
    let b1 = body(b"a", v3(half, 0, 0), v3(0, v, 0), m, false);
    let b2 = body(b"b", v3(-half, 0, 0), v3(0, -v, 0), m, false);
    let mut sim = Simulation { bodies: vec![b1, b2], g: FX_ONE, dt: DT_1E5 };
    verlet_init(&mut sim);
    let (e0, l0) = energy_and_momentum(&sim);
    for _ in 0..2000 {
        verlet_next(&mut sim);
    }
    let (e1, l1) = energy_and_momentum(&sim);
    assert!((e1 - e0).abs() < 1.0e-3 * e0.abs(), "energy drifted: {} -> {}", e0, e1);
    assert!((l1 - l0).abs() < 1.0e-3 * l0.abs(), "momentum drifted: {} -> {}", l0, l1);
}
