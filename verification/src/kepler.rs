//! The convergence self-test.
//!
//! [`kepler`] drives the Verlet integrator against an analytically
//! tractable two-body configuration — one heavy fixed body and one light
//! body on a circular orbit of radius 1 under `g = 1` — for 0.1 time units,
//! and records the maximum deviation of the orbital radius from 1.
//! [`run_test`] does this at three decreasing step sizes and checks that
//! the error shrinks at the rate of a second-order scheme: a tenfold
//! smaller step must shrink the error at least tenfold (with the second
//! refinement, a hundredfold).

use vstd::prelude::*;
use crate::fx::{FX_ONE, fx_abs, fx_abs_spec, fx_add, fx_add_spec, fx_div_spec, fx_mul,
    fx_mul_spec, fx_of_int, fx_of_int_spec, fx_sqrt, fx_sqrt_spec, fx_sub, fx_sub_spec};
use crate::model::{Body, BodyV, SimV, Simulation, V3, Vec3};
use crate::verlet::{norm2_spec, verlet_init, verlet_init_spec, verlet_next, verlet_step_spec};

verus! {

/// The duration of one self-test run: 0.1 in fixed point.
pub const KEPLER_MAX_TIME: i64 = 429496729;

/// The largest self-test step size: 0.001 in fixed point.
pub const KEPLER_DT1: i64 = 4294967;

/// The middle self-test step size: 0.0001 in fixed point.
pub const KEPLER_DT2: i64 = 429496;

/// The smallest self-test step size: 0.00001 in fixed point.
pub const KEPLER_DT3: i64 = 42949;

/// The heavy central body: mass `10^5`, at the origin, at rest, fixed.
pub open spec fn kepler_central() -> BodyV {
    BodyV {
        name: seq![98u8, 49u8],
        color: Seq::empty(),
        rad: 0,
        r: V3::zero(),
        v: V3::zero(),
        a: V3::zero(),
        a_next: V3::zero(),
        m: fx_of_int_spec(100000),
        min_rad: 0,
        max_rad: 0,
        fixed: true,
    }
}

/// The orbiting body: mass 1, at distance 1 on the y axis, with the
/// circular-orbit speed `sqrt(g * 10^5)` along the x axis.
pub open spec fn kepler_orbiter() -> BodyV {
    BodyV {
        name: seq![98u8, 50u8],
        color: Seq::empty(),
        rad: 0,
        r: V3 { x: 0, y: FX_ONE as int, z: 0 },
        v: V3 {
            x: fx_sqrt_spec(fx_mul_spec(FX_ONE as int, fx_of_int_spec(100000))),
            y: 0,
            z: 0,
        },
        a: V3::zero(),
        a_next: V3::zero(),
        m: FX_ONE as int,
        min_rad: 0,
        max_rad: 0,
        fixed: false,
    }
}

/// The synthetic two-body configuration for step size `dt`.
pub open spec fn kepler_sim(dt: int) -> SimV {
    SimV {
        bodies: seq![kepler_central(), kepler_orbiter()],
        g: FX_ONE as int,
        dt: dt,
    }
}

/// The orbiter's current deviation of radial distance from 1.
pub open spec fn kepler_radius_err(s: SimV) -> int {
    fx_abs_spec(fx_sub_spec(fx_sqrt_spec(norm2_spec(s.bodies[1].r)), FX_ONE as int))
}

/// The maximum radius error over the rest of a run that has reached time
/// `t` with maximum error `max_err` so far.
pub open spec fn kepler_loop(s: SimV, t: int, max_err: int) -> int
    decreases vstd::math::max(KEPLER_MAX_TIME as int - t, 0),
        when s.dt > 0 && t >= 0
{
    if t >= KEPLER_MAX_TIME {
        max_err
    } else {
        let s1 = verlet_step_spec(s);
        let e = kepler_radius_err(s1);
        let m = if max_err < e {
            e
        } else {
            max_err
        };
        kepler_loop(s1, fx_add_spec(t, s.dt), m)
    }
}

/// The maximum radius error of a whole run at step size `dt`.
pub open spec fn kepler_spec(dt: int) -> int {
    kepler_loop(verlet_init_spec(kepler_sim(dt)), 0, 0)
}

/// Build the executable two-body configuration for step size `dt`.
fn make_kepler_sim(dt: i64) -> (r: Simulation)
    ensures
        r@ == kepler_sim(dt as int),
{
    let mm = fx_of_int(100000);
    let mut name1: Vec<u8> = Vec::new();
    name1.push(98);
    name1.push(49);
    let mut name2: Vec<u8> = Vec::new();
    name2.push(98);
    name2.push(50);
    let central = Body {
        name: name1,
        color: Vec::new(),
        rad: 0,
        r: Vec3::zero(),
        v: Vec3::zero(),
        a: Vec3::zero(),
        a_next: Vec3::zero(),
        m: mm,
        min_rad: 0,
        max_rad: 0,
        fixed: true,
    };
    let orbiter = Body {
        name: name2,
        color: Vec::new(),
        rad: 0,
        r: Vec3 { x: 0, y: FX_ONE, z: 0 },
        v: Vec3 { x: fx_sqrt(fx_mul(FX_ONE, mm)), y: 0, z: 0 },
        a: Vec3::zero(),
        a_next: Vec3::zero(),
        m: FX_ONE,
        min_rad: 0,
        max_rad: 0,
        fixed: false,
    };
    let mut bodies: Vec<Body> = Vec::new();
    bodies.push(central);
    bodies.push(orbiter);
    let sim = Simulation { bodies, g: FX_ONE, dt };
    proof {
        assert(sim@.bodies[0] =~= kepler_sim(dt as int).bodies[0]);
        assert(sim@.bodies[1] =~= kepler_sim(dt as int).bodies[1]);
        assert(sim@.bodies =~= kepler_sim(dt as int).bodies);
        assert(sim@ =~= kepler_sim(dt as int));
    }
    sim
}

/// Run the Verlet integrator on the synthetic two-body orbit for 0.1 time
/// units at step size `dt` and return the maximum deviation of the orbital
/// radius from 1 observed after any step.
pub fn kepler(dt: i64) -> (max_err: i64)
    requires
        dt > 0,
    ensures
        max_err as int == kepler_spec(dt as int),
{
    let mut sim = make_kepler_sim(dt);
    verlet_init(&mut sim);
    let mut max_err: i64 = 0;
    let mut t: i64 = 0;
    while t < KEPLER_MAX_TIME
        invariant
            dt > 0,
            t >= 0,
            sim@.dt == dt as int,
            sim@.bodies.len() == 2,
            kepler_loop(sim@, t as int, max_err as int) == kepler_spec(dt as int),
        decreases vstd::math::max(KEPLER_MAX_TIME as int - t as int, 0),
    {
        verlet_next(&mut sim);
        proof {
            assert(sim@.bodies.len() == 2);
            assert(sim.bodies@.len() == 2);
        }
        let px = sim.bodies[1].r.x;
        let py = sim.bodies[1].r.y;
        let pz = sim.bodies[1].r.z;
        let d2 = fx_add(fx_add(fx_mul(px, px), fx_mul(py, py)), fx_mul(pz, pz));
        let rad = fx_sqrt(d2);
        let err = fx_abs(fx_sub(rad, FX_ONE));
        proof {
            assert(err as int == kepler_radius_err(sim@));
        }
        if max_err < err {
            max_err = err;
        }
        let t_next = fx_add(t, dt);
        proof {
            assert(t_next > t);
        }
        t = t_next;
    }
    max_err
}

/// The verdict of the convergence self-test.
#[derive(Clone, Copy, PartialEq, Eq, Structural, Debug)]
pub enum SelfTestOutcome {
    /// The error shrank at least as fast as required at both refinements.
    Passed,
    /// The error at `dt/10` was not below `error(dt) / 10`.
    FirstRatioFailed,
    /// The error at `dt/100` was not below `error(dt) / 100`.
    SecondRatioFailed,
}

/// The three measured errors of a self-test run and its verdict.
#[derive(Clone, Copy, PartialEq, Eq, Structural, Debug)]
pub struct SelfTestReport {
    pub err1: i64,
    pub err2: i64,
    pub err3: i64,
    pub outcome: SelfTestOutcome,
}

/// The verdict owed for the three measured errors: the first failure found,
/// checking the tenfold ratio before the hundredfold one.
pub open spec fn self_test_verdict(e1: int, e2: int, e3: int) -> SelfTestOutcome {
    if fx_div_spec(e1, fx_of_int_spec(10)) < e2 {
        SelfTestOutcome::FirstRatioFailed
    } else if fx_div_spec(e1, fx_of_int_spec(100)) < e3 {
        SelfTestOutcome::SecondRatioFailed
    } else {
        SelfTestOutcome::Passed
    }
}

/// Run the convergence self-test: measure the maximum orbital-radius error
/// at step sizes 0.001, 0.0001 and 0.00001, and require roughly
/// second-order convergence — the error must shrink at least tenfold, then
/// at least hundredfold, against the coarsest run.
pub fn run_test() -> (r: SelfTestReport)
    ensures
        r.err1 as int == kepler_spec(KEPLER_DT1 as int),
        r.err2 as int == kepler_spec(KEPLER_DT2 as int),
        r.err3 as int == kepler_spec(KEPLER_DT3 as int),
        r.outcome == self_test_verdict(r.err1 as int, r.err2 as int, r.err3 as int),
{
    let err1 = kepler(KEPLER_DT1);
    let err2 = kepler(KEPLER_DT2);
    let err3 = kepler(KEPLER_DT3);
    let tenth = crate::fx::fx_div(err1, fx_of_int(10));
    let hundredth = crate::fx::fx_div(err1, fx_of_int(100));
    let outcome = if tenth < err2 {
        SelfTestOutcome::FirstRatioFailed
    } else if hundredth < err3 {
        SelfTestOutcome::SecondRatioFailed
    } else {
        SelfTestOutcome::Passed
    };
    SelfTestReport { err1, err2, err3, outcome }
}

} // verus!
