//! The force evaluator.
//!
//! For each body `i` that is not fixed, the instantaneous gravitational
//! acceleration is the sum over every other body `j` of
//! `g * m_j * (r_j - r_i) / |r_j - r_i|^3`, evaluated with fixed-point
//! arithmetic exactly as [`accel_term`] states.  Fixed bodies never receive
//! acceleration but are included as sources.  Coincident bodies make the
//! distance 0 and the division saturate (the caller is expected not to feed
//! coincident positions; nothing here panics on them).

use vstd::prelude::*;
use crate::fx::{fx_add, fx_add_spec, fx_div, fx_div_spec, fx_mul, fx_mul_spec, fx_sqrt,
    fx_sqrt_spec, fx_sub, fx_sub_spec};
use crate::model::{Body, BodyV, SimV, Simulation, V3, Vec3};

verus! {

/// Component-wise saturating addition of two vectors.
pub open spec fn v3_add(a: V3, b: V3) -> V3 {
    V3 {
        x: fx_add_spec(a.x, b.x),
        y: fx_add_spec(a.y, b.y),
        z: fx_add_spec(a.z, b.z),
    }
}

/// The acceleration body `j` induces on body `i`:
/// `g * m_j * (r_j - r_i) / d / d / d` with `d = |r_j - r_i|`,
/// every operation saturating fixed-point arithmetic.
pub open spec fn accel_term(g: int, bi: BodyV, bj: BodyV) -> V3 {
    let dx = fx_sub_spec(bi.r.x, bj.r.x);
    let dy = fx_sub_spec(bi.r.y, bj.r.y);
    let dz = fx_sub_spec(bi.r.z, bj.r.z);
    let d2 = fx_add_spec(
        fx_add_spec(fx_mul_spec(dx, dx), fx_mul_spec(dy, dy)),
        fx_mul_spec(dz, dz),
    );
    let dist = fx_sqrt_spec(d2);
    let gm = fx_mul_spec(g, bj.m);
    V3 {
        x: fx_div_spec(
            fx_div_spec(fx_div_spec(fx_mul_spec(gm, fx_sub_spec(bj.r.x, bi.r.x)), dist), dist),
            dist,
        ),
        y: fx_div_spec(
            fx_div_spec(fx_div_spec(fx_mul_spec(gm, fx_sub_spec(bj.r.y, bi.r.y)), dist), dist),
            dist,
        ),
        z: fx_div_spec(
            fx_div_spec(fx_div_spec(fx_mul_spec(gm, fx_sub_spec(bj.r.z, bi.r.z)), dist), dist),
            dist,
        ),
    }
}

/// The acceleration on body `i` accumulated over sources `0 .. k`
/// (excluding `i` itself), in index order.
pub open spec fn accel_sum(g: int, bodies: Seq<BodyV>, i: int, k: int) -> V3
    decreases k,
{
    if k <= 0 {
        V3::zero()
    } else if k - 1 == i {
        accel_sum(g, bodies, i, k - 1)
    } else {
        v3_add(accel_sum(g, bodies, i, k - 1), accel_term(g, bodies[i], bodies[k - 1]))
    }
}

/// The acceleration the force evaluator assigns to body `i`: the sum over
/// all other bodies.
pub open spec fn accel_of(s: SimV, i: int) -> V3 {
    accel_sum(s.g, s.bodies, i, s.bodies.len() as int)
}

/// Body `i` after one force evaluation: fixed bodies are untouched; for the
/// others the result goes to `a_next` (Verlet scratch) when `into_next` is
/// set, to `a` otherwise.
pub open spec fn accel_assigned_body(s: SimV, i: int, into_next: bool) -> BodyV {
    let b = s.bodies[i];
    if b.fixed {
        b
    } else if into_next {
        BodyV { a_next: accel_of(s, i), ..b }
    } else {
        BodyV { a: accel_of(s, i), ..b }
    }
}

/// The whole simulation after one force evaluation.
pub open spec fn with_accels(s: SimV, into_next: bool) -> SimV {
    SimV {
        bodies: Seq::new(s.bodies.len(), |i: int| accel_assigned_body(s, i, into_next)),
        g: s.g,
        dt: s.dt,
    }
}

/// Compute the acceleration on body `i` from all other bodies.
fn accel_body(sim: &Simulation, i: usize) -> (r: Vec3)
    requires
        i < sim@.bodies.len(),
    ensures
        r@ == accel_of(sim@, i as int),
{
    let n = sim.bodies.len();
    let g = sim.g;
    let bix = sim.bodies[i].r.x;
    let biy = sim.bodies[i].r.y;
    let biz = sim.bodies[i].r.z;
    let mut ax: i64 = 0;
    let mut ay: i64 = 0;
    let mut az: i64 = 0;
    let mut j: usize = 0;
    while j < n
        invariant
            j <= n,
            n == sim@.bodies.len(),
            i < n,
            g as int == sim@.g,
            bix as int == sim@.bodies[i as int].r.x,
            biy as int == sim@.bodies[i as int].r.y,
            biz as int == sim@.bodies[i as int].r.z,
            ax as int == accel_sum(sim@.g, sim@.bodies, i as int, j as int).x,
            ay as int == accel_sum(sim@.g, sim@.bodies, i as int, j as int).y,
            az as int == accel_sum(sim@.g, sim@.bodies, i as int, j as int).z,
        decreases n - j,
    {
        if j != i {
            let bj = &sim.bodies[j];
            let dx = fx_sub(bix, bj.r.x);
            let dy = fx_sub(biy, bj.r.y);
            let dz = fx_sub(biz, bj.r.z);
            let d2 = fx_add(fx_add(fx_mul(dx, dx), fx_mul(dy, dy)), fx_mul(dz, dz));
            let dist = fx_sqrt(d2);
            let gm = fx_mul(g, bj.m);
            let tx = fx_div(fx_div(fx_div(fx_mul(gm, fx_sub(bj.r.x, bix)), dist), dist), dist);
            let ty = fx_div(fx_div(fx_div(fx_mul(gm, fx_sub(bj.r.y, biy)), dist), dist), dist);
            let tz = fx_div(fx_div(fx_div(fx_mul(gm, fx_sub(bj.r.z, biz)), dist), dist), dist);
            ax = fx_add(ax, tx);
            ay = fx_add(ay, ty);
            az = fx_add(az, tz);
            proof {
                assert(sim@.bodies[j as int] == sim.bodies@[j as int]@);
            }
        }
        j = j + 1;
    }
    Vec3 { x: ax, y: ay, z: az }
}

/// Evaluate the gravitational acceleration on every non-fixed body at the
/// current positions and store it into `a` (or into the Verlet scratch
/// `a_next` when `into_next` is set).  Fixed bodies are untouched.
pub fn eval_forces(sim: &mut Simulation, into_next: bool)
    ensures
        final(sim)@ == with_accels(old(sim)@, into_next),
{
    let n = sim.bodies.len();
    let mut accs: Vec<Vec3> = Vec::new();
    let mut i: usize = 0;
    while i < n
        invariant
            i <= n,
            n == sim@.bodies.len(),
            accs@.len() == i as int,
            forall|k: int|
                0 <= k < i as int && !sim@.bodies[k].fixed ==> accs@[k]@ == accel_of(sim@, k),
        decreases n - i,
    {
        if sim.bodies[i].fixed {
            accs.push(Vec3::zero());
        } else {
            let acc = accel_body(sim, i);
            accs.push(acc);
        }
        i = i + 1;
    }
    let ghost orig: SimV = sim@;
    let mut i: usize = 0;
    while i < n
        invariant
            i <= n,
            n == orig.bodies.len(),
            accs@.len() == n as int,
            forall|k: int| 0 <= k < n as int && !orig.bodies[k].fixed ==> accs@[k]@ == accel_of(
                orig,
                k,
            ),
            sim@.bodies.len() == n as int,
            sim@.g == orig.g,
            sim@.dt == orig.dt,
            forall|k: int|
                i as int <= k < n as int ==> sim@.bodies[k] == orig.bodies[k],
            forall|k: int|
                0 <= k < i as int ==> sim@.bodies[k] == accel_assigned_body(orig, k, into_next),
        decreases n - i,
    {
        if !sim.bodies[i].fixed {
            let acc_x = accs[i].x;
            let acc_y = accs[i].y;
            let acc_z = accs[i].z;
            let b = &mut sim.bodies[i];
            if into_next {
                b.a_next = Vec3 { x: acc_x, y: acc_y, z: acc_z };
            } else {
                b.a = Vec3 { x: acc_x, y: acc_y, z: acc_z };
            }
        }
        proof {
            assert(sim@.bodies[i as int] =~= accel_assigned_body(orig, i as int, into_next));
        }
        i = i + 1;
    }
    proof {
        assert(sim@.bodies =~= with_accels(orig, into_next).bodies);
        assert(sim@ =~= with_accels(orig, into_next));
    }
}

} // verus!
