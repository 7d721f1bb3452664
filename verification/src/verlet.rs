//! The velocity Verlet integrator.
//!
//! One step is a two-phase protocol (after a one-time [`verlet_init`]):
//! position update with the old acceleration, radial boundary constraint,
//! force re-evaluation at the new positions into the scratch field, then
//! velocity update with the average of old and new acceleration.  Fixed
//! bodies are skipped by every update but remain force sources.
//!
//! The update each phase performs is stated exactly by the spec functions
//! below; [`verlet_step_spec`] is their composition.

use vstd::prelude::*;
use crate::fx::{FX_HALF, fx_add, fx_add_spec, fx_div, fx_div_spec, fx_mul, fx_mul_spec, fx_sqrt,
    fx_sqrt_spec};
use crate::force::{eval_forces, with_accels};
use crate::model::{Body, BodyV, SimV, Simulation, V3, Vec3};

verus! {

/// The unconstrained position update: `r + v*dt + a*dt*dt*(1/2)`,
/// component-wise in saturating fixed-point arithmetic.
pub open spec fn pos_updated(b: BodyV, dt: int) -> V3 {
    V3 {
        x: fx_add_spec(
            fx_add_spec(b.r.x, fx_mul_spec(b.v.x, dt)),
            fx_mul_spec(fx_mul_spec(fx_mul_spec(b.a.x, dt), dt), FX_HALF as int),
        ),
        y: fx_add_spec(
            fx_add_spec(b.r.y, fx_mul_spec(b.v.y, dt)),
            fx_mul_spec(fx_mul_spec(fx_mul_spec(b.a.y, dt), dt), FX_HALF as int),
        ),
        z: fx_add_spec(
            fx_add_spec(b.r.z, fx_mul_spec(b.v.z, dt)),
            fx_mul_spec(fx_mul_spec(fx_mul_spec(b.a.z, dt), dt), FX_HALF as int),
        ),
    }
}

/// The squared Euclidean norm of a position, in fixed-point arithmetic.
pub open spec fn norm2_spec(p: V3) -> int {
    fx_add_spec(
        fx_add_spec(fx_mul_spec(p.x, p.x), fx_mul_spec(p.y, p.y)),
        fx_mul_spec(p.z, p.z),
    )
}

/// `p` rescaled onto the sphere of radius `bound`, using the precomputed
/// radial distance `dist`: each component becomes `bound * p_k / dist`.
pub open spec fn rescaled(bound: int, p: V3, dist: int) -> V3 {
    V3 {
        x: fx_div_spec(fx_mul_spec(bound, p.x), dist),
        y: fx_div_spec(fx_mul_spec(bound, p.y), dist),
        z: fx_div_spec(fx_mul_spec(bound, p.z), dist),
    }
}

/// The radial boundary constraint.  With at least one bound set (a
/// non-negative value), the radial distance from the origin is computed
/// once; a position under a positive `min_rad` is rescaled onto the minimum
/// sphere, and independently (against the same precomputed distance) a
/// position over a positive `max_rad` is rescaled onto the maximum sphere.
/// Both can fire in one step only if the bounds are inconsistent.
pub open spec fn clamp_pos(p: V3, min_rad: int, max_rad: int) -> V3 {
    if min_rad >= 0 || max_rad >= 0 {
        let dist = fx_sqrt_spec(norm2_spec(p));
        let p1 = if min_rad > 0 && dist < min_rad {
            rescaled(min_rad, p, dist)
        } else {
            p
        };
        if max_rad > 0 && dist > max_rad {
            rescaled(max_rad, p1, dist)
        } else {
            p1
        }
    } else {
        p
    }
}

/// Body `b` after the position phase: non-fixed bodies move to the
/// constrained updated position; fixed bodies are untouched.
pub open spec fn verlet_pos_body(b: BodyV, dt: int) -> BodyV {
    if b.fixed {
        b
    } else {
        BodyV { r: clamp_pos(pos_updated(b, dt), b.min_rad, b.max_rad), ..b }
    }
}

/// The simulation after the position phase.
pub open spec fn verlet_pos_phase(s: SimV) -> SimV {
    SimV {
        bodies: Seq::new(s.bodies.len(), |i: int| verlet_pos_body(s.bodies[i], s.dt)),
        ..s
    }
}

/// Body `b` after the velocity phase: `v += (1/2)*dt*(a + a_next)`, then
/// the scratch acceleration becomes current.  Fixed bodies are untouched.
pub open spec fn verlet_vel_body(b: BodyV, dt: int) -> BodyV {
    if b.fixed {
        b
    } else {
        BodyV {
            v: V3 {
                x: fx_add_spec(
                    b.v.x,
                    fx_mul_spec(fx_mul_spec(FX_HALF as int, dt), fx_add_spec(b.a.x, b.a_next.x)),
                ),
                y: fx_add_spec(
                    b.v.y,
                    fx_mul_spec(fx_mul_spec(FX_HALF as int, dt), fx_add_spec(b.a.y, b.a_next.y)),
                ),
                z: fx_add_spec(
                    b.v.z,
                    fx_mul_spec(fx_mul_spec(FX_HALF as int, dt), fx_add_spec(b.a.z, b.a_next.z)),
                ),
            },
            a: b.a_next,
            ..b
        }
    }
}

/// The simulation after the velocity phase.
pub open spec fn verlet_vel_phase(s: SimV) -> SimV {
    SimV {
        bodies: Seq::new(s.bodies.len(), |i: int| verlet_vel_body(s.bodies[i], s.dt)),
        ..s
    }
}

/// The one-time initialisation: the acceleration of every non-fixed body at
/// the initial positions.
pub open spec fn verlet_init_spec(s: SimV) -> SimV {
    with_accels(s, false)
}

/// One full Verlet step: position update and constraint, force evaluation
/// at the new positions into the scratch field, velocity update.
pub open spec fn verlet_step_spec(s: SimV) -> SimV {
    verlet_vel_phase(with_accels(verlet_pos_phase(s), true))
}

/// Position phase for one body.
fn step_pos_body(b: &mut Body, dt: i64)
    ensures
        final(b)@ == verlet_pos_body(old(b)@, dt as int),
{
    if b.fixed {
        return ;
    }
    let mut px = fx_add(
        fx_add(b.r.x, fx_mul(b.v.x, dt)),
        fx_mul(fx_mul(fx_mul(b.a.x, dt), dt), FX_HALF),
    );
    let mut py = fx_add(
        fx_add(b.r.y, fx_mul(b.v.y, dt)),
        fx_mul(fx_mul(fx_mul(b.a.y, dt), dt), FX_HALF),
    );
    let mut pz = fx_add(
        fx_add(b.r.z, fx_mul(b.v.z, dt)),
        fx_mul(fx_mul(fx_mul(b.a.z, dt), dt), FX_HALF),
    );
    let ghost unconstrained: V3 = (V3 { x: px as int, y: py as int, z: pz as int });
    let mut dist: i64 = 0;
    if b.min_rad >= 0 || b.max_rad >= 0 {
        let d2 = fx_add(fx_add(fx_mul(px, px), fx_mul(py, py)), fx_mul(pz, pz));
        dist = fx_sqrt(d2);
    }
    if b.min_rad > 0 && dist < b.min_rad {
        px = fx_div(fx_mul(b.min_rad, px), dist);
        py = fx_div(fx_mul(b.min_rad, py), dist);
        pz = fx_div(fx_mul(b.min_rad, pz), dist);
        proof {
            assert((V3 { x: px as int, y: py as int, z: pz as int }) == rescaled(
                old(b)@.min_rad,
                unconstrained,
                dist as int,
            ));
        }
    }
    if b.max_rad > 0 && dist > b.max_rad {
        px = fx_div(fx_mul(b.max_rad, px), dist);
        py = fx_div(fx_mul(b.max_rad, py), dist);
        pz = fx_div(fx_mul(b.max_rad, pz), dist);
    }
    b.r = Vec3 { x: px, y: py, z: pz };
    proof {
        assert(final(b)@ =~= verlet_pos_body(old(b)@, dt as int));
    }
}

/// Velocity phase for one body.
fn step_vel_body(b: &mut Body, dt: i64)
    ensures
        final(b)@ == verlet_vel_body(old(b)@, dt as int),
{
    if b.fixed {
        return ;
    }
    let half_dt = fx_mul(FX_HALF, dt);
    b.v = Vec3 {
        x: fx_add(b.v.x, fx_mul(half_dt, fx_add(b.a.x, b.a_next.x))),
        y: fx_add(b.v.y, fx_mul(half_dt, fx_add(b.a.y, b.a_next.y))),
        z: fx_add(b.v.z, fx_mul(half_dt, fx_add(b.a.z, b.a_next.z))),
    };
    b.a = b.a_next;
    proof {
        assert(final(b)@ =~= verlet_vel_body(old(b)@, dt as int));
    }
}

/// Evaluate the acceleration of every non-fixed body at the initial
/// positions, so that the first step starts from a current acceleration.
pub fn verlet_init(sim: &mut Simulation)
    ensures
        final(sim)@ == verlet_init_spec(old(sim)@),
{
    eval_forces(sim, false);
}

/// Advance the simulation by one Verlet step.
pub fn verlet_next(sim: &mut Simulation)
    ensures
        final(sim)@ == verlet_step_spec(old(sim)@),
{
    let n = sim.bodies.len();
    let dt = sim.dt;
    let ghost orig: SimV = sim@;
    let mut i: usize = 0;
    while i < n
        invariant
            i <= n,
            n == orig.bodies.len(),
            dt as int == orig.dt,
            sim@.bodies.len() == n as int,
            sim@.g == orig.g,
            sim@.dt == orig.dt,
            forall|k: int| i as int <= k < n as int ==> sim@.bodies[k] == orig.bodies[k],
            forall|k: int|
                0 <= k < i as int ==> sim@.bodies[k] == verlet_pos_body(orig.bodies[k], orig.dt),
        decreases n - i,
    {
        let ghost prev: Seq<Body> = sim.bodies@;
        let ghost prevv: SimV = sim@;
        let b = &mut sim.bodies[i];
        step_pos_body(b, dt);
        proof {
            assert(sim.bodies@ =~= prev.update(i as int, sim.bodies@[i as int]));
            assert(sim@.bodies[i as int] == verlet_pos_body(orig.bodies[i as int], orig.dt));
            assert forall|k: int| 0 <= k < i as int + 1 implies sim@.bodies[k] == verlet_pos_body(
                orig.bodies[k],
                orig.dt,
            ) by {
                if k < i as int {
                    assert(prevv.bodies[k] == prev[k]@);
                    assert(sim.bodies@[k] == prev[k]);
                    assert(sim@.bodies[k] == sim.bodies@[k]@);
                }
            }
            assert forall|k: int| i as int + 1 <= k < n as int implies sim@.bodies[k]
                == orig.bodies[k] by {
                assert(prevv.bodies[k] == prev[k]@);
                assert(sim.bodies@[k] == prev[k]);
                assert(sim@.bodies[k] == sim.bodies@[k]@);
            }
        }
        i = i + 1;
    }
    proof {
        assert(sim@.bodies =~= verlet_pos_phase(orig).bodies);
        assert(sim@ =~= verlet_pos_phase(orig));
    }
    eval_forces(sim, true);
    let ghost mid: SimV = sim@;
    let mut i: usize = 0;
    while i < n
        invariant
            i <= n,
            n == mid.bodies.len(),
            dt as int == mid.dt,
            sim@.bodies.len() == n as int,
            sim@.g == mid.g,
            sim@.dt == mid.dt,
            forall|k: int| i as int <= k < n as int ==> sim@.bodies[k] == mid.bodies[k],
            forall|k: int|
                0 <= k < i as int ==> sim@.bodies[k] == verlet_vel_body(mid.bodies[k], mid.dt),
        decreases n - i,
    {
        let ghost prev: Seq<Body> = sim.bodies@;
        let ghost prevv: SimV = sim@;
        let b = &mut sim.bodies[i];
        step_vel_body(b, dt);
        proof {
            assert(sim.bodies@ =~= prev.update(i as int, sim.bodies@[i as int]));
            assert(sim@.bodies[i as int] == verlet_vel_body(mid.bodies[i as int], mid.dt));
            assert forall|k: int| 0 <= k < i as int + 1 implies sim@.bodies[k] == verlet_vel_body(
                mid.bodies[k],
                mid.dt,
            ) by {
                if k < i as int {
                    assert(prevv.bodies[k] == prev[k]@);
                    assert(sim.bodies@[k] == prev[k]);
                    assert(sim@.bodies[k] == sim.bodies@[k]@);
                }
            }
            assert forall|k: int| i as int + 1 <= k < n as int implies sim@.bodies[k]
                == mid.bodies[k] by {
                assert(prevv.bodies[k] == prev[k]@);
                assert(sim.bodies@[k] == prev[k]);
                assert(sim@.bodies[k] == sim.bodies@[k]@);
            }
        }
        i = i + 1;
    }
    proof {
        assert(sim@.bodies =~= verlet_vel_phase(mid).bodies);
        assert(sim@ =~= verlet_vel_phase(mid));
    }
}

/// Boundary invariant, the untouched part: the radial constraint moves no
/// body whose bounds are unset.
pub proof fn lemma_clamp_pos_unset(p: V3, min_rad: int, max_rad: int)
    requires
        min_rad < 0,
        max_rad < 0,
    ensures
        clamp_pos(p, min_rad, max_rad) == p,
{
}

/// Boundary invariant, the untouched part: the radial constraint moves no
/// body whose computed radial distance already lies within its bounds.
pub proof fn lemma_clamp_pos_within(p: V3, min_rad: int, max_rad: int)
    requires
        min_rad <= 0 || fx_sqrt_spec(norm2_spec(p)) >= min_rad,
        max_rad <= 0 || fx_sqrt_spec(norm2_spec(p)) <= max_rad,
    ensures
        clamp_pos(p, min_rad, max_rad) == p,
{
}

/// Fixed-body invariant, one step: a body with `fixed` set is completely
/// untouched by a Verlet step (and by the initialisation).
pub proof fn lemma_verlet_step_fixed(s: SimV, i: int)
    requires
        0 <= i < s.bodies.len(),
        s.bodies[i].fixed,
    ensures
        verlet_step_spec(s).bodies[i] == s.bodies[i],
        verlet_init_spec(s).bodies[i] == s.bodies[i],
{
    assert(verlet_pos_phase(s).bodies[i] == s.bodies[i]);
    assert(with_accels(verlet_pos_phase(s), true).bodies[i] == s.bodies[i]);
    assert(verlet_step_spec(s).bodies[i] == s.bodies[i]);
    assert(verlet_init_spec(s).bodies[i] == s.bodies[i]);
}

/// The simulation after `n` Verlet steps.
pub open spec fn verlet_iter(s: SimV, n: nat) -> SimV
    decreases n,
{
    if n == 0 {
        s
    } else {
        verlet_step_spec(verlet_iter(s, (n - 1) as nat))
    }
}

/// Fixed-body invariant, whole run: for every body with `fixed` set, the
/// position and velocity after initialisation followed by any number of
/// Verlet steps equal the initial values exactly.
pub proof fn lemma_verlet_run_fixed(s: SimV, n: nat, i: int)
    requires
        0 <= i < s.bodies.len(),
        s.bodies[i].fixed,
    ensures
        verlet_iter(verlet_init_spec(s), n).bodies.len() == s.bodies.len(),
        verlet_iter(verlet_init_spec(s), n).bodies[i] == s.bodies[i],
    decreases n,
{
    lemma_verlet_step_fixed(s, i);
    if n == 0 {
    } else {
        lemma_verlet_run_fixed(s, (n - 1) as nat, i);
        lemma_verlet_step_fixed(verlet_iter(verlet_init_spec(s), (n - 1) as nat), i);
    }
}

} // verus!
