//! The explicit (symplectic, semi-implicit) Euler integrator.
//!
//! One step evaluates the acceleration of every non-fixed body at the
//! current positions, then updates velocity before position, so the
//! position update uses the new velocity — the semi-implicit variant, which
//! is more stable over long runs than naive Euler.
//!
//! A deliberate design choice, pinned by a test: the update covers every
//! non-fixed body of the sequence, not merely a fixed-length prefix of it.

use vstd::prelude::*;
use crate::fx::{fx_add, fx_add_spec, fx_mul, fx_mul_spec};
use crate::force::{eval_forces, with_accels};
use crate::model::{Body, BodyV, SimV, Simulation, V3, Vec3};

verus! {

/// Body `b` after the Euler update: `v += dt*a`, then `r += dt*v` with the
/// new velocity.  Fixed bodies are untouched.
pub open spec fn euler_update_body(b: BodyV, dt: int) -> BodyV {
    if b.fixed {
        b
    } else {
        let v = V3 {
            x: fx_add_spec(b.v.x, fx_mul_spec(dt, b.a.x)),
            y: fx_add_spec(b.v.y, fx_mul_spec(dt, b.a.y)),
            z: fx_add_spec(b.v.z, fx_mul_spec(dt, b.a.z)),
        };
        let r = V3 {
            x: fx_add_spec(b.r.x, fx_mul_spec(dt, v.x)),
            y: fx_add_spec(b.r.y, fx_mul_spec(dt, v.y)),
            z: fx_add_spec(b.r.z, fx_mul_spec(dt, v.z)),
        };
        BodyV { r, v, ..b }
    }
}

/// One full Euler step: force evaluation at the current positions, then the
/// velocity-first update of every non-fixed body.
pub open spec fn euler_step_spec(s: SimV) -> SimV {
    let s1 = with_accels(s, false);
    SimV {
        bodies: Seq::new(s1.bodies.len(), |i: int| euler_update_body(s1.bodies[i], s1.dt)),
        ..s1
    }
}

/// Euler update for one body.
fn step_euler_body(b: &mut Body, dt: i64)
    ensures
        final(b)@ == euler_update_body(old(b)@, dt as int),
{
    if b.fixed {
        return ;
    }
    b.v = Vec3 {
        x: fx_add(b.v.x, fx_mul(dt, b.a.x)),
        y: fx_add(b.v.y, fx_mul(dt, b.a.y)),
        z: fx_add(b.v.z, fx_mul(dt, b.a.z)),
    };
    b.r = Vec3 {
        x: fx_add(b.r.x, fx_mul(dt, b.v.x)),
        y: fx_add(b.r.y, fx_mul(dt, b.v.y)),
        z: fx_add(b.r.z, fx_mul(dt, b.v.z)),
    };
    proof {
        assert(final(b)@ =~= euler_update_body(old(b)@, dt as int));
    }
}

/// Advance the simulation by one semi-implicit Euler step.
pub fn euler_next(sim: &mut Simulation)
    ensures
        final(sim)@ == euler_step_spec(old(sim)@),
{
    eval_forces(sim, false);
    let n = sim.bodies.len();
    let dt = sim.dt;
    let ghost mid: SimV = sim@;
    let mut i: usize = 0;
    while i < n
        invariant
            i <= n,
            n == mid.bodies.len(),
            dt as int == mid.dt,
            sim@.bodies.len() == n as int,
            sim@.g == mid.g,
            sim@.dt == mid.dt,
            forall|k: int| i as int <= k < n as int ==> sim@.bodies[k] == mid.bodies[k],
            forall|k: int|
                0 <= k < i as int ==> sim@.bodies[k] == euler_update_body(mid.bodies[k], mid.dt),
        decreases n - i,
    {
        let ghost prev: Seq<Body> = sim.bodies@;
        let ghost prevv: SimV = sim@;
        let b = &mut sim.bodies[i];
        step_euler_body(b, dt);
        proof {
            assert(sim.bodies@ =~= prev.update(i as int, sim.bodies@[i as int]));
            assert(sim@.bodies[i as int] == euler_update_body(mid.bodies[i as int], mid.dt));
            assert forall|k: int| 0 <= k < i as int + 1 implies sim@.bodies[k] == euler_update_body(
                mid.bodies[k],
                mid.dt,
            ) by {
                if k < i as int {
                    assert(prevv.bodies[k] == prev[k]@);
                    assert(sim.bodies@[k] == prev[k]);
                    assert(sim@.bodies[k] == sim.bodies@[k]@);
                }
            }
            assert forall|k: int| i as int + 1 <= k < n as int implies sim@.bodies[k]
                == mid.bodies[k] by {
                assert(prevv.bodies[k] == prev[k]@);
                assert(sim.bodies@[k] == prev[k]);
                assert(sim@.bodies[k] == sim.bodies@[k]@);
            }
        }
        i = i + 1;
    }
    proof {
        assert(mid == with_accels(old(sim)@, false));
        assert(sim@.bodies =~= euler_step_spec(old(sim)@).bodies);
        assert(sim@ =~= euler_step_spec(old(sim)@));
    }
}

/// Fixed-body invariant, one step: a body with `fixed` set is completely
/// untouched by an Euler step.
pub proof fn lemma_euler_step_fixed(s: SimV, i: int)
    requires
        0 <= i < s.bodies.len(),
        s.bodies[i].fixed,
    ensures
        euler_step_spec(s).bodies[i] == s.bodies[i],
{
    assert(with_accels(s, false).bodies[i] == s.bodies[i]);
}

/// The simulation after `n` Euler steps.
pub open spec fn euler_iter(s: SimV, n: nat) -> SimV
    decreases n,
{
    if n == 0 {
        s
    } else {
        euler_step_spec(euler_iter(s, (n - 1) as nat))
    }
}

/// Fixed-body invariant, whole run: for every body with `fixed` set, the
/// position and velocity after any number of Euler steps equal the initial
/// values exactly.
pub proof fn lemma_euler_run_fixed(s: SimV, n: nat, i: int)
    requires
        0 <= i < s.bodies.len(),
        s.bodies[i].fixed,
    ensures
        euler_iter(s, n).bodies.len() == s.bodies.len(),
        euler_iter(s, n).bodies[i] == s.bodies[i],
    decreases n,
{
    if n == 0 {
    } else {
        lemma_euler_run_fixed(s, (n - 1) as nat, i);
        lemma_euler_step_fixed(euler_iter(s, (n - 1) as nat), i);
    }
}

} // verus!
