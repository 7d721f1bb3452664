//! The physical entities and simulation state.
//!
//! A [`Body`] is one simulated point mass; a [`Simulation`] owns an ordered
//! sequence of bodies (the order is also the column order of the trajectory
//! output) together with the gravitational constant and the time step, both
//! fixed for the simulation's lifetime.
//!
//! Every exec type has a mathematical view ([`V3`], [`BodyV`], [`SimV`])
//! over unbounded integers and sequences; all contracts of the force
//! evaluator and the integrators are stated over these views.

use vstd::prelude::*;

verus! {

/// Mathematical view of a 3-component vector of fixed-point scalars.
#[verifier::ext_equal]
pub ghost struct V3 {
    pub x: int,
    pub y: int,
    pub z: int,
}

impl V3 {
    /// The zero vector.
    pub open spec fn zero() -> V3 {
        V3 { x: 0, y: 0, z: 0 }
    }
}

/// A 3-component vector of fixed-point scalars.
#[derive(Clone, Copy, PartialEq, Eq, Structural)]
pub struct Vec3 {
    pub x: i64,
    pub y: i64,
    pub z: i64,
}

impl View for Vec3 {
    type V = V3;

    open spec fn view(&self) -> V3 {
        V3 { x: self.x as int, y: self.y as int, z: self.z as int }
    }
}

impl Vec3 {
    /// The zero vector.
    pub fn zero() -> (r: Vec3)
        ensures
            r@ == V3::zero(),
    {
        Vec3 { x: 0, y: 0, z: 0 }
    }
}

/// Mathematical view of one body.
#[verifier::ext_equal]
pub ghost struct BodyV {
    pub name: Seq<u8>,
    pub color: Seq<u8>,
    pub rad: int,
    pub r: V3,
    pub v: V3,
    pub a: V3,
    pub a_next: V3,
    pub m: int,
    pub min_rad: int,
    pub max_rad: int,
    pub fixed: bool,
}

/// One simulated point mass.
///
/// `a` holds the acceleration at the body's current position at the start of
/// a step; `a_next` is scratch space used by the Verlet integrator for the
/// acceleration at the new position before it replaces `a`.  `rad`,
/// `min_rad` and `max_rad` are optional presentation and constraint
/// metadata; a negative value (conventionally [`crate::fx::FX_UNSET`])
/// means "unset".  A fixed body never has its position or velocity updated
/// but still exerts force on the others.
pub struct Body {
    pub name: Vec<u8>,
    pub color: Vec<u8>,
    pub rad: i64,
    pub r: Vec3,
    pub v: Vec3,
    pub a: Vec3,
    pub a_next: Vec3,
    pub m: i64,
    pub min_rad: i64,
    pub max_rad: i64,
    pub fixed: bool,
}

impl View for Body {
    type V = BodyV;

    open spec fn view(&self) -> BodyV {
        BodyV {
            name: self.name@,
            color: self.color@,
            rad: self.rad as int,
            r: self.r@,
            v: self.v@,
            a: self.a@,
            a_next: self.a_next@,
            m: self.m as int,
            min_rad: self.min_rad as int,
            max_rad: self.max_rad as int,
            fixed: self.fixed,
        }
    }
}

/// Mathematical view of a simulation.
#[verifier::ext_equal]
pub ghost struct SimV {
    pub bodies: Seq<BodyV>,
    pub g: int,
    pub dt: int,
}

/// A whole simulation: an ordered sequence of bodies, the gravitational
/// constant `g` and the time step `dt`.
pub struct Simulation {
    pub bodies: Vec<Body>,
    pub g: i64,
    pub dt: i64,
}

impl View for Simulation {
    type V = SimV;

    open spec fn view(&self) -> SimV {
        SimV {
            bodies: self.bodies@.map_values(|b: Body| b@),
            g: self.g as int,
            dt: self.dt as int,
        }
    }
}

} // verus!
