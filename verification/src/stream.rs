//! The trajectory streamer.
//!
//! A run emits one column-label line (`t`, then six labels per body), one
//! `#`-prefixed comment line per body carrying name, mass, color and
//! display radius, one sample line at time 0, and one sample line after
//! every completed step until the accumulated time reaches the requested
//! duration.  A sample line is the time followed by three position and
//! three velocity components per body, space-separated.
//!
//! [`Runner`] hands the lines out one at a time so that a caller can
//! flush each line to its sink as soon as it exists; the decision when the
//! run is over stays here.

use vstd::prelude::*;
use crate::euler::{euler_next, euler_step_spec};
use crate::fmt::{dec_str, fx_str, push_fx, push_uint};
use crate::fx::{fx_add, fx_add_spec};
use crate::model::{Body, BodyV, SimV, Simulation};
use crate::parse::views_of;
use crate::verlet::{verlet_init, verlet_init_spec, verlet_next, verlet_step_spec};

verus! {

/// One column label: the letter, the body index, a comma, the component
/// index, a trailing blank.
pub open spec fn col_label(c: u8, i: int, j: int) -> Seq<u8> {
    seq![c] + dec_str(i) + seq![44u8] + dec_str(j) + seq![32u8]
}

/// The six column labels of body `i`.
pub open spec fn body_cols(i: int) -> Seq<u8> {
    col_label(114, i, 0) + col_label(114, i, 1) + col_label(114, i, 2) + col_label(118, i, 0)
        + col_label(118, i, 1) + col_label(118, i, 2)
}

/// The column-label line for `k` bodies: `t`, then each body's labels.
pub open spec fn header_cols(k: int) -> Seq<u8>
    decreases k,
{
    if k <= 0 {
        seq![116u8, 32u8]
    } else {
        header_cols(k - 1) + body_cols(k - 1)
    }
}

/// The comment line of one body: `# name mass color radius`.
pub open spec fn comment_line(b: BodyV) -> Seq<u8> {
    seq![35u8, 32u8] + b.name + seq![32u8] + fx_str(b.m) + seq![32u8] + b.color + seq![32u8]
        + fx_str(b.rad)
}

/// The comment lines of the first `k` bodies, in order.
pub open spec fn comment_lines(bodies: Seq<BodyV>, k: int) -> Seq<Seq<u8>>
    decreases k,
{
    if k <= 0 {
        Seq::empty()
    } else {
        comment_lines(bodies, k - 1).push(comment_line(bodies[k - 1]))
    }
}

/// Everything a run emits before its first step: the column-label line
/// and one comment line per body.
pub open spec fn header_lines_spec(s: SimV) -> Seq<Seq<u8>> {
    seq![header_cols(s.bodies.len() as int)] + comment_lines(s.bodies, s.bodies.len() as int)
}

/// One body's contribution to a sample line: three position and three
/// velocity components, each followed by a blank.
pub open spec fn body_sample(b: BodyV) -> Seq<u8> {
    fx_str(b.r.x) + seq![32u8] + fx_str(b.r.y) + seq![32u8] + fx_str(b.r.z) + seq![32u8] + fx_str(
        b.v.x,
    ) + seq![32u8] + fx_str(b.v.y) + seq![32u8] + fx_str(b.v.z) + seq![32u8]
}

/// The sample columns of the first `k` bodies.
pub open spec fn sample_cols(bodies: Seq<BodyV>, k: int) -> Seq<u8>
    decreases k,
{
    if k <= 0 {
        Seq::empty()
    } else {
        sample_cols(bodies, k - 1) + body_sample(bodies[k - 1])
    }
}

/// A sample line: the time, a blank, then every body's columns.
pub open spec fn sample_line_spec(s: SimV, t: int) -> Seq<u8> {
    fx_str(t) + seq![32u8] + sample_cols(s.bodies, s.bodies.len() as int)
}

/// Append a copy of `src`.
pub(crate) fn push_bytes(out: &mut Vec<u8>, src: &Vec<u8>)
    ensures
        final(out)@ == old(out)@ + src@,
{
    let n = src.len();
    let mut k: usize = 0;
    proof {
        assert(out@ =~= old(out)@ + src@.take(0));
    }
    while k < n
        invariant
            k <= n,
            n == src@.len(),
            out@ == old(out)@ + src@.take(k as int),
        decreases n - k,
    {
        out.push(src[k]);
        proof {
            assert(src@.take(k as int + 1) =~= src@.take(k as int).push(src@[k as int]));
            assert(old(out)@ + src@.take(k as int).push(src@[k as int]) =~= (old(out)@ + src@.take(
                k as int,
            )).push(src@[k as int]));
        }
        k = k + 1;
    }
    proof {
        assert(src@.take(n as int) =~= src@);
    }
}

/// Append one column label.
fn push_col(out: &mut Vec<u8>, c: u8, i: u64, j: u64)
    ensures
        final(out)@ == old(out)@ + col_label(c, i as int, j as int),
{
    out.push(c);
    push_uint(out, i);
    out.push(44);
    push_uint(out, j);
    out.push(32);
    proof {
        assert(out@ =~= old(out)@ + col_label(c, i as int, j as int));
    }
}

/// Build the column-label line.
pub fn header_line(sim: &Simulation) -> (out: Vec<u8>)
    ensures
        out@ == header_cols(sim@.bodies.len() as int),
{
    let n = sim.bodies.len();
    let mut out: Vec<u8> = Vec::new();
    out.push(116);
    out.push(32);
    proof {
        assert(out@ =~= header_cols(0));
    }
    let mut i: usize = 0;
    while i < n
        invariant
            i <= n,
            n == sim@.bodies.len(),
            out@ == header_cols(i as int),
        decreases n - i,
    {
        let ghost prev: Seq<u8> = out@;
        push_col(&mut out, 114, i as u64, 0);
        push_col(&mut out, 114, i as u64, 1);
        push_col(&mut out, 114, i as u64, 2);
        push_col(&mut out, 118, i as u64, 0);
        push_col(&mut out, 118, i as u64, 1);
        push_col(&mut out, 118, i as u64, 2);
        proof {
            assert(out@ =~= prev + body_cols(i as int));
        }
        i = i + 1;
    }
    out
}

/// Build the comment line of one body.
pub fn comment_line_of(b: &Body) -> (out: Vec<u8>)
    ensures
        out@ == comment_line(b@),
{
    let mut out: Vec<u8> = Vec::new();
    out.push(35);
    out.push(32);
    push_bytes(&mut out, &b.name);
    out.push(32);
    push_fx(&mut out, b.m);
    out.push(32);
    push_bytes(&mut out, &b.color);
    out.push(32);
    push_fx(&mut out, b.rad);
    proof {
        assert(out@ =~= comment_line(b@));
    }
    out
}

/// Append one body's sample columns.
fn push_body_sample(out: &mut Vec<u8>, b: &Body)
    ensures
        final(out)@ == old(out)@ + body_sample(b@),
{
    push_fx(out, b.r.x);
    out.push(32);
    push_fx(out, b.r.y);
    out.push(32);
    push_fx(out, b.r.z);
    out.push(32);
    push_fx(out, b.v.x);
    out.push(32);
    push_fx(out, b.v.y);
    out.push(32);
    push_fx(out, b.v.z);
    out.push(32);
    proof {
        assert(out@ =~= old(out)@ + body_sample(b@));
    }
}

/// Build the sample line of the current state at time `t`.
pub fn sample_line(sim: &Simulation, t: i64) -> (out: Vec<u8>)
    ensures
        out@ == sample_line_spec(sim@, t as int),
{
    let n = sim.bodies.len();
    let mut out: Vec<u8> = Vec::new();
    push_fx(&mut out, t);
    out.push(32);
    proof {
        assert(out@ =~= fx_str(t as int) + seq![32u8] + sample_cols(sim@.bodies, 0));
    }
    let mut i: usize = 0;
    while i < n
        invariant
            i <= n,
            n == sim@.bodies.len(),
            out@ == fx_str(t as int) + seq![32u8] + sample_cols(sim@.bodies, i as int),
        decreases n - i,
    {
        let ghost prev: Seq<u8> = out@;
        push_body_sample(&mut out, &sim.bodies[i]);
        proof {
            assert(sim@.bodies[i as int] == sim.bodies@[i as int]@);
            assert(out@ =~= fx_str(t as int) + seq![32u8] + sample_cols(
                sim@.bodies,
                i as int + 1,
            ));
        }
        i = i + 1;
    }
    out
}

/// Build the comment lines of all bodies.
pub fn comment_lines_of(sim: &Simulation) -> (out: Vec<Vec<u8>>)
    ensures
        views_of(out@) == comment_lines(sim@.bodies, sim@.bodies.len() as int),
{
    let n = sim.bodies.len();
    let mut out: Vec<Vec<u8>> = Vec::new();
    let mut i: usize = 0;
    proof {
        assert(views_of(out@) =~= comment_lines(sim@.bodies, 0));
    }
    while i < n
        invariant
            i <= n,
            n == sim@.bodies.len(),
            views_of(out@) == comment_lines(sim@.bodies, i as int),
        decreases n - i,
    {
        let ghost prev: Seq<Seq<u8>> = views_of(out@);
        let line = comment_line_of(&sim.bodies[i]);
        out.push(line);
        proof {
            assert(sim@.bodies[i as int] == sim.bodies@[i as int]@);
            assert(views_of(out@) =~= prev.push(line@));
        }
        i = i + 1;
    }
    out
}

/// The two interchangeable stepping policies.
#[derive(Clone, Copy, PartialEq, Eq, Structural, Debug)]
pub enum Method {
    /// Semi-implicit Euler.
    Euler,
    /// Velocity Verlet, with the radial boundary constraint.
    Verlet,
}

/// One trajectory run in progress: the simulation, the accumulated time,
/// the requested duration and the stepping policy.
pub struct Runner {
    pub sim: Simulation,
    pub t: i64,
    pub max_time: i64,
    pub method: Method,
}

impl Runner {
    /// Begin a run: yield the column-label line, the comment lines and
    /// the time-0 sample, and perform the Verlet initialisation.
    pub fn start(sim: Simulation, max_time: i64, method: Method) -> (r: (Runner, Vec<Vec<u8>>))
        ensures
            r.0.sim@ == (if method is Verlet {
                verlet_init_spec(sim@)
            } else {
                sim@
            }),
            r.0.t == 0,
            r.0.max_time == max_time,
            r.0.method == method,
            views_of(r.1@) == header_lines_spec(sim@).push(sample_line_spec(sim@, 0)),
    {
        let mut lines: Vec<Vec<u8>> = Vec::new();
        let first = header_line(&sim);
        lines.push(first);
        let mut comments = comment_lines_of(&sim);
        let ghost after_first: Seq<Seq<u8>> = views_of(lines@);
        let ghost comm: Seq<Seq<u8>> = views_of(comments@);
        lines.append(&mut comments);
        proof {
            assert(views_of(lines@) =~= after_first + comm);
        }
        let sample = sample_line(&sim, 0);
        lines.push(sample);
        proof {
            assert(views_of(lines@) =~= header_lines_spec(sim@).push(sample_line_spec(sim@, 0)));
        }
        let mut sim = sim;
        if matches!(method, Method::Verlet) {
            verlet_init(&mut sim);
        }
        (Runner { sim, t: 0, max_time, method }, lines)
    }

    /// Advance one step if simulated time remains, and yield the sample
    /// line of the new state; yield nothing once the accumulated time has
    /// reached the duration.
    pub fn step_line(&mut self) -> (r: Option<Vec<u8>>)
        ensures
            old(self).t < old(self).max_time ==> {
                &&& r is Some
                &&& final(self).sim@ == (if old(self).method is Verlet {
                    verlet_step_spec(old(self).sim@)
                } else {
                    euler_step_spec(old(self).sim@)
                })
                &&& final(self).t as int == fx_add_spec(old(self).t as int, old(self).sim@.dt)
                &&& r.unwrap()@ == sample_line_spec(final(self).sim@, final(self).t as int)
                &&& final(self).max_time == old(self).max_time
                &&& final(self).method == old(self).method
            },
            old(self).t >= old(self).max_time ==> r is None && *final(self) == *old(self),
    {
        if self.t >= self.max_time {
            return None;
        }
        match self.method {
            Method::Verlet => verlet_next(&mut self.sim),
            Method::Euler => euler_next(&mut self.sim),
        }
        self.t = fx_add(self.t, self.sim.dt);
        Some(sample_line(&self.sim, self.t))
    }
}

} // verus!
