//! The configuration loader.
//!
//! [`load`] turns the bytes of a text resource into a populated
//! [`Simulation`]: gravitational constant from line 1, body count `N` from
//! line 2, then body records until `N` bodies have been collected or the
//! lines run out, then optional visualization-metadata records.  A
//! malformed body or metadata record is silently dropped; a malformed
//! header is a fatal [`LoadError`].  A metadata record whose body index is
//! out of range is ignored like a malformed one.

use vstd::prelude::*;
use crate::fx::FX_UNSET;
use crate::model::{Body, BodyV, SimV, Simulation, V3, Vec3};
use crate::parse::{parse_body_real, parse_count, parse_count_spec, parse_real_spec, split_lines,
    tokenize, tokens_of, views_of};

verus! {

/// A fatal loading failure: the header could not be read.
#[derive(Clone, Copy, PartialEq, Eq, Structural, Debug)]
pub enum LoadError {
    /// The gravitational-constant line is missing.
    MissingGravity,
    /// The gravitational-constant line is not a real literal.
    InvalidGravity,
    /// The body-count line is missing.
    MissingCount,
    /// The body-count line is not a non-negative integer.
    InvalidCount,
}

/// The color a body record starts with, before any metadata is applied.
pub open spec fn default_color() -> Seq<u8> {
    seq![48u8, 48u8, 48u8, 48u8, 48u8, 48u8]
}

/// The body a well-formed body record describes: name, position, velocity
/// and mass from the record's eight fields, everything else defaulted.  A
/// record of any other shape describes nothing.
pub open spec fn parse_body_line(line: Seq<u8>) -> Option<BodyV> {
    let toks = tokens_of(line);
    if toks.len() != 8 {
        None
    } else {
        match (
            parse_real_spec(toks[1]),
            parse_real_spec(toks[2]),
            parse_real_spec(toks[3]),
            parse_real_spec(toks[4]),
            parse_real_spec(toks[5]),
            parse_real_spec(toks[6]),
            parse_real_spec(toks[7]),
        ) {
            (Some(r0), Some(r1), Some(r2), Some(v0), Some(v1), Some(v2), Some(m)) => Some(
                BodyV {
                    name: toks[0],
                    color: default_color(),
                    rad: FX_UNSET as int,
                    r: V3 { x: r0, y: r1, z: r2 },
                    v: V3 { x: v0, y: v1, z: v2 },
                    a: V3::zero(),
                    a_next: V3::zero(),
                    m: m,
                    min_rad: FX_UNSET as int,
                    max_rad: FX_UNSET as int,
                    fixed: false,
                },
            ),
            _ => None,
        }
    }
}

/// Parse one body record.
pub fn parse_body(line: &Vec<u8>) -> (r: Option<Body>)
    ensures
        match r {
            Some(b) => parse_body_line(line@) == Some(b@),
            None => parse_body_line(line@) is None,
        },
{
    let mut toks = tokenize(line);
    if toks.len() != 8 {
        return None;
    }
    let r0 = match parse_body_real(&toks, 1) {
        Some(v) => v,
        None => {
            return None;
        },
    };
    let r1 = match parse_body_real(&toks, 2) {
        Some(v) => v,
        None => {
            return None;
        },
    };
    let r2 = match parse_body_real(&toks, 3) {
        Some(v) => v,
        None => {
            return None;
        },
    };
    let v0 = match parse_body_real(&toks, 4) {
        Some(v) => v,
        None => {
            return None;
        },
    };
    let v1 = match parse_body_real(&toks, 5) {
        Some(v) => v,
        None => {
            return None;
        },
    };
    let v2 = match parse_body_real(&toks, 6) {
        Some(v) => v,
        None => {
            return None;
        },
    };
    let m = match parse_body_real(&toks, 7) {
        Some(v) => v,
        None => {
            return None;
        },
    };
    let name = toks.swap_remove(0);
    let mut color: Vec<u8> = Vec::new();
    color.push(48);
    color.push(48);
    color.push(48);
    color.push(48);
    color.push(48);
    color.push(48);
    proof {
        assert(color@ =~= default_color());
        assert(name@ == tokens_of(line@)[0]);
    }
    let b = Body {
        name,
        color,
        rad: FX_UNSET,
        r: Vec3 { x: r0, y: r1, z: r2 },
        v: Vec3 { x: v0, y: v1, z: v2 },
        a: Vec3::zero(),
        a_next: Vec3::zero(),
        m,
        min_rad: FX_UNSET,
        max_rad: FX_UNSET,
        fixed: false,
    };
    proof {
        assert(parse_body_line(line@).unwrap() =~= b@);
    }
    Some(b)
}

/// Mathematical view of a metadata record.
#[verifier::ext_equal]
pub ghost struct MetaV {
    pub idx: int,
    pub color: Seq<u8>,
    pub min_rad: int,
    pub max_rad: int,
    pub rad: int,
}

/// One visualization-metadata record: the body index it applies to, a
/// color, the two radial bounds and the display radius.
pub struct MetaLine {
    pub idx: usize,
    pub color: Vec<u8>,
    pub min_rad: i64,
    pub max_rad: i64,
    pub rad: i64,
}

impl View for MetaLine {
    type V = MetaV;

    open spec fn view(&self) -> MetaV {
        MetaV {
            idx: self.idx as int,
            color: self.color@,
            min_rad: self.min_rad as int,
            max_rad: self.max_rad as int,
            rad: self.rad as int,
        }
    }
}

/// The metadata a well-formed metadata record carries: index, color and
/// three reals from the record's five fields.  A record of any other shape
/// carries nothing.
pub open spec fn parse_meta_line(line: Seq<u8>) -> Option<MetaV> {
    let toks = tokens_of(line);
    if toks.len() != 5 {
        None
    } else {
        match (
            parse_count_spec(toks[0]),
            parse_real_spec(toks[2]),
            parse_real_spec(toks[3]),
            parse_real_spec(toks[4]),
        ) {
            (Some(ix), Some(mn), Some(mx), Some(rd)) => Some(
                MetaV { idx: ix, color: toks[1], min_rad: mn, max_rad: mx, rad: rd },
            ),
            _ => None,
        }
    }
}

/// Parse one metadata record.
pub fn parse_meta(line: &Vec<u8>) -> (r: Option<MetaLine>)
    ensures
        match r {
            Some(mv) => parse_meta_line(line@) == Some(mv@),
            None => parse_meta_line(line@) is None,
        },
{
    let mut toks = tokenize(line);
    if toks.len() != 5 {
        return None;
    }
    let ix = match parse_count(&toks[0]) {
        Some(v) => v,
        None => {
            return None;
        },
    };
    let mn = match parse_body_real(&toks, 2) {
        Some(v) => v,
        None => {
            return None;
        },
    };
    let mx = match parse_body_real(&toks, 3) {
        Some(v) => v,
        None => {
            return None;
        },
    };
    let rd = match parse_body_real(&toks, 4) {
        Some(v) => v,
        None => {
            return None;
        },
    };
    let color = toks.swap_remove(1);
    proof {
        assert(color@ == tokens_of(line@)[1]);
    }
    let mv = MetaLine { idx: ix, color, min_rad: mn, max_rad: mx, rad: rd };
    proof {
        assert(parse_meta_line(line@).unwrap() =~= mv@);
    }
    Some(mv)
}

/// The views of a sequence of bodies.
pub open spec fn body_views(bs: Seq<Body>) -> Seq<BodyV> {
    bs.map_values(|b: Body| b@)
}

/// Collect bodies from the records at and after line `i` until `need`
/// bodies have been found or the lines run out; well-formed records are
/// kept in line order, malformed ones dropped.  Yields the bodies and the
/// index of the first unconsumed line.
pub open spec fn collect_bodies(lines: Seq<Seq<u8>>, i: int, need: int) -> (Seq<BodyV>, int)
    decreases lines.len() - i,
    when 0 <= i
{
    if i >= lines.len() || need <= 0 {
        (Seq::empty(), i)
    } else {
        match parse_body_line(lines[i]) {
            Some(b) => {
                let rest = collect_bodies(lines, i + 1, need - 1);
                (seq![b] + rest.0, rest.1)
            },
            None => collect_bodies(lines, i + 1, need),
        }
    }
}

/// One metadata record applied to the bodies: a well-formed record with an
/// in-range index updates that body's color, radial bounds and display
/// radius; anything else changes nothing.
pub open spec fn apply_meta_line(bodies: Seq<BodyV>, line: Seq<u8>) -> Seq<BodyV> {
    match parse_meta_line(line) {
        Some(mv) => if 0 <= mv.idx < bodies.len() {
            bodies.update(
                mv.idx,
                BodyV {
                    color: mv.color,
                    min_rad: mv.min_rad,
                    max_rad: mv.max_rad,
                    rad: mv.rad,
                    ..bodies[mv.idx]
                },
            )
        } else {
            bodies
        },
        None => bodies,
    }
}

/// All metadata records at and after line `i`, applied in order.
pub open spec fn apply_meta(bodies: Seq<BodyV>, lines: Seq<Seq<u8>>, i: int) -> Seq<BodyV>
    decreases lines.len() - i,
    when 0 <= i
{
    if i >= lines.len() {
        bodies
    } else {
        apply_meta(apply_meta_line(bodies, lines[i]), lines, i + 1)
    }
}

/// What loading a text yields: the simulation with the gravitational
/// constant of line 1, the bodies collected against the count of line 2
/// with the remaining metadata records applied, and the given time step —
/// or the fatal error the header owes.
pub open spec fn load_spec(text: Seq<u8>, dt: int) -> Result<SimV, LoadError> {
    let lines = crate::parse::split_lines_spec(text);
    if lines.len() < 1 {
        Err(LoadError::MissingGravity)
    } else {
        match parse_real_spec(lines[0]) {
            None => Err(LoadError::InvalidGravity),
            Some(g) => {
                if lines.len() < 2 {
                    Err(LoadError::MissingCount)
                } else {
                    match parse_count_spec(lines[1]) {
                        None => Err(LoadError::InvalidCount),
                        Some(n) => {
                            let col = collect_bodies(lines, 2, n);
                            Ok(SimV { bodies: apply_meta(col.0, lines, col.1), g: g, dt: dt })
                        },
                    }
                }
            },
        }
    }
}

/// Load a simulation from the bytes of a text resource, with the given
/// time step.
pub fn load(text: &Vec<u8>, dt: i64) -> (r: Result<Simulation, LoadError>)
    ensures
        match r {
            Ok(sim) => load_spec(text@, dt as int) == Ok::<SimV, LoadError>(sim@),
            Err(e) => load_spec(text@, dt as int) == Err::<SimV, LoadError>(e),
        },
{
    let lines = split_lines(text);
    let ghost lv: Seq<Seq<u8>> = views_of(lines@);
    if lines.len() == 0 {
        return Err(LoadError::MissingGravity);
    }
    let g = match crate::parse::parse_real(&lines[0]) {
        Some(g) => g,
        None => {
            return Err(LoadError::InvalidGravity);
        },
    };
    if lines.len() == 1 {
        return Err(LoadError::MissingCount);
    }
    let need = match parse_count(&lines[1]) {
        Some(n) => n,
        None => {
            return Err(LoadError::InvalidCount);
        },
    };
    let ghost full: (Seq<BodyV>, int) = collect_bodies(lv, 2, need as int);
    let nlines = lines.len();
    let mut bodies: Vec<Body> = Vec::new();
    let mut i: usize = 2;
    while i < nlines && bodies.len() < need
        invariant
            2 <= i <= nlines,
            nlines == lv.len(),
            lv == views_of(lines@),
            nlines == lines@.len(),
            bodies@.len() <= need as int,
            full == collect_bodies(lv, 2, need as int),
            full.0 == body_views(bodies@) + collect_bodies(
                lv,
                i as int,
                need as int - bodies@.len(),
            ).0,
            full.1 == collect_bodies(lv, i as int, need as int - bodies@.len()).1,
        decreases nlines - i,
    {
        let ghost rem: int = need as int - bodies@.len();
        proof {
            assert(lv[i as int] == lines@[i as int]@);
        }
        match parse_body(&lines[i]) {
            Some(b) => {
                let ghost prev: Seq<BodyV> = body_views(bodies@);
                bodies.push(b);
                proof {
                    assert(body_views(bodies@) =~= prev.push(b@));
                    let rest = collect_bodies(lv, i as int + 1, rem - 1);
                    assert(collect_bodies(lv, i as int, rem).0 == seq![b@] + rest.0);
                    assert(prev + (seq![b@] + rest.0) =~= prev.push(b@) + rest.0);
                }
            },
            None => {
                proof {
                    assert(collect_bodies(lv, i as int, rem) == collect_bodies(
                        lv,
                        i as int + 1,
                        rem,
                    ));
                }
            },
        }
        i = i + 1;
    }
    proof {
        assert(collect_bodies(lv, i as int, need as int - bodies@.len()) == (
            Seq::<BodyV>::empty(),
            i as int,
        ));
        assert(body_views(bodies@) + Seq::<BodyV>::empty() =~= body_views(bodies@));
        assert(full.0 == body_views(bodies@));
        assert(full.1 == i as int);
    }
    while i < nlines
        invariant
            i <= nlines,
            nlines == lv.len(),
            lv == views_of(lines@),
            nlines == lines@.len(),
            apply_meta(body_views(bodies@), lv, i as int) == apply_meta(full.0, lv, full.1),
        decreases nlines - i,
    {
        proof {
            assert(lv[i as int] == lines@[i as int]@);
        }
        let ghost cur: Seq<BodyV> = body_views(bodies@);
        match parse_meta(&lines[i]) {
            Some(mv) => {
                if mv.idx < bodies.len() {
                    let ghost prev: Seq<Body> = bodies@;
                    let idx = mv.idx;
                    let b = &mut bodies[idx];
                    b.color = mv.color;
                    b.min_rad = mv.min_rad;
                    b.max_rad = mv.max_rad;
                    b.rad = mv.rad;
                    proof {
                        assert(bodies@ =~= prev.update(idx as int, bodies@[idx as int]));
                        assert(body_views(bodies@) =~= apply_meta_line(cur, lv[i as int]));
                    }
                } else {
                    proof {
                        assert(body_views(bodies@) =~= apply_meta_line(cur, lv[i as int]));
                    }
                }
            },
            None => {
                proof {
                    assert(body_views(bodies@) =~= apply_meta_line(cur, lv[i as int]));
                }
            },
        }
        i = i + 1;
    }
    proof {
        assert(apply_meta(body_views(bodies@), lv, i as int) == body_views(bodies@));
    }
    let sim = Simulation { bodies, g, dt };
    proof {
        assert(sim@.bodies == body_views(sim.bodies@));
        assert(load_spec(text@, dt as int) == Ok::<SimV, LoadError>(sim@));
    }
    Ok(sim)
}

} // verus!
