use nbody::fx::{FX_HALF, FX_ONE, FX_UNSET};
use nbody::loader::{LoadError, load};
use nbody::parse::{parse_count, parse_real};

const DT: i64 = 429496;

#[test]
fn parse_real_plain_values() {
    assert_eq!(parse_real(&b"1".to_vec()), Some(FX_ONE));
    assert_eq!(parse_real(&b"-2.5".to_vec()), Some(-(2 * FX_ONE + FX_HALF)));
    assert_eq!(parse_real(&b"0.5".to_vec()), Some(FX_HALF));
    assert_eq!(parse_real(&b".5".to_vec()), Some(FX_HALF));
    assert_eq!(parse_real(&b"+3.".to_vec()), Some(3 * FX_ONE));
    assert_eq!(parse_real(&b"0".to_vec()), Some(0));
    assert_eq!(parse_real(&b"-0".to_vec()), Some(0));
}

#[test]
fn parse_real_exponents() {
    assert_eq!(parse_real(&b"1e3".to_vec()), Some(1000 * FX_ONE));
    assert_eq!(parse_real(&b"1E-2".to_vec()), Some(42949672));
    assert_eq!(parse_real(&b"2.5e2".to_vec()), Some(250 * FX_ONE));
    assert_eq!(parse_real(&b"1e+2".to_vec()), Some(100 * FX_ONE));
}

#[test]
fn parse_real_saturates() {
    // 2e9 still fits the raw range, 3e9 does not.
    assert_eq!(parse_real(&b"2e9".to_vec()), Some(2000000000 * FX_ONE));
    assert_eq!(parse_real(&b"3e9".to_vec()), Some(i64::MAX));
    assert_eq!(parse_real(&b"-3e9".to_vec()), Some(i64::MIN));
    assert_eq!(parse_real(&b"1e-300".to_vec()), Some(0));
}

#[test]
fn parse_real_rejects_malformed() {
    assert_eq!(parse_real(&b"".to_vec()), None);
    assert_eq!(parse_real(&b"abc".to_vec()), None);
    assert_eq!(parse_real(&b"1.2.3".to_vec()), None);
    assert_eq!(parse_real(&b"1e".to_vec()), None);
    assert_eq!(parse_real(&b"-".to_vec()), None);
    assert_eq!(parse_real(&b".".to_vec()), None);
    assert_eq!(parse_real(&b"1x".to_vec()), None);
    // mantissa longer than eighteen digits is outside the format
    assert_eq!(parse_real(&b"12345678901234567890".to_vec()), None);
    // exponent longer than three digits is outside the format
    assert_eq!(parse_real(&b"1e1234".to_vec()), None);
}

#[test]
fn parse_count_values() {
    assert_eq!(parse_count(&b"5".to_vec()), Some(5));
    assert_eq!(parse_count(&b"+7".to_vec()), Some(7));
    assert_eq!(parse_count(&b"0".to_vec()), Some(0));
    assert_eq!(parse_count(&b"-3".to_vec()), None);
    assert_eq!(parse_count(&b"".to_vec()), None);
    assert_eq!(parse_count(&b"1.5".to_vec()), None);
    assert_eq!(parse_count(&b"99999999999999999999".to_vec()), None);
}

#[test]
fn load_two_bodies() {
    let text = b"1\n2\nA 0 0 0 0 0 0 10\nB 1 0 0 0 1 0 1\n".to_vec();
    let sim = load(&text, DT).unwrap();
    assert_eq!(sim.g, FX_ONE);
    assert_eq!(sim.dt, DT);
    assert_eq!(sim.bodies.len(), 2);
    let a = &sim.bodies[0];
    assert_eq!(a.name, b"A".to_vec());
    assert_eq!((a.r.x, a.r.y, a.r.z), (0, 0, 0));
    assert_eq!((a.v.x, a.v.y, a.v.z), (0, 0, 0));
    assert_eq!(a.m, 10 * FX_ONE);
    assert!(!a.fixed);
    let b = &sim.bodies[1];
    assert_eq!(b.name, b"B".to_vec());
    assert_eq!((b.r.x, b.r.y, b.r.z), (FX_ONE, 0, 0));
    assert_eq!((b.v.x, b.v.y, b.v.z), (0, FX_ONE, 0));
    assert_eq!(b.m, FX_ONE);
    // no metadata applied: bounds and radius stay at the unset sentinel
    assert_eq!(a.min_rad, FX_UNSET);
    assert_eq!(a.max_rad, FX_UNSET);
    assert_eq!(a.rad, FX_UNSET);
    assert_eq!(a.color, b"000000".to_vec());
    assert_eq!(b.min_rad, FX_UNSET);
    assert_eq!(b.max_rad, FX_UNSET);
}

#[test]
fn load_skips_malformed_body_line() {
    let text = b"1\n2\nA 0 0 0 0 0 0 10\nJUNK LINE\nB 1 0 0 0 1 0 1\n".to_vec();
    let sim = load(&text, DT).unwrap();
    assert_eq!(sim.bodies.len(), 2);
    assert_eq!(sim.bodies[0].name, b"A".to_vec());
    assert_eq!(sim.bodies[1].name, b"B".to_vec());
}

#[test]
fn load_stops_at_count() {
    // the third well-formed record is beyond N = 2 and is not a body
    let text = b"1\n2\nA 0 0 0 0 0 0 1\nB 1 0 0 0 0 0 1\nC 2 0 0 0 0 0 1\n".to_vec();
    let sim = load(&text, DT).unwrap();
    assert_eq!(sim.bodies.len(), 2);
    assert_eq!(sim.bodies[1].name, b"B".to_vec());
}

#[test]
fn load_fewer_lines_than_count() {
    let text = b"1\n5\nA 0 0 0 0 0 0 1\n".to_vec();
    let sim = load(&text, DT).unwrap();
    assert_eq!(sim.bodies.len(), 1);
}

#[test]
fn load_applies_metadata() {
    let text = b"1\n1\nA 1 0 0 0 0 0 1\n0 ff0000 0.5 2 0.25\n".to_vec();
    let sim = load(&text, DT).unwrap();
    let a = &sim.bodies[0];
    assert_eq!(a.color, b"ff0000".to_vec());
    assert_eq!(a.min_rad, FX_HALF);
    assert_eq!(a.max_rad, 2 * FX_ONE);
    assert_eq!(a.rad, FX_ONE / 4);
}

#[test]
fn load_ignores_bad_metadata() {
    // out-of-range index, then a malformed record: both ignored
    let text = b"1\n1\nA 1 0 0 0 0 0 1\n5 ff0000 0.5 2 0.25\nnot a meta line\n".to_vec();
    let sim = load(&text, DT).unwrap();
    let a = &sim.bodies[0];
    assert_eq!(a.color, b"000000".to_vec());
    assert_eq!(a.min_rad, FX_UNSET);
}

#[test]
fn load_missing_gravity() {
    assert!(matches!(load(&b"".to_vec(), DT), Err(LoadError::MissingGravity)));
}

#[test]
fn load_invalid_gravity() {
    assert!(matches!(load(&b"abc\n2\n".to_vec(), DT), Err(LoadError::InvalidGravity)));
}

#[test]
fn load_missing_count() {
    assert!(matches!(load(&b"1\n".to_vec(), DT), Err(LoadError::MissingCount)));
}

#[test]
fn load_invalid_count() {
    assert!(matches!(load(&b"1\nx\n".to_vec(), DT), Err(LoadError::InvalidCount)));
}

#[test]
fn load_handles_crlf_and_tabs() {
    let text = b"1\r\n1\r\nA\t0 0 0\t0 0 0\t2\r\n".to_vec();
    let sim = load(&text, DT).unwrap();
    assert_eq!(sim.g, FX_ONE);
    assert_eq!(sim.bodies.len(), 1);
    assert_eq!(sim.bodies[0].m, 2 * FX_ONE);
}
