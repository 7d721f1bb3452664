use nbody::args::{ArgsError, Command, DEFAULT_DT, DEFAULT_MAX_TIME, parse_args};
use nbody::fx::{FX_HALF, FX_ONE, FX_UNSET};
use nbody::model::{Body, Simulation, Vec3};
use nbody::stream::{Method, Runner, comment_line_of, header_line, sample_line};

fn v3(x: i64, y: i64, z: i64) -> Vec3 {
    Vec3 { x, y, z }
}

fn one_body_sim() -> Simulation {
    let b = Body {
        name: b"A".to_vec(),
        color: b"000000".to_vec(),
        rad: FX_UNSET,
        r: v3(FX_ONE, FX_HALF, 0),
        v: v3(-(FX_ONE + FX_HALF), 0, 0),
        a: v3(0, 0, 0),
        a_next: v3(0, 0, 0),
        m: FX_ONE,
        min_rad: FX_UNSET,
        max_rad: FX_UNSET,
        fixed: false,
    };
    Simulation { bodies: vec![b], g: FX_ONE, dt: FX_ONE / 4 }
}

#[test]
fn header_line_format() {
    let sim = one_body_sim();
    assert_eq!(header_line(&sim), b"t r0,0 r0,1 r0,2 v0,0 v0,1 v0,2 ".to_vec());
}

#[test]
fn comment_line_format() {
    let sim = one_body_sim();
    assert_eq!(comment_line_of(&sim.bodies[0]), b"# A 1 000000 -1".to_vec());
}

#[test]
fn sample_line_format() {
    let sim = one_body_sim();
    assert_eq!(sample_line(&sim, 0), b"0 1 0.5 0 -1.5 0 0 ".to_vec());
    assert_eq!(sample_line(&sim, FX_ONE / 4), b"0.25 1 0.5 0 -1.5 0 0 ".to_vec());
}

#[test]
fn runner_emits_header_then_samples() {
    let sim = one_body_sim();
    let dt = sim.dt;
    let (mut runner, lines) = Runner::start(sim, 2 * dt, Method::Euler);
    assert_eq!(lines.len(), 3); // column labels, one comment, time-0 sample
    assert_eq!(lines[0], b"t r0,0 r0,1 r0,2 v0,0 v0,1 v0,2 ".to_vec());
    assert_eq!(lines[1], b"# A 1 000000 -1".to_vec());
    assert_eq!(lines[2], b"0 1 0.5 0 -1.5 0 0 ".to_vec());
    // a lone massless body coasts: position moves, velocity does not
    let first = runner.step_line().unwrap();
    assert_eq!(first, b"0.25 0.625 0.5 0 -1.5 0 0 ".to_vec());
    let second = runner.step_line().unwrap();
    assert_eq!(second, b"0.5 0.25 0.5 0 -1.5 0 0 ".to_vec());
    assert!(runner.step_line().is_none());
}

fn args_of(words: &[&str]) -> Vec<Vec<u8>> {
    words.iter().map(|w| w.as_bytes().to_vec()).collect()
}

#[test]
fn args_no_input_asks_usage() {
    assert!(matches!(parse_args(&args_of(&["prog"])), Ok(Command::Usage)));
}

#[test]
fn args_test_flag_wins() {
    assert!(matches!(parse_args(&args_of(&["prog", "--test"])), Ok(Command::SelfTest)));
    assert!(matches!(
        parse_args(&args_of(&["prog", "--input", "f.txt", "--test"])),
        Ok(Command::SelfTest)
    ));
}

#[test]
fn args_run_with_defaults() {
    match parse_args(&args_of(&["prog", "--input", "f.txt"])) {
        Ok(Command::Run { file, dt, max_time }) => {
            assert_eq!(file, b"f.txt".to_vec());
            assert_eq!(dt, DEFAULT_DT);
            assert_eq!(max_time, DEFAULT_MAX_TIME);
        },
        _ => panic!("expected a run"),
    }
}

#[test]
fn args_overrides() {
    match parse_args(&args_of(&["prog", "--input", "f", "--dt", "0.001", "--T", "2"])) {
        Ok(Command::Run { file, dt, max_time }) => {
            assert_eq!(file, b"f".to_vec());
            assert_eq!(dt, 4294967); // 0.001, truncated toward zero
            assert_eq!(max_time, 2 * FX_ONE);
        },
        _ => panic!("expected a run"),
    }
}

#[test]
fn args_bad_numbers_are_fatal() {
    assert!(matches!(
        parse_args(&args_of(&["prog", "--dt", "xyz"])),
        Err(ArgsError::InvalidDt)
    ));
    assert!(matches!(
        parse_args(&args_of(&["prog", "--T", "nope"])),
        Err(ArgsError::InvalidMaxTime)
    ));
}

#[test]
fn args_unknown_or_dangling_flags_ask_usage() {
    assert!(matches!(parse_args(&args_of(&["prog", "--bogus"])), Ok(Command::Usage)));
    assert!(matches!(parse_args(&args_of(&["prog", "--input"])), Ok(Command::Usage)));
    assert!(matches!(parse_args(&args_of(&["prog", "--dt"])), Ok(Command::Usage)));
}
