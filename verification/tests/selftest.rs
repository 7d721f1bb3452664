use nbody::fx::FX_ONE;
use nbody::kepler::{KEPLER_DT1, KEPLER_DT2, KEPLER_DT3, SelfTestOutcome, kepler, run_test};

/// Convergence: the orbital-radius error shrinks at least tenfold, then at
/// least hundredfold, as the step shrinks tenfold and hundredfold.
#[test]
fn self_test_passes() {
    let report = run_test();
    assert_eq!(report.outcome, SelfTestOutcome::Passed);
    assert!(report.err1 > 0);
    assert!(report.err2 <= report.err1 / 10);
    assert!(report.err3 <= report.err1 / 100);
}

/// The three step sizes really are 0.001, 0.0001 and 0.00001.
#[test]
fn self_test_step_sizes() {
    assert_eq!(KEPLER_DT1, FX_ONE / 1000);
    assert_eq!(KEPLER_DT2, FX_ONE / 10000);
    assert_eq!(KEPLER_DT3, FX_ONE / 100000);
}

/// A single run at the middle step size keeps the orbit near radius 1.
#[test]
fn kepler_error_is_small() {
    let err = kepler(KEPLER_DT2);
    assert!((err as f64 / FX_ONE as f64) < 1.0e-3);
}
