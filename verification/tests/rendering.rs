use nbody::fmt::{push_fx, push_uint};
use nbody::fx::{FX_HALF, FX_ONE};
use nbody::parse::{split_lines, tokenize};

fn uint_str(n: u64) -> String {
    let mut out = Vec::new();
    push_uint(&mut out, n);
    String::from_utf8(out).unwrap()
}

fn fx_text(raw: i64) -> String {
    let mut out = Vec::new();
    push_fx(&mut out, raw);
    String::from_utf8(out).unwrap()
}

#[test]
fn uint_rendering() {
    assert_eq!(uint_str(0), "0");
    assert_eq!(uint_str(7), "7");
    assert_eq!(uint_str(120), "120");
    assert_eq!(uint_str(18446744073709551615), "18446744073709551615");
}

#[test]
fn fx_rendering_whole_numbers() {
    assert_eq!(fx_text(0), "0");
    assert_eq!(fx_text(FX_ONE), "1");
    assert_eq!(fx_text(-FX_ONE), "-1");
    assert_eq!(fx_text(42 * FX_ONE), "42");
}

#[test]
fn fx_rendering_fractions() {
    assert_eq!(fx_text(FX_HALF), "0.5");
    assert_eq!(fx_text(-(FX_ONE + FX_ONE / 4)), "-1.25");
    assert_eq!(fx_text(FX_ONE / 8), "0.125");
    // one raw unit is exactly 2^-32
    assert_eq!(fx_text(1), "0.00000000023283064365386962890625");
}

#[test]
fn fx_rendering_extremes() {
    assert_eq!(fx_text(i64::MIN), "-2147483648");
    let top = fx_text(i64::MAX);
    assert!(top.starts_with("2147483647.9999999"));
}

#[test]
fn splitting_lines() {
    let lines = split_lines(&b"a\nbc\n\nd".to_vec());
    assert_eq!(lines, vec![b"a".to_vec(), b"bc".to_vec(), b"".to_vec(), b"d".to_vec()]);
    assert_eq!(split_lines(&b"x\r\ny\r".to_vec()), vec![b"x".to_vec(), b"y".to_vec()]);
    assert_eq!(split_lines(&b"".to_vec()), Vec::<Vec<u8>>::new());
}

#[test]
fn splitting_fields() {
    let toks = tokenize(&b"  one\ttwo   three ".to_vec());
    assert_eq!(toks, vec![b"one".to_vec(), b"two".to_vec(), b"three".to_vec()]);
    assert_eq!(tokenize(&b"".to_vec()), Vec::<Vec<u8>>::new());
    assert_eq!(tokenize(&b"   ".to_vec()), Vec::<Vec<u8>>::new());
}
