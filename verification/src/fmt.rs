//! Decimal text for fixed-point values.
//!
//! A raw value renders as an optional minus sign, the integer part, and —
//! when it is non-zero — a decimal point and the exact decimal expansion
//! of the 32-bit binary fraction, which needs at most 32 digits and
//! carries no trailing zeros.

use vstd::prelude::*;
use crate::fx::scale;

verus! {

/// Decimal digits of a non-negative integer, most significant first
/// (empty for 0).
pub open spec fn dec_digits(n: int) -> Seq<u8>
    decreases n,
{
    if n <= 0 {
        Seq::empty()
    } else {
        dec_digits(n / 10).push((48 + (n % 10)) as u8)
    }
}

/// Decimal text of a non-negative integer.
pub open spec fn dec_str(n: int) -> Seq<u8> {
    if n == 0 {
        seq![48u8]
    } else {
        dec_digits(n)
    }
}

/// The decimal expansion of the binary fraction `f / 2^32`: one digit per
/// step, ending when the remainder runs out or after `k` digits.
pub open spec fn frac_digits(f: int, k: nat) -> Seq<u8>
    decreases k,
{
    if k == 0 || f <= 0 {
        Seq::empty()
    } else {
        seq![(48 + (f * 10) / scale()) as u8] + frac_digits((f * 10) % scale(), (k - 1) as nat)
    }
}

/// Decimal text of a raw fixed-point value.
pub open spec fn fx_str(raw: int) -> Seq<u8> {
    let mag = vstd::math::abs(raw) as int;
    let ip = mag / scale();
    let fp = mag % scale();
    (if raw < 0 {
        seq![45u8]
    } else {
        Seq::empty()
    }) + dec_str(ip) + (if fp == 0 {
        Seq::empty()
    } else {
        seq![46u8] + frac_digits(fp, 32)
    })
}

/// Append the decimal text of `n`.
pub fn push_uint(out: &mut Vec<u8>, n: u64)
    ensures
        final(out)@ == old(out)@ + dec_str(n as int),
{
    if n == 0 {
        out.push(48);
        proof {
            assert(out@ =~= old(out)@ + dec_str(0));
        }
        return ;
    }
    let mut tmp: Vec<u8> = Vec::new();
    let mut m: u64 = n;
    while m > 0
        invariant
            dec_digits(n as int) =~= dec_digits(m as int) + tmp@.reverse(),
        decreases m,
    {
        let ghost m0: int = m as int;
        let ghost prevtmp: Seq<u8> = tmp@;
        let d: u8 = 48 + (m % 10) as u8;
        tmp.push(d);
        m = m / 10;
        proof {
            assert(tmp@.reverse() =~= seq![d] + prevtmp.reverse());
            assert(dec_digits(m0) == dec_digits(m0 / 10).push(d));
            assert(dec_digits(m as int) + (seq![d] + prevtmp.reverse()) =~= dec_digits(
                m as int,
            ).push(d) + prevtmp.reverse());
        }
    }
    let ghost gd: Seq<u8> = dec_digits(n as int);
    proof {
        assert(gd =~= tmp@.reverse());
    }
    while tmp.len() > 0
        invariant
            out@ + tmp@.reverse() =~= old(out)@ + gd,
        decreases tmp@.len(),
    {
        let ghost prevtmp: Seq<u8> = tmp@;
        let d = tmp.pop().unwrap();
        out.push(d);
        proof {
            assert(prevtmp =~= tmp@.push(d));
            assert(prevtmp.reverse() =~= seq![d] + tmp@.reverse());
        }
    }
    proof {
        assert(tmp@.reverse() =~= Seq::<u8>::empty());
        assert(out@ =~= out@ + tmp@.reverse());
        assert(out@ =~= old(out)@ + dec_str(n as int));
    }
}

/// Append the decimal text of a raw fixed-point value.
pub fn push_fx(out: &mut Vec<u8>, raw: i64)
    ensures
        final(out)@ == old(out)@ + fx_str(raw as int),
{
    let mag: u64 = if raw < 0 {
        out.push(45);
        (-(raw as i128)) as u64
    } else {
        raw as u64
    };
    proof {
        assert(mag as int == vstd::math::abs(raw as int));
    }
    let ip: u64 = mag / 4294967296;
    let fp: u64 = mag % 4294967296;
    let ghost presign: Seq<u8> = out@;
    push_uint(out, ip);
    if fp > 0 {
        out.push(46);
        let ghost base: Seq<u8> = out@;
        let ghost fp0: int = fp as int;
        let mut f: u64 = fp;
        let mut k: usize = 0;
        while f > 0 && k < 32
            invariant
                f < 4294967296,
                k <= 32,
                base + frac_digits(fp0, 32) =~= out@ + frac_digits(f as int, (32 - k) as nat),
            decreases 32 - k,
        {
            let ghost f0: int = f as int;
            let f10 = f * 10;
            let d: u8 = 48 + (f10 / 4294967296) as u8;
            out.push(d);
            f = f10 % 4294967296;
            k = k + 1;
            proof {
                assert(frac_digits(f0, (32 - (k - 1)) as nat) == seq![d] + frac_digits(
                    f as int,
                    (32 - k) as nat,
                ));
            }
        }
        proof {
            assert(frac_digits(f as int, (32 - k) as nat) =~= Seq::<u8>::empty());
            assert(out@ =~= out@ + frac_digits(f as int, (32 - k) as nat));
            assert(out@ =~= base + frac_digits(fp0, 32));
            assert(out@ =~= old(out)@ + fx_str(raw as int));
        }
    } else {
        proof {
            assert(out@ =~= old(out)@ + fx_str(raw as int));
        }
    }
}

} // verus!
