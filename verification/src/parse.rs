//! The configuration loader's text format.
//!
//! The input is a whole text resource as bytes.  Lines are separated by
//! `\n`; a trailing `\r` on a line is discarded.  Fields within a line are
//! separated by blanks or tabs.  The grammar (one record per line):
//!
//! ```text
//! G
//! N
//! name r0 r1 r2 v0 v1 v2 mass      (repeated N times)
//! [ index colorHex minRadius maxRadius displayRadius ]*
//! ```
//!
//! A real literal is an optional sign, a mantissa of one to eighteen digits
//! with an optional decimal point, and an optional exponent (`e` or `E`, an
//! optional sign, one to three digits); longer literals do not parse.  Its
//! value is the nearest fixed-point value in the direction of zero,
//! saturated at the representable range.
//!
//! A malformed body or metadata line is silently dropped and loading goes
//! on; a malformed header (`G` or `N`) is a fatal [`crate::loader::LoadError`].

use vstd::prelude::*;
use crate::fx::{clamp64, scale, signed_clamp};

verus! {

/// Field separators within a line.
pub open spec fn is_blank(c: u8) -> bool {
    c == 32 || c == 9
}

/// Decimal digits.
pub open spec fn is_digit(c: u8) -> bool {
    48 <= c <= 57
}

/// The views of a sequence of byte vectors.
pub open spec fn views_of(ls: Seq<Vec<u8>>) -> Seq<Seq<u8>> {
    ls.map_values(|l: Vec<u8>| l@)
}

/// The index of the first line feed in `s`, or `s.len()` if there is none.
pub open spec fn nl_pos(s: Seq<u8>) -> nat
    decreases s.len(),
{
    if s.len() == 0 {
        0
    } else if s[0] == 10 {
        0
    } else {
        (1 + nl_pos(s.drop_first())) as nat
    }
}

/// A line without its trailing carriage return, if it has one.
pub open spec fn strip_cr(l: Seq<u8>) -> Seq<u8> {
    if l.len() > 0 && l.last() == 13 {
        l.drop_last()
    } else {
        l
    }
}

/// The lines of a text: split at each line feed, with no empty final line
/// after a trailing line feed, each line stripped of a trailing carriage
/// return.
pub open spec fn split_lines_spec(s: Seq<u8>) -> Seq<Seq<u8>>
    decreases s.len(),
{
    if s.len() == 0 {
        Seq::empty()
    } else {
        let k = nl_pos(s) as int;
        if k < s.len() {
            seq![strip_cr(s.take(k))] + split_lines_spec(s.skip(k + 1))
        } else {
            seq![strip_cr(s)]
        }
    }
}

/// `nl_pos` is the position of the first line feed.
proof fn lemma_nl_pos(s: Seq<u8>, m: int)
    requires
        0 <= m <= s.len(),
        forall|k: int| 0 <= k < m ==> s[k] != 10,
        m == s.len() || s[m] == 10,
    ensures
        nl_pos(s) == m,
    decreases m,
{
    if m == 0 {
    } else {
        assert(s[0] != 10);
        lemma_nl_pos(s.drop_first(), m - 1);
    }
}

/// Length of the leading field (run of non-blank bytes) of `s`.
pub open spec fn field_len(s: Seq<u8>) -> nat
    decreases s.len(),
{
    if s.len() == 0 || is_blank(s[0]) {
        0
    } else {
        (1 + field_len(s.drop_first())) as nat
    }
}

/// The blank-separated fields of a line, in order.
pub open spec fn tokens_of(s: Seq<u8>) -> Seq<Seq<u8>>
    decreases s.len(),
    via tokens_of_dec
{
    if s.len() == 0 {
        Seq::empty()
    } else if is_blank(s[0]) {
        tokens_of(s.drop_first())
    } else {
        seq![s.take(field_len(s) as int)] + tokens_of(s.skip(field_len(s) as int))
    }
}

#[via_fn]
proof fn tokens_of_dec(s: Seq<u8>) {
    if s.len() != 0 && !is_blank(s[0]) {
        lemma_field_len_le(s);
        assert(field_len(s) >= 1);
    }
}

/// The leading field is no longer than the line.
proof fn lemma_field_len_le(s: Seq<u8>)
    ensures
        field_len(s) <= s.len(),
    decreases s.len(),
{
    if s.len() != 0 && !is_blank(s[0]) {
        lemma_field_len_le(s.drop_first());
    }
}

/// `field_len` is the position of the first blank.
proof fn lemma_field_len(s: Seq<u8>, m: int)
    requires
        0 <= m <= s.len(),
        forall|k: int| 0 <= k < m ==> !is_blank(s[k]),
        m == s.len() || is_blank(s[m]),
    ensures
        field_len(s) == m,
    decreases m,
{
    if m == 0 {
    } else {
        assert(!is_blank(s[0]));
        lemma_field_len(s.drop_first(), m - 1);
    }
}

/// Exec test for a field separator.
fn blank(c: u8) -> (r: bool)
    ensures
        r == is_blank(c),
{
    c == 32 || c == 9
}

/// Split a line into its blank-separated fields.
pub fn tokenize(line: &Vec<u8>) -> (out: Vec<Vec<u8>>)
    ensures
        views_of(out@) == tokens_of(line@),
{
    let n = line.len();
    let mut out: Vec<Vec<u8>> = Vec::new();
    let mut i: usize = 0;
    proof {
        assert(line@.skip(0) =~= line@);
        assert(views_of(out@) + tokens_of(line@) =~= tokens_of(line@));
    }
    while i < n
        invariant
            i <= n,
            n == line@.len(),
            tokens_of(line@) == views_of(out@) + tokens_of(line@.skip(i as int)),
        decreases n - i,
    {
        if blank(line[i]) {
            proof {
                assert(line@.skip(i as int).drop_first() =~= line@.skip(i as int + 1));
            }
            i = i + 1;
        } else {
            let start = i;
            let mut tok: Vec<u8> = Vec::new();
            while i < n && !blank(line[i])
                invariant
                    start <= i <= n,
                    n == line@.len(),
                    tok@ == line@.subrange(start as int, i as int),
                    forall|k: int| start as int <= k < i as int ==> !is_blank(line@[k]),
                decreases n - i,
            {
                proof {
                    assert(line@.subrange(start as int, i as int + 1) =~= line@.subrange(
                        start as int,
                        i as int,
                    ).push(line@[i as int]));
                }
                tok.push(line[i]);
                i = i + 1;
            }
            let ghost tail: Seq<u8> = line@.skip(start as int);
            proof {
                lemma_field_len(tail, i as int - start as int);
                assert(tail.take(i as int - start as int) =~= line@.subrange(
                    start as int,
                    i as int,
                ));
                assert(tail.skip(i as int - start as int) =~= line@.skip(i as int));
            }
            let ghost prev: Seq<Seq<u8>> = views_of(out@);
            out.push(tok);
            proof {
                assert(views_of(out@) =~= prev.push(tok@));
                assert(prev + (seq![tok@] + tokens_of(line@.skip(i as int))) =~= prev.push(tok@)
                    + tokens_of(line@.skip(i as int)));
            }
        }
    }
    proof {
        assert(line@.skip(n as int) =~= Seq::<u8>::empty());
        assert(views_of(out@) + Seq::<Seq<u8>>::empty() =~= views_of(out@));
    }
    out
}

/// The length of the run of digits in `s` at and after position `i`.
pub open spec fn digit_run(s: Seq<u8>, i: int) -> nat
    decreases s.len() - i,
{
    if i < 0 || i >= s.len() || !is_digit(s[i]) {
        0
    } else {
        (1 + digit_run(s, i + 1)) as nat
    }
}

/// `digit_run` ends at the first non-digit.
proof fn lemma_digit_run(s: Seq<u8>, i: int, m: int)
    requires
        0 <= i <= m <= s.len(),
        forall|k: int| i <= k < m ==> is_digit(s[k]),
        m == s.len() || !is_digit(s[m]),
    ensures
        digit_run(s, i) == m - i,
    decreases m - i,
{
    if m > i {
        lemma_digit_run(s, i + 1, m);
    }
}

/// The value of a string of decimal digit characters.
pub open spec fn digval(s: Seq<u8>) -> int
    decreases s.len(),
{
    if s.len() == 0 {
        0
    } else {
        digval(s.drop_last()) * 10 + (s.last() - 48)
    }
}

/// Powers of ten.
pub open spec fn pow10(n: nat) -> int
    decreases n,
{
    if n == 0 {
        1
    } else {
        10 * pow10((n - 1) as nat)
    }
}

/// Powers of ten are positive.
pub proof fn lemma_pow10_pos(n: nat)
    ensures
        pow10(n) >= 1,
    decreases n,
{
    if n > 0 {
        lemma_pow10_pos((n - 1) as nat);
    }
}

/// Powers of ten grow with the exponent.
pub proof fn lemma_pow10_mono(a: nat, b: nat)
    requires
        a <= b,
    ensures
        pow10(a) <= pow10(b),
    decreases b,
{
    if a < b {
        lemma_pow10_mono(a, (b - 1) as nat);
        lemma_pow10_pos((b - 1) as nat);
    }
}

/// The value of a digit string is bounded by the power of ten of its
/// length.
pub proof fn lemma_digval_bound(s: Seq<u8>)
    requires
        forall|k: int| 0 <= k < s.len() ==> is_digit(s[k]),
    ensures
        0 <= digval(s) < pow10(s.len()),
    decreases s.len(),
{
    if s.len() > 0 {
        assert(forall|k: int| 0 <= k < s.drop_last().len() ==> is_digit(s.drop_last()[k]));
        lemma_digval_bound(s.drop_last());
        assert(is_digit(s.last()));
    }
}

/// Length of the sign prefix of a numeric literal.
pub open spec fn sign_len(t: Seq<u8>) -> int {
    if t.len() > 0 && (t[0] == 43 || t[0] == 45) {
        1
    } else {
        0
    }
}

/// Whether the literal carries a minus sign.
pub open spec fn real_neg(t: Seq<u8>) -> bool {
    t.len() > 0 && t[0] == 45
}

/// The number of digits before the decimal point.
pub open spec fn int_len(t: Seq<u8>) -> int {
    digit_run(t, sign_len(t)) as int
}

/// The position of the decimal point, were there one.
pub open spec fn point_pos(t: Seq<u8>) -> int {
    sign_len(t) + int_len(t)
}

/// Whether the literal has a decimal point.
pub open spec fn has_point(t: Seq<u8>) -> bool {
    point_pos(t) < t.len() && t[point_pos(t)] == 46
}

/// The number of digits after the decimal point.
pub open spec fn frac_len(t: Seq<u8>) -> int {
    if has_point(t) {
        digit_run(t, point_pos(t) + 1) as int
    } else {
        0
    }
}

/// The position just after the mantissa.
pub open spec fn mant_end(t: Seq<u8>) -> int {
    point_pos(t) + if has_point(t) {
        1 + frac_len(t)
    } else {
        0
    }
}

/// All mantissa digits, the decimal point dropped.
pub open spec fn mant_digits(t: Seq<u8>) -> Seq<u8> {
    t.subrange(sign_len(t), point_pos(t)) + if has_point(t) {
        t.subrange(point_pos(t) + 1, point_pos(t) + 1 + frac_len(t))
    } else {
        Seq::empty()
    }
}

/// Whether an exponent marker follows the mantissa.
pub open spec fn has_exp(t: Seq<u8>) -> bool {
    mant_end(t) < t.len() && (t[mant_end(t)] == 101 || t[mant_end(t)] == 69)
}

/// Length of the exponent's sign prefix.
pub open spec fn exp_sign_len(t: Seq<u8>) -> int {
    if has_exp(t) && mant_end(t) + 1 < t.len() && (t[mant_end(t) + 1] == 43 || t[mant_end(t) + 1]
        == 45) {
        1
    } else {
        0
    }
}

/// Whether the exponent carries a minus sign.
pub open spec fn exp_neg(t: Seq<u8>) -> bool {
    has_exp(t) && mant_end(t) + 1 < t.len() && t[mant_end(t) + 1] == 45
}

/// The position of the exponent's first digit.
pub open spec fn exp_start(t: Seq<u8>) -> int {
    mant_end(t) + 1 + exp_sign_len(t)
}

/// The number of exponent digits.
pub open spec fn exp_len(t: Seq<u8>) -> int {
    digit_run(t, exp_start(t)) as int
}

/// The exponent's digits.
pub open spec fn exp_digits(t: Seq<u8>) -> Seq<u8> {
    if has_exp(t) {
        t.subrange(exp_start(t), exp_start(t) + exp_len(t))
    } else {
        Seq::empty()
    }
}

/// Whether the token is a well-formed real literal: sign, one to eighteen
/// mantissa digits with an optional decimal point, and an optional
/// exponent of one to three digits, with nothing trailing.
pub open spec fn real_shape_ok(t: Seq<u8>) -> bool {
    &&& 1 <= mant_digits(t).len() <= 18
    &&& if has_exp(t) {
        1 <= exp_len(t) <= 3 && exp_start(t) + exp_len(t) == t.len()
    } else {
        mant_end(t) == t.len()
    }
}

/// The literal's decimal exponent, the decimal point accounted for.
pub open spec fn real_e10(t: Seq<u8>) -> int {
    (if exp_neg(t) {
        -digval(exp_digits(t))
    } else {
        digval(exp_digits(t))
    }) - frac_len(t)
}

/// The unsigned raw fixed-point magnitude of `m * 10^e10`, truncated
/// toward zero (`m >= 0`).
pub open spec fn real_mag(m: int, e10: int) -> int {
    if e10 >= 0 {
        m * pow10(e10 as nat) * scale()
    } else {
        (m * scale()) / pow10((-e10) as nat)
    }
}

/// The raw fixed-point value of a real literal: its exact value rounded
/// toward zero and saturated, or nothing if the token is not a literal of
/// the accepted shape.
pub open spec fn parse_real_spec(t: Seq<u8>) -> Option<int> {
    if real_shape_ok(t) {
        let mag = real_mag(digval(mant_digits(t)), real_e10(t));
        Some(clamp64(if real_neg(t) {
            -mag
        } else {
            mag
        }))
    } else {
        None
    }
}

/// Exec test for a decimal digit.
fn digit(c: u8) -> (r: bool)
    ensures
        r == is_digit(c),
{
    48 <= c && c <= 57
}

/// Small powers of ten.
fn pow10_small(k: u64) -> (p: u128)
    requires
        k <= 27,
    ensures
        p as int == pow10(k as nat),
{
    let mut p: u128 = 1;
    let mut j: u64 = 0;
    while j < k
        invariant
            j <= k <= 27,
            p as int == pow10(j as nat),
        decreases k - j,
    {
        proof {
            lemma_pow10_mono(j as nat, 26);
            reveal_with_fuel(pow10, 29);
            assert(pow10(26) == 100000000000000000000000000);
        }
        p = p * 10;
        j = j + 1;
    }
    p
}

/// The signed, saturated raw fixed-point value of `m * 10^e10`.
fn real_raw_exec(neg: bool, m: u64, e10: i64) -> (r: i64)
    requires
        m < 1000000000000000000,
        -1017 <= e10 <= 999,
    ensures
        r as int == clamp64(
            if neg {
                -real_mag(m as int, e10 as int)
            } else {
                real_mag(m as int, e10 as int)
            },
        ),
{
    if m == 0 {
        proof {
            if e10 >= 0 {
                assert(real_mag(0, e10 as int) == 0);
            } else {
                let d = (-(e10 as int)) as nat;
                lemma_pow10_pos(d);
                vstd::arithmetic::div_mod::lemma_basic_div(0, pow10(d));
            }
        }
        return 0;
    }
    if e10 >= 0 {
        if e10 >= 11 {
            proof {
                lemma_pow10_mono(11, e10 as nat);
                reveal_with_fuel(pow10, 13);
                assert(pow10(11) == 100000000000);
                assert((m as int) * pow10(e10 as nat) * 4294967296 > 0x7fffffffffffffff)
                    by (nonlinear_arith)
                    requires
                        m >= 1,
                        pow10(e10 as nat) >= 100000000000,
                ;
            }
            if neg {
                return i64::MIN;
            } else {
                return i64::MAX;
            }
        }
        let p = pow10_small(e10 as u64);
        proof {
            lemma_pow10_mono(e10 as nat, 10);
            reveal_with_fuel(pow10, 13);
            assert(pow10(10) == 10000000000);
            assert((m as int) * (p as int) < 10000000000000000000000000000) by (nonlinear_arith)
                requires
                    m < 1000000000000000000,
                    0 <= (p as int) <= 10000000000,
            ;
            lemma_pow10_pos(e10 as nat);
            assert((m as int) * (p as int) >= 0) by (nonlinear_arith)
                requires
                    m >= 0,
                    (p as int) >= 1,
            ;
        }
        let prod: u128 = (m as u128) * p * 4294967296u128;
        signed_clamp(prod, neg)
    } else {
        let d = (-e10) as u64;
        if d >= 28 {
            proof {
                lemma_pow10_mono(28, d as nat);
                reveal_with_fuel(pow10, 30);
                assert(pow10(28) == 10000000000000000000000000000);
                lemma_pow10_pos(d as nat);
                vstd::arithmetic::div_mod::lemma_basic_div(
                    (m as int) * scale(),
                    pow10(d as nat),
                );
            }
            return 0;
        }
        let p = pow10_small(d);
        proof {
            lemma_pow10_pos(d as nat);
        }
        let num: u128 = (m as u128) * 4294967296u128;
        let q: u128 = num / p;
        signed_clamp(q, neg)
    }
}

/// Parse one field as a real literal, yielding its raw fixed-point value.
#[verifier::rlimit(100)]
pub fn parse_real(t: &Vec<u8>) -> (r: Option<i64>)
    ensures
        match r {
            Some(v) => parse_real_spec(t@) == Some(v as int),
            None => parse_real_spec(t@) is None,
        },
{
    let n = t.len();
    let mut i: usize = 0;
    let mut neg = false;
    if n > 0 && (t[0] == 43 || t[0] == 45) {
        neg = t[0] == 45;
        i = 1;
    }
    let sstart = i;
    proof {
        assert(sstart as int == sign_len(t@));
        assert(neg == real_neg(t@));
    }
    while i < n && digit(t[i])
        invariant
            sstart <= i <= n,
            n == t@.len(),
            forall|k: int| sstart as int <= k < i as int ==> is_digit(t@[k]),
        decreases n - i,
    {
        i = i + 1;
    }
    let ipoint = i;
    proof {
        lemma_digit_run(t@, sstart as int, ipoint as int);
        assert(int_len(t@) == ipoint - sstart);
        assert(point_pos(t@) == ipoint as int);
    }
    let mut fstart = i;
    let mut fend = i;
    if i < n && t[i] == 46 {
        i = i + 1;
        fstart = i;
        while i < n && digit(t[i])
            invariant
                fstart <= i <= n,
                n == t@.len(),
                forall|k: int| fstart as int <= k < i as int ==> is_digit(t@[k]),
            decreases n - i,
        {
            i = i + 1;
        }
        fend = i;
        proof {
            lemma_digit_run(t@, fstart as int, fend as int);
            assert(has_point(t@));
            assert(frac_len(t@) == fend - fstart);
            assert(mant_end(t@) == fend as int);
        }
    } else {
        proof {
            assert(!has_point(t@));
            assert(frac_len(t@) == 0);
            assert(mant_end(t@) == i as int);
        }
    }
    let mant_count = (ipoint - sstart) + (fend - fstart);
    proof {
        assert(mant_digits(t@).len() == mant_count as int);
    }
    if mant_count < 1 || mant_count > 18 {
        return None;
    }
    let mut eneg = false;
    let mut e: u64 = 0;
    if i < n {
        let c = t[i];
        if c != 101 && c != 69 {
            proof {
                assert(!has_exp(t@));
                assert(mant_end(t@) != t@.len());
            }
            return None;
        }
        proof {
            assert(has_exp(t@));
        }
        i = i + 1;
        if i < n && (t[i] == 43 || t[i] == 45) {
            eneg = t[i] == 45;
            i = i + 1;
        }
        let estart = i;
        proof {
            assert(estart as int == exp_start(t@));
            assert(eneg == exp_neg(t@));
        }
        while i < n && digit(t[i])
            invariant
                estart <= i <= n,
                n == t@.len(),
                forall|k: int| estart as int <= k < i as int ==> is_digit(t@[k]),
                i - estart <= 3 ==> e as int == digval(t@.subrange(estart as int, i as int)),
                e <= 999,
            decreases n - i,
        {
            if i - estart < 3 {
                proof {
                    let pre = t@.subrange(estart as int, i as int);
                    assert(t@.subrange(estart as int, i as int + 1) =~= pre.push(t@[i as int]));
                    assert(pre.push(t@[i as int]).drop_last() =~= pre);
                    lemma_digval_bound(pre);
                    lemma_pow10_mono(pre.len(), 2);
                    reveal_with_fuel(pow10, 4);
                    assert(pow10(2) == 100);
                }
                let d = t[i] - 48;
                e = e * 10 + d as u64;
            }
            i = i + 1;
        }
        let elen = i - estart;
        proof {
            lemma_digit_run(t@, estart as int, i as int);
            assert(exp_len(t@) == elen as int);
        }
        if i != n {
            proof {
                assert(exp_start(t@) + exp_len(t@) != t@.len());
            }
            return None;
        }
        if elen < 1 || elen > 3 {
            return None;
        }
        proof {
            assert(t@.subrange(estart as int, i as int) =~= exp_digits(t@));
            assert(e as int == digval(exp_digits(t@)));
        }
    } else {
        proof {
            assert(!has_exp(t@));
            assert(exp_digits(t@) =~= Seq::<u8>::empty());
        }
    }
    proof {
        assert(real_shape_ok(t@));
    }
    let ghost intdigs: Seq<u8> = t@.subrange(sstart as int, ipoint as int);
    let mut m: u64 = 0;
    let mut k = sstart;
    while k < ipoint
        invariant
            sstart <= k <= ipoint <= n,
            n == t@.len(),
            ipoint - sstart <= 18,
            forall|j: int| sstart as int <= j < ipoint as int ==> is_digit(t@[j]),
            m as int == digval(t@.subrange(sstart as int, k as int)),
        decreases ipoint - k,
    {
        proof {
            let pre = t@.subrange(sstart as int, k as int);
            assert(t@.subrange(sstart as int, k as int + 1) =~= pre.push(t@[k as int]));
            assert(pre.push(t@[k as int]).drop_last() =~= pre);
            lemma_digval_bound(pre);
            lemma_pow10_mono(pre.len(), 17);
            reveal_with_fuel(pow10, 20);
            assert(pow10(17) == 100000000000000000);
        }
        let d = t[k] - 48;
        m = m * 10 + d as u64;
        k = k + 1;
    }
    let mut k2 = fstart;
    while k2 < fend
        invariant
            fstart <= k2 <= fend <= n,
            n == t@.len(),
            (ipoint - sstart) + (fend - fstart) <= 18,
            sstart <= ipoint <= n,
            intdigs == t@.subrange(sstart as int, ipoint as int),
            forall|j: int| fstart as int <= j < fend as int ==> is_digit(t@[j]),
            forall|j: int| sstart as int <= j < ipoint as int ==> is_digit(t@[j]),
            m as int == digval(intdigs + t@.subrange(fstart as int, k2 as int)),
        decreases fend - k2,
    {
        proof {
            let pre = intdigs + t@.subrange(fstart as int, k2 as int);
            assert(intdigs + t@.subrange(fstart as int, k2 as int + 1) =~= pre.push(
                t@[k2 as int],
            ));
            assert(pre.push(t@[k2 as int]).drop_last() =~= pre);
            assert forall|j: int| 0 <= j < pre.len() implies is_digit(pre[j]) by {
                if j < intdigs.len() {
                    assert(pre[j] == t@[sstart as int + j]);
                } else {
                    assert(pre[j] == t@[fstart as int + (j - intdigs.len())]);
                }
            }
            lemma_digval_bound(pre);
            lemma_pow10_mono(pre.len(), 17);
            reveal_with_fuel(pow10, 20);
            assert(pow10(17) == 100000000000000000);
        }
        let d = t[k2] - 48;
        m = m * 10 + d as u64;
        k2 = k2 + 1;
    }
    proof {
        if fstart == fend {
            assert(intdigs + t@.subrange(fstart as int, fend as int) =~= intdigs);
        }
        assert(mant_digits(t@) =~= intdigs + t@.subrange(fstart as int, fend as int));
        assert(m as int == digval(mant_digits(t@)));
        assert forall|j: int| 0 <= j < mant_digits(t@).len() implies is_digit(
            mant_digits(t@)[j],
        ) by {
            if j < intdigs.len() {
                assert(mant_digits(t@)[j] == t@[sstart as int + j]);
            } else {
                assert(mant_digits(t@)[j] == t@[fstart as int + (j - intdigs.len())]);
            }
        }
        lemma_digval_bound(mant_digits(t@));
        lemma_pow10_mono(mant_digits(t@).len(), 18);
        reveal_with_fuel(pow10, 20);
        assert(pow10(18) == 1000000000000000000);
    }
    let flen = fend - fstart;
    let e10: i64 = (if eneg {
        -(e as i64)
    } else {
        e as i64
    }) - flen as i64;
    proof {
        assert(e10 as int == real_e10(t@));
    }
    let raw = real_raw_exec(neg, m, e10);
    Some(raw)
}

/// Parse field `k` of a tokenized line as a real literal.
pub fn parse_body_real(toks: &Vec<Vec<u8>>, k: usize) -> (r: Option<i64>)
    requires
        k < toks@.len(),
    ensures
        match r {
            Some(v) => parse_real_spec(toks@[k as int]@) == Some(v as int),
            None => parse_real_spec(toks@[k as int]@) is None,
        },
{
    parse_real(&toks[k])
}

/// Whether the token is a well-formed non-negative integer literal: an
/// optional plus sign and one to eighteen digits.
pub open spec fn count_shape_ok(t: Seq<u8>) -> bool {
    let s = if t.len() > 0 && t[0] == 43 {
        1int
    } else {
        0int
    };
    &&& t.len() - s >= 1
    &&& t.len() - s <= 18
    &&& forall|k: int| s <= k < t.len() ==> is_digit(t[k])
}

/// The digits of an integer literal.
pub open spec fn count_digits(t: Seq<u8>) -> Seq<u8> {
    t.subrange(
        if t.len() > 0 && t[0] == 43 {
            1int
        } else {
            0int
        },
        t.len() as int,
    )
}

/// The value of an integer literal, or nothing if the token is not one of
/// the accepted shape or its value does not fit the machine's size type.
pub open spec fn parse_count_spec(t: Seq<u8>) -> Option<int> {
    if count_shape_ok(t) && digval(count_digits(t)) <= usize::MAX {
        Some(digval(count_digits(t)))
    } else {
        None
    }
}

/// Parse one field as a non-negative integer.
pub fn parse_count(t: &Vec<u8>) -> (r: Option<usize>)
    ensures
        match r {
            Some(v) => parse_count_spec(t@) == Some(v as int),
            None => parse_count_spec(t@) is None,
        },
{
    let n = t.len();
    let mut i: usize = 0;
    if n > 0 && t[0] == 43 {
        i = 1;
    }
    let sstart = i;
    if n == sstart || n - sstart > 18 {
        return None;
    }
    let mut m: u64 = 0;
    while i < n
        invariant
            sstart <= i <= n,
            n == t@.len(),
            n - sstart <= 18,
            sstart as int == (if t@.len() > 0 && t@[0] == 43 {
                1int
            } else {
                0int
            }),
            forall|k: int| sstart as int <= k < i as int ==> is_digit(t@[k]),
            m as int == digval(t@.subrange(sstart as int, i as int)),
        decreases n - i,
    {
        let c = t[i];
        if !digit(c) {
            proof {
                assert(!count_shape_ok(t@));
            }
            return None;
        }
        proof {
            let pre = t@.subrange(sstart as int, i as int);
            assert(t@.subrange(sstart as int, i as int + 1) =~= pre.push(t@[i as int]));
            assert(pre.push(t@[i as int]).drop_last() =~= pre);
            lemma_digval_bound(pre);
            lemma_pow10_mono(pre.len(), 17);
            reveal_with_fuel(pow10, 20);
            assert(pow10(17) == 100000000000000000);
        }
        m = m * 10 + (c - 48) as u64;
        i = i + 1;
    }
    proof {
        assert(count_shape_ok(t@));
        assert(t@.subrange(sstart as int, n as int) =~= count_digits(t@));
    }
    if m > usize::MAX as u64 {
        return None;
    }
    Some(m as usize)
}

/// Pop a trailing carriage return off an owned line.
fn strip_cr_exec(line: Vec<u8>) -> (out: Vec<u8>)
    ensures
        out@ == strip_cr(line@),
{
    let mut line = line;
    if line.len() > 0 && line[line.len() - 1] == 13 {
        line.pop();
        proof {
            assert(line@ =~= strip_cr(line@.push(13)));
        }
    }
    line
}

/// Split a text into its lines.
pub fn split_lines(text: &Vec<u8>) -> (out: Vec<Vec<u8>>)
    ensures
        views_of(out@) == split_lines_spec(text@),
{
    let n = text.len();
    let mut out: Vec<Vec<u8>> = Vec::new();
    let mut cur: Vec<u8> = Vec::new();
    let mut start_x: usize = 0;
    let mut i: usize = 0;
    proof {
        assert(text@.skip(0) =~= text@);
        assert(views_of(out@) + split_lines_spec(text@) =~= split_lines_spec(text@));
    }
    while i < n
        invariant
            i <= n,
            n == text@.len(),
            start_x as int <= i as int,
            cur@ == text@.subrange(start_x as int, i as int),
            forall|k: int| start_x as int <= k < i as int ==> text@[k] != 10,
            split_lines_spec(text@) == views_of(out@) + split_lines_spec(
                text@.skip(start_x as int),
            ),
        decreases n - i,
    {
        let c = text[i];
        if c == 10 {
            let ghost tail: Seq<u8> = text@.skip(start_x as int);
            proof {
                lemma_nl_pos(tail, i as int - start_x as int);
                assert(tail.take(i as int - start_x as int) =~= text@.subrange(
                    start_x as int,
                    i as int,
                ));
                assert(tail.skip(i as int - start_x as int + 1) =~= text@.skip(i as int + 1));
            }
            let line = strip_cr_exec(cur);
            let ghost prev: Seq<Seq<u8>> = views_of(out@);
            out.push(line);
            cur = Vec::new();
            start_x = i + 1;
            proof {
                assert(views_of(out@) =~= prev.push(line@));
                assert(prev + (seq![line@] + split_lines_spec(text@.skip(start_x as int)))
                    =~= prev.push(line@) + split_lines_spec(text@.skip(start_x as int)));
            }
        } else {
            proof {
                assert(text@.subrange(start_x as int, i as int + 1) =~= text@.subrange(
                    start_x as int,
                    i as int,
                ).push(text@[i as int]));
            }
            cur.push(c);
        }
        i = i + 1;
    }
    if cur.len() > 0 {
        let ghost tail: Seq<u8> = text@.skip(start_x as int);
        proof {
            lemma_nl_pos(tail, n as int - start_x as int);
            assert(tail =~= text@.subrange(start_x as int, n as int));
        }
        let line = strip_cr_exec(cur);
        let ghost prev: Seq<Seq<u8>> = views_of(out@);
        out.push(line);
        proof {
            assert(views_of(out@) =~= prev.push(line@));
            assert(prev + seq![line@] =~= prev.push(line@));
        }
    } else {
        proof {
            assert(text@.skip(start_x as int) =~= Seq::<u8>::empty());
            assert(views_of(out@) + Seq::<Seq<u8>>::empty() =~= views_of(out@));
        }
    }
    out
}

} // verus!
