//! Numeric conversion for progress fields: unsigned integers, fixed-point
//! decimals (for `fps` and `speed`), and rendering a port number in decimal.

use vstd::prelude::*;

verus! {

/// Why a numeric value failed to parse.
#[derive(Debug, Clone, Copy, PartialEq, Eq, Structural)]
pub enum NumError {
    /// No digits at all.
    Empty,
    /// A character that is not an ASCII digit (or a second decimal point).
    InvalidDigit,
    /// The digits denote a value too large for the field.
    Overflow,
}

/// A non-negative-mantissa fixed-point decimal: the value is
/// `(-1)^neg * mantissa / 10^scale`.  It stands for the fractional fields
/// (`fps`, `speed`) exactly as ffmpeg printed them, exponent notation
/// (`1.15e+03`) included.  The non-finite forms a float parser would also
/// accept (`inf`, `NaN`) have no place in this exact model and are parse
/// errors.
#[derive(Debug, Clone, Copy, PartialEq, Eq, Structural)]
pub struct Decimal {
    /// Whether the value carried a leading minus sign.
    pub neg: bool,
    /// The digits of the value, decimal point removed and any exponent
    /// folded in.
    pub mantissa: u64,
    /// The power of ten the mantissa is divided by.
    pub scale: usize,
}

pub open spec fn is_digit(c: char) -> bool {
    48 <= c as int && c as int <= 57
}

pub open spec fn digit_val(c: char) -> int {
    c as int - 48
}

pub open spec fn all_digits(s: Seq<char>) -> bool {
    forall|i: int| 0 <= i < s.len() ==> is_digit(s[i])
}

/// The number denoted by a sequence of ASCII digits, most significant first.
pub open spec fn digits_val(s: Seq<char>) -> int
    decreases s.len(),
{
    if s.len() == 0 {
        0
    } else {
        digits_val(s.drop_last()) * 10 + digit_val(s.last())
    }
}

/// What parsing an unsigned digit string yields, cause for cause.
pub open spec fn spec_parse_digits(s: Seq<char>) -> Result<int, NumError> {
    if s.len() == 0 {
        Err(NumError::Empty)
    } else if !all_digits(s) {
        Err(NumError::InvalidDigit)
    } else if digits_val(s) > u64::MAX as int {
        Err(NumError::Overflow)
    } else {
        Ok(digits_val(s))
    }
}

pub open spec fn strip_plus(s: Seq<char>) -> Seq<char> {
    if s.len() > 0 && s[0] == '+' {
        s.subrange(1, s.len() as int)
    } else {
        s
    }
}

/// What parsing an unsigned integer field yields: an optional `+`, then digits.
pub open spec fn spec_parse_u64(s: Seq<char>) -> Result<int, NumError> {
    spec_parse_digits(strip_plus(s))
}

pub open spec fn strip_sign(s: Seq<char>) -> (bool, Seq<char>) {
    if s.len() > 0 && s[0] == '-' {
        (true, s.subrange(1, s.len() as int))
    } else if s.len() > 0 && s[0] == '+' {
        (false, s.subrange(1, s.len() as int))
    } else {
        (false, s)
    }
}

/// The exponent marker of the decimal grammar.
pub open spec fn is_exp_mark(c: char) -> bool {
    c == 'e' || c == 'E'
}

/// Index of the first exponent marker in `s`; `s.len()` when absent.
pub open spec fn exp_pos(s: Seq<char>) -> int
    decreases s.len(),
{
    if s.len() == 0 {
        0
    } else if is_exp_mark(s[0]) {
        0
    } else {
        1 + exp_pos(s.subrange(1, s.len() as int))
    }
}

proof fn lemma_exp_pos_unique(s: Seq<char>, i: int)
    requires
        0 <= i <= s.len(),
        forall|j: int| 0 <= j < i ==> !is_exp_mark(s[j]),
        i < s.len() ==> is_exp_mark(s[i]),
    ensures
        exp_pos(s) == i,
    decreases s.len(),
{
    if s.len() == 0 {
    } else if is_exp_mark(s[0]) {
        assert(i == 0);
    } else {
        assert(i >= 1);
        let t = s.subrange(1, s.len() as int);
        assert(forall|j: int| 0 <= j < i - 1 ==> !is_exp_mark(t[j]));
        lemma_exp_pos_unique(t, i - 1);
    }
}

/// Ten to the `n`.
pub open spec fn pow10(n: nat) -> int
    decreases n,
{
    if n == 0 {
        1
    } else {
        10 * pow10((n - 1) as nat)
    }
}

proof fn lemma_pow10_pos(n: nat)
    ensures
        pow10(n) >= 1,
    decreases n,
{
    if n > 0 {
        lemma_pow10_pos((n - 1) as nat);
    }
}

proof fn lemma_pow10_mono(a: nat, b: nat)
    requires
        a <= b,
    ensures
        pow10(a) <= pow10(b),
    decreases b,
{
    if a < b {
        lemma_pow10_mono(a, (b - 1) as nat);
        lemma_pow10_pos((b - 1) as nat);
    }
}

proof fn lemma_shifted_mono(m: int, a: nat, b: nat)
    requires
        m >= 0,
        a <= b,
    ensures
        m * pow10(a) <= m * pow10(b),
{
    lemma_pow10_mono(a, b);
    vstd::arithmetic::mul::lemma_mul_inequality(pow10(a), pow10(b), m);
}

/// What parsing the digits-and-point part of a decimal yields: the mantissa
/// (all digits with the single decimal point removed) and the count of
/// fraction digits.
pub open spec fn spec_parse_base(d: Seq<char>) -> Result<(int, int), NumError> {
    let p = crate::text::first_pos(d, '.');
    if p == d.len() {
        match spec_parse_digits(d) {
            Ok(m) => Ok((m, 0)),
            Err(e) => Err(e),
        }
    } else {
        let ip = d.subrange(0, p);
        let fp = d.subrange(p + 1, d.len() as int);
        match spec_parse_digits(ip + fp) {
            Ok(m) => Ok((m, fp.len() as int)),
            Err(e) => Err(e),
        }
    }
}

/// Folds a parsed exponent into a mantissa and scale.  A negative exponent
/// deepens the scale; a positive one first consumes the scale and then
/// shifts the mantissa, overflowing past `u64::MAX`.
pub open spec fn spec_apply_exponent(m: int, scale: int, eneg: bool, ev: int) -> Result<
    (int, int),
    NumError,
> {
    if eneg {
        if scale + ev > usize::MAX as int {
            Err(NumError::Overflow)
        } else {
            Ok((m, scale + ev))
        }
    } else if ev >= scale {
        if m * pow10((ev - scale) as nat) > u64::MAX as int {
            Err(NumError::Overflow)
        } else {
            Ok((m * pow10((ev - scale) as nat), 0))
        }
    } else {
        Ok((m, scale - ev))
    }
}

/// What parsing a decimal field yields: a sign, a mantissa and a power-of-ten
/// scale denoting `(-1)^neg * mantissa / 10^scale`.  The grammar is an
/// optional sign, digits with at most one decimal point and at least one
/// digit, and an optional `e`/`E` exponent with its own optional sign, as
/// ffmpeg prints fractional fields (`2.50`, `1.15e+03`).
pub open spec fn spec_parse_decimal(s: Seq<char>) -> Result<(bool, int, int), NumError> {
    let (neg, d) = strip_sign(s);
    let ep = exp_pos(d);
    if ep == d.len() {
        match spec_parse_base(d) {
            Ok((m, sc)) => Ok((neg, m, sc)),
            Err(e) => Err(e),
        }
    } else {
        let base = d.subrange(0, ep);
        let (eneg, ed) = strip_sign(d.subrange(ep + 1, d.len() as int));
        match spec_parse_base(base) {
            Ok((m, sc)) => match spec_parse_digits(ed) {
                Ok(ev) => match spec_apply_exponent(m, sc, eneg, ev) {
                    Ok((m2, sc2)) => Ok((neg, m2, sc2)),
                    Err(e) => Err(e),
                },
                Err(e) => Err(e),
            },
            Err(e) => Err(e),
        }
    }
}

/// What parsing a `speed` value yields: the trailing unit character is
/// removed before the decimal parse.
pub open spec fn spec_parse_speed(v: Seq<char>) -> Result<(bool, int, int), NumError> {
    if v.len() == 0 {
        Err(NumError::Empty)
    } else {
        spec_parse_decimal(v.subrange(0, v.len() - 1))
    }
}

proof fn lemma_digits_val_nonneg(s: Seq<char>)
    requires
        all_digits(s),
    ensures
        digits_val(s) >= 0,
    decreases s.len(),
{
    if s.len() > 0 {
        lemma_digits_val_nonneg(s.drop_last());
    }
}

proof fn lemma_digits_val_prefix_le(s: Seq<char>, i: int)
    requires
        all_digits(s),
        0 <= i <= s.len(),
    ensures
        digits_val(s.subrange(0, i)) <= digits_val(s),
    decreases s.len() - i,
{
    if i == s.len() {
        assert(s.subrange(0, i) =~= s);
    } else {
        let p = s.subrange(0, i);
        let q = s.subrange(0, i + 1);
        assert(q.drop_last() =~= p);
        assert(forall|j: int| 0 <= j < p.len() ==> is_digit(p[j]));
        lemma_digits_val_nonneg(p);
        assert(digits_val(q) == digits_val(p) * 10 + digit_val(s[i]));
        lemma_digits_val_prefix_le(s, i + 1);
    }
}

/// Parses a bare string of ASCII digits into a `u64`, reporting exactly why
/// it cannot: empty input, a non-digit, or a value past `u64::MAX`.
pub fn parse_digits(s: &str) -> (r: Result<u64, NumError>)
    ensures
        match (r, spec_parse_digits(s@)) {
            (Ok(v), Ok(m)) => v as int == m,
            (Err(e), Err(se)) => e == se,
            _ => false,
        },
{
    let n = s.unicode_len();
    if n == 0 {
        return Err(NumError::Empty);
    }
    let mut i: usize = 0;
    while i < n
        invariant
            i <= n,
            n == s@.len(),
            forall|j: int| 0 <= j < i ==> is_digit(s@[j]),
        decreases n - i,
    {
        let c = s.get_char(i);
        let u = c as u32;
        if u < 48 || u > 57 {
            return Err(NumError::InvalidDigit);
        }
        i += 1;
    }
    assert(all_digits(s@));
    let mut v: u64 = 0;
    let mut i: usize = 0;
    while i < n
        invariant
            i <= n,
            n == s@.len(),
            all_digits(s@),
            v as int == digits_val(s@.subrange(0, i as int)),
        decreases n - i,
    {
        let c = s.get_char(i);
        let d = ((c as u32) - 48) as u64;
        proof {
            let p = s@.subrange(0, i as int);
            let q = s@.subrange(0, i + 1);
            assert(q.drop_last() =~= p);
            assert(q.last() == s@[i as int]);
            assert(digits_val(q) == digits_val(p) * 10 + digit_val(s@[i as int]));
        }
        if v > 1844674407370955161 || (v == 1844674407370955161 && d > 5) {
            proof {
                lemma_digits_val_prefix_le(s@, i + 1);
                assert(digits_val(s@.subrange(0, i + 1)) > u64::MAX as int);
            }
            return Err(NumError::Overflow);
        }
        v = v * 10 + d;
        i += 1;
    }
    proof {
        assert(s@.subrange(0, n as int) =~= s@);
    }
    Ok(v)
}

/// Parses an unsigned integer field as ffmpeg prints it: an optional leading
/// `+`, then decimal digits.
pub fn parse_u64(s: &str) -> (r: Result<u64, NumError>)
    ensures
        match (r, spec_parse_u64(s@)) {
            (Ok(v), Ok(m)) => v as int == m,
            (Err(e), Err(se)) => e == se,
            _ => false,
        },
{
    let n = s.unicode_len();
    if n > 0 && s.get_char(0) == '+' {
        let rest = s.substring_char(1, n);
        assert(rest@ =~= strip_plus(s@));
        parse_digits(rest)
    } else {
        assert(s@ == strip_plus(s@));
        parse_digits(s)
    }
}

fn is_exp_char(c: char) -> (b: bool)
    ensures
        b == is_exp_mark(c),
{
    c == 'e' || c == 'E'
}

fn parse_base(d: &str) -> (r: Result<(u64, usize), NumError>)
    ensures
        match (r, spec_parse_base(d@)) {
            (Ok((m, sc)), Ok((sm, ssc))) => m as int == sm && sc as int == ssc,
            (Err(e), Err(se)) => e == se,
            _ => false,
        },
{
    let dn = d.unicode_len();
    let mut p: usize = 0;
    while p < dn && d.get_char(p) != '.'
        invariant
            p <= dn,
            dn == d@.len(),
            forall|j: int| 0 <= j < p ==> d@[j] != '.',
        decreases dn - p,
    {
        p += 1;
    }
    proof {
        crate::text::lemma_first_pos_unique(d@, '.', p as int);
    }
    if p == dn {
        match parse_digits(d) {
            Ok(m) => Ok((m, 0)),
            Err(e) => Err(e),
        }
    } else {
        let ip = d.substring_char(0, p);
        let fp = d.substring_char(p + 1, dn);
        let joined = String::from_str(ip).concat(fp);
        let scale = dn - (p + 1);
        match parse_digits(joined.as_str()) {
            Ok(m) => Ok((m, scale)),
            Err(e) => Err(e),
        }
    }
}

fn apply_exponent(neg: bool, m: u64, sc: usize, eneg: bool, ev: u64) -> (r: Result<
    Decimal,
    NumError,
>)
    ensures
        match (r, spec_apply_exponent(m as int, sc as int, eneg, ev as int)) {
            (Ok(dec), Ok((m2, sc2))) => dec.neg == neg && dec.mantissa as int == m2
                && dec.scale as int == sc2,
            (Err(e), Err(se)) => e == se,
            _ => false,
        },
{
    if eneg {
        if ev > (usize::MAX - sc) as u64 {
            Err(NumError::Overflow)
        } else {
            Ok(Decimal { neg, mantissa: m, scale: sc + (ev as usize) })
        }
    } else if ev >= sc as u64 {
        let shift = ev - (sc as u64);
        if m == 0 {
            proof {
                vstd::arithmetic::mul::lemma_mul_basics(
                    pow10((ev as int - sc as int) as nat),
                );
                assert(spec_apply_exponent(m as int, sc as int, eneg, ev as int) == Ok::<
                    (int, int),
                    NumError,
                >((0int, 0int)));
            }
            Ok(Decimal { neg, mantissa: 0, scale: 0 })
        } else {
            let mut acc = m;
            let mut k: u64 = 0;
            while k < shift
                invariant
                    !eneg,
                    m >= 1,
                    ev as int >= sc as int,
                    k <= shift,
                    shift as int == ev as int - sc as int,
                    acc as int == m as int * pow10(k as nat),
                decreases shift - k,
            {
                if acc > 1844674407370955161 {
                    proof {
                        let p = pow10(k as nat);
                        assert(pow10((k + 1) as nat) == 10 * p);
                        assert(m as int * (10 * p) == 10 * (m as int * p)) by (nonlinear_arith);
                        assert(m as int * pow10((k + 1) as nat) > u64::MAX as int);
                        lemma_shifted_mono(m as int, (k + 1) as nat, shift as nat);
                    }
                    return Err(NumError::Overflow);
                }
                proof {
                    let p = pow10(k as nat);
                    assert(pow10((k + 1) as nat) == 10 * p);
                    assert(m as int * (10 * p) == 10 * (m as int * p)) by (nonlinear_arith);
                }
                acc = acc * 10;
                k += 1;
            }
            Ok(Decimal { neg, mantissa: acc, scale: 0 })
        }
    } else {
        Ok(Decimal { neg, mantissa: m, scale: sc - (ev as usize) })
    }
}

/// Parses a decimal field: an optional sign, digits with at most one decimal
/// point and at least one digit, and an optional `e`/`E` exponent, which is
/// folded into the mantissa and scale.  The non-numeric forms a float parser
/// would also accept (`inf`, `NaN`) are rejected: the exact decimal model
/// cannot hold them.
pub fn parse_decimal(s: &str) -> (r: Result<Decimal, NumError>)
    ensures
        match (r, spec_parse_decimal(s@)) {
            (Ok(dec), Ok((neg, m, sc))) => dec.neg == neg && dec.mantissa as int == m
                && dec.scale as int == sc,
            (Err(e), Err(se)) => e == se,
            _ => false,
        },
{
    let n = s.unicode_len();
    let mut neg = false;
    let mut start: usize = 0;
    if n > 0 {
        let c0 = s.get_char(0);
        if c0 == '-' {
            neg = true;
            start = 1;
        } else if c0 == '+' {
            start = 1;
        }
    }
    let d = s.substring_char(start, n);
    proof {
        assert(d@ =~= strip_sign(s@).1);
        assert(neg == strip_sign(s@).0);
    }
    let dn = d.unicode_len();
    let mut ep: usize = 0;
    while ep < dn && !is_exp_char(d.get_char(ep))
        invariant
            ep <= dn,
            dn == d@.len(),
            forall|j: int| 0 <= j < ep ==> !is_exp_mark(d@[j]),
        decreases dn - ep,
    {
        ep += 1;
    }
    proof {
        lemma_exp_pos_unique(d@, ep as int);
    }
    if ep == dn {
        match parse_base(d) {
            Ok((m, sc)) => Ok(Decimal { neg, mantissa: m, scale: sc }),
            Err(e) => Err(e),
        }
    } else {
        let base = d.substring_char(0, ep);
        let expstr = d.substring_char(ep + 1, dn);
        proof {
            assert(base@ =~= d@.subrange(0, ep as int));
            assert(expstr@ =~= d@.subrange(ep as int + 1, dn as int));
        }
        let en = expstr.unicode_len();
        let mut eneg = false;
        let mut es: usize = 0;
        if en > 0 {
            let c = expstr.get_char(0);
            if c == '-' {
                eneg = true;
                es = 1;
            } else if c == '+' {
                es = 1;
            }
        }
        let ed = expstr.substring_char(es, en);
        proof {
            assert(ed@ =~= strip_sign(expstr@).1);
            assert(eneg == strip_sign(expstr@).0);
        }
        match parse_base(base) {
            Ok((m, sc)) => match parse_digits(ed) {
                Ok(ev) => apply_exponent(neg, m, sc, eneg, ev),
                Err(e) => Err(e),
            },
            Err(e) => Err(e),
        }
    }
}

/// Parses a `speed` value, first removing the trailing unit character that
/// ffmpeg appends (`1.02x`).
pub fn parse_speed(v: &str) -> (r: Result<Decimal, NumError>)
    ensures
        match (r, spec_parse_speed(v@)) {
            (Ok(dec), Ok((neg, m, sc))) => dec.neg == neg && dec.mantissa as int == m
                && dec.scale as int == sc,
            (Err(e), Err(se)) => e == se,
            _ => false,
        },
{
    let n = v.unicode_len();
    if n == 0 {
        Err(NumError::Empty)
    } else {
        parse_decimal(v.substring_char(0, n - 1))
    }
}

/// The character for one decimal digit.
pub open spec fn digit_char(d: int) -> char {
    if d == 0 {
        '0'
    } else if d == 1 {
        '1'
    } else if d == 2 {
        '2'
    } else if d == 3 {
        '3'
    } else if d == 4 {
        '4'
    } else if d == 5 {
        '5'
    } else if d == 6 {
        '6'
    } else if d == 7 {
        '7'
    } else if d == 8 {
        '8'
    } else {
        '9'
    }
}

/// The decimal rendering of a non-negative number, no leading zeros except
/// for the number zero itself.
pub open spec fn dec_str(n: int) -> Seq<char>
    decreases n,
{
    if n < 10 {
        seq![digit_char(n)]
    } else {
        dec_str(n / 10).push(digit_char(n % 10))
    }
}

fn digit_str(d: u8) -> (r: &'static str)
    requires
        d < 10,
    ensures
        r@ == seq![digit_char(d as int)],
{
    if d == 0 {
        proof {
            reveal_strlit("0");
            assert("0"@ =~= seq![digit_char(0)]);
        }
        "0"
    } else if d == 1 {
        proof {
            reveal_strlit("1");
            assert("1"@ =~= seq![digit_char(1)]);
        }
        "1"
    } else if d == 2 {
        proof {
            reveal_strlit("2");
            assert("2"@ =~= seq![digit_char(2)]);
        }
        "2"
    } else if d == 3 {
        proof {
            reveal_strlit("3");
            assert("3"@ =~= seq![digit_char(3)]);
        }
        "3"
    } else if d == 4 {
        proof {
            reveal_strlit("4");
            assert("4"@ =~= seq![digit_char(4)]);
        }
        "4"
    } else if d == 5 {
        proof {
            reveal_strlit("5");
            assert("5"@ =~= seq![digit_char(5)]);
        }
        "5"
    } else if d == 6 {
        proof {
            reveal_strlit("6");
            assert("6"@ =~= seq![digit_char(6)]);
        }
        "6"
    } else if d == 7 {
        proof {
            reveal_strlit("7");
            assert("7"@ =~= seq![digit_char(7)]);
        }
        "7"
    } else if d == 8 {
        proof {
            reveal_strlit("8");
            assert("8"@ =~= seq![digit_char(8)]);
        }
        "8"
    } else {
        proof {
            reveal_strlit("9");
            assert("9"@ =~= seq![digit_char(9)]);
        }
        "9"
    }
}

/// Renders a port number in decimal.
pub fn dec_of_u16(n: u16) -> (r: String)
    ensures
        r@ == dec_str(n as int),
    decreases n,
{
    if n < 10 {
        String::from_str(digit_str(n as u8))
    } else {
        let mut s = dec_of_u16(n / 10);
        s.append(digit_str((n % 10) as u8));
        proof {
            assert(dec_str((n / 10) as int).push(digit_char((n % 10) as int)) =~= dec_str(
                (n / 10) as int,
            ) + seq![digit_char((n % 10) as int)]);
        }
        s
    }
}

} // verus!
