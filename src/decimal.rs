//! Exact fixed-point numbers: a decimal value is `mantissa / 10^scale`.
//!
//! Meter values are read from decimal text and never pass through binary
//! floating point: up to six digits after the point, what the meter reported
//! is kept digit for digit; further digits are rounded half away from zero.
use vstd::prelude::*;
use crate::text::first_index;

verus! {

/// Parsed values keep at most this many digits after the point.
pub const MAX_FRACTION_DIGITS: u32 = 6;

/// Bound on a parsed value counted in millionths: `|value| < 10^24`.
pub const PARSE_LIMIT: i128 = 1_000_000_000_000_000_000_000_000_000_000;

/// Bound on a factor of a power product counted in millionths:
/// `|value| < 10^6`.
pub const FACTOR_LIMIT: i128 = 1_000_000_000_000;

/// Bound on a value counted in millionths: `|value| * 10^6 <= MICROS_LIMIT`.
pub const MICROS_LIMIT: i128 = 1_000_000_000_000_000_000_000_000_000_000_000_000;

/// The number `mantissa / 10^scale`.
#[derive(Clone, Copy, Debug, PartialEq, Eq, Structural)]
pub struct Decimal {
    pub mantissa: i128,
    pub scale: u32,
}

pub open spec fn pow10(n: nat) -> int
    decreases n,
{
    if n == 0 {
        1
    } else {
        10 * pow10((n - 1) as nat)
    }
}

pub open spec fn is_digit(c: char) -> bool {
    '0' <= c && c <= '9'
}

pub open spec fn all_digits(s: Seq<char>) -> bool {
    forall|i: int| 0 <= i < s.len() ==> is_digit(#[trigger] s[i])
}

pub open spec fn digit_value(c: char) -> int {
    c as int - '0' as int
}

/// The number that the decimal digits `s` spell.
pub open spec fn digits_value(s: Seq<char>) -> int
    decreases s.len(),
{
    if s.len() == 0 {
        0
    } else {
        digits_value(s.drop_last()) * 10 + digit_value(s.last())
    }
}

/// Digits with at most one point among them, and at least one digit:
/// the mantissa and the number of digits after the point.
pub open spec fn unsigned_value(s: Seq<char>) -> Option<(int, nat)> {
    match first_index(s, '.') {
        None => if s.len() > 0 && all_digits(s) {
            Some((digits_value(s), 0))
        } else {
            None
        },
        Some(k) => {
            let ip = s.take(k as int);
            let fp = s.skip(k as int + 1);
            if s.len() > 1 && all_digits(ip) && all_digits(fp) {
                Some((digits_value(ip + fp), fp.len()))
            } else {
                None
            }
        },
    }
}

/// As `unsigned_value`, after an optional sign.
pub open spec fn signed_value(s: Seq<char>) -> Option<(int, nat)> {
    if s.len() > 0 && s[0] == '-' {
        match unsigned_value(s.skip(1)) {
            Some((m, k)) => Some((-m, k)),
            None => None,
        }
    } else if s.len() > 0 && s[0] == '+' {
        unsigned_value(s.skip(1))
    } else {
        unsigned_value(s)
    }
}

/// The mantissa and scale kept of the exact value `m / 10^k`: as they are
/// with at most six digits after the point, else rounded half away from
/// zero to six.
pub open spec fn rounded(m: int, k: nat) -> (int, nat) {
    if k <= MAX_FRACTION_DIGITS {
        (m, k)
    } else {
        (round_div(m, pow10((k - MAX_FRACTION_DIGITS) as nat)), MAX_FRACTION_DIGITS as nat)
    }
}

/// The decimal that the text `s` spells, rounded to at most six digits after
/// the point, where its magnitude is below `10^24`.
pub open spec fn decimal_of(s: Seq<char>) -> Option<Decimal> {
    match signed_value(s) {
        Some((m, k)) => {
            let (r, f) = rounded(m, k);
            if -PARSE_LIMIT < r * pow10((MAX_FRACTION_DIGITS - f) as nat) < PARSE_LIMIT {
                Some(Decimal { mantissa: r as i128, scale: f as u32 })
            } else {
                None
            }
        },
        None => None,
    }
}

/// A value that parsing can produce.
pub open spec fn is_parsed(d: Decimal) -> bool {
    d.scale <= MAX_FRACTION_DIGITS && -PARSE_LIMIT < micros(d) < PARSE_LIMIT
}

/// A value that can be a factor of a power product.
pub open spec fn is_factor(d: Decimal) -> bool {
    d.scale <= MAX_FRACTION_DIGITS && -FACTOR_LIMIT < micros(d) < FACTOR_LIMIT
}

/// The value counted in millionths.
pub open spec fn micros(d: Decimal) -> int {
    d.mantissa * pow10((MAX_FRACTION_DIGITS - d.scale) as nat)
}

/// A value on which power sums can be formed without overflow.
pub open spec fn is_bounded(d: Decimal) -> bool {
    d.scale <= MAX_FRACTION_DIGITS && -MICROS_LIMIT <= micros(d) <= MICROS_LIMIT
}

/// `n / d` rounded to the nearest integer, halves away from zero.
pub open spec fn round_div(n: int, d: int) -> int {
    if n >= 0 {
        (2 * n + d) / (2 * d)
    } else {
        -((2 * -n + d) / (2 * d))
    }
}

/// `v * i * pf` in hundredths, rounded half away from zero.
pub open spec fn product_cents(v: Decimal, i: Decimal, pf: Decimal) -> int {
    round_div(micros(v) * micros(i) * micros(pf), pow10(16))
}

/// `a + b + c` in hundredths, rounded half away from zero.
pub open spec fn sum_cents(a: Decimal, b: Decimal, c: Decimal) -> int {
    round_div(micros(a) + micros(b) + micros(c), pow10(4))
}

pub proof fn lemma_pow10_positive(n: nat)
    ensures
        pow10(n) >= 1,
    decreases n,
{
    if n > 0 {
        lemma_pow10_positive((n - 1) as nat);
    }
}

pub proof fn lemma_pow10_add(a: nat, b: nat)
    ensures
        pow10(a + b) == pow10(a) * pow10(b),
    decreases b,
{
    if b > 0 {
        lemma_pow10_add(a, (b - 1) as nat);
        assert(pow10(a + b) == 10 * pow10((a + b - 1) as nat));
        assert(pow10(a) * pow10(b) == pow10(a) * (10 * pow10((b - 1) as nat)));
        assert(pow10(a) * (10 * pow10((b - 1) as nat)) == 10 * (pow10(a) * pow10(
            (b - 1) as nat,
        ))) by (nonlinear_arith);
    }
}

pub proof fn lemma_pow10_monotone(a: nat, b: nat)
    requires
        a <= b,
    ensures
        pow10(a) <= pow10(b),
    decreases b,
{
    if a < b {
        lemma_pow10_monotone(a, (b - 1) as nat);
        lemma_pow10_positive((b - 1) as nat);
    }
}

pub proof fn lemma_digits_nonneg(s: Seq<char>)
    requires
        all_digits(s),
    ensures
        digits_value(s) >= 0,
    decreases s.len(),
{
    if s.len() > 0 {
        assert(all_digits(s.drop_last())) by {
            assert forall|i: int| 0 <= i < s.drop_last().len() implies is_digit(
                #[trigger] s.drop_last()[i],
            ) by {
                assert(s.drop_last()[i] == s[i]);
            }
        }
        lemma_digits_nonneg(s.drop_last());
        assert(is_digit(s[s.len() - 1]));
    }
}

pub proof fn lemma_digits_concat(x: Seq<char>, y: Seq<char>)
    ensures
        digits_value(x + y) == digits_value(x) * pow10(y.len()) + digits_value(y),
    decreases y.len(),
{
    if y.len() == 0 {
        assert(x + y =~= x);
        assert(digits_value(y) == 0);
        assert(pow10(y.len()) == 1);
        assert(digits_value(x) * 1 == digits_value(x));
    } else {
        let y0 = y.drop_last();
        assert((x + y).drop_last() =~= x + y0);
        assert((x + y).last() == y.last());
        lemma_digits_concat(x, y0);
        let a = digits_value(x);
        let p = pow10(y0.len());
        let v0 = digits_value(y0);
        let d = digit_value(y.last());
        assert(digits_value(x + y) == digits_value(x + y0) * 10 + d);
        assert(digits_value(y) == v0 * 10 + d);
        assert(pow10(y.len()) == 10 * p);
        assert((a * p + v0) * 10 == a * (10 * p) + v0 * 10) by (nonlinear_arith);
        assert(digits_value(x + y) == a * pow10(y.len()) + digits_value(y));
    }
}

pub proof fn lemma_all_digits_concat(x: Seq<char>, y: Seq<char>)
    requires
        all_digits(x),
        all_digits(y),
    ensures
        all_digits(x + y),
{
    assert forall|i: int| 0 <= i < (x + y).len() implies is_digit(#[trigger] (x + y)[i]) by {
        if i < x.len() {
            assert((x + y)[i] == x[i]);
        } else {
            assert((x + y)[i] == y[i - x.len()]);
        }
    }
}

/// A prefix of a digit string spells no larger a number.
pub proof fn lemma_digits_prefix(y: Seq<char>, n: int)
    requires
        all_digits(y),
        0 <= n <= y.len(),
    ensures
        digits_value(y.take(n)) <= digits_value(y),
{
    let a = y.take(n);
    let b = y.skip(n);
    assert(a + b =~= y);
    lemma_digits_concat(a, b);
    assert(all_digits(a)) by {
        assert forall|i: int| 0 <= i < a.len() implies is_digit(#[trigger] a[i]) by {
            assert(a[i] == y[i]);
        }
    }
    assert(all_digits(b)) by {
        assert forall|i: int| 0 <= i < b.len() implies is_digit(#[trigger] b[i]) by {
            assert(b[i] == y[i + n]);
        }
    }
    lemma_digits_nonneg(a);
    lemma_digits_nonneg(b);
    lemma_pow10_positive(b.len());
    let va = digits_value(a);
    let p = pow10(b.len());
    assert(va * p >= va) by (nonlinear_arith)
        requires
            va >= 0,
            p >= 1,
    ;
}

pub proof fn lemma_pow10_36()
    ensures
        pow10(36) == 1_000_000_000_000_000_000_000_000_000_000_000_000,
        pow10(24) == 1_000_000_000_000_000_000_000_000,
        pow10(16) == 10_000_000_000_000_000,
        pow10(6) == 1_000_000,
        pow10(4) == 10_000,
{
    reveal_with_fuel(pow10, 37);
}

/// 10 to the power `n`.
pub fn pow10_exec(n: u32) -> (r: i128)
    requires
        n <= 36,
    ensures
        r == pow10(n as nat),
{
    let mut r: i128 = 1;
    let mut i: u32 = 0;
    while i < n
        invariant
            i <= n <= 36,
            r == pow10(i as nat),
        decreases n - i,
    {
        proof {
            lemma_pow10_monotone((i + 1) as nat, 36);
            lemma_pow10_36();
            assert(pow10((i + 1) as nat) == 10 * pow10(i as nat));
            assert(pow10((i + 1) as nat) <= pow10(36));
            assert(r * 10 <= 1_000_000_000_000_000_000_000_000_000_000_000_000);
            assert(r >= 0) by { lemma_pow10_positive(i as nat); }
        }
        r = r * 10;
        i = i + 1;
    }
    r
}

/// Digits spell a number below 10 to the power of their count.
pub proof fn lemma_digits_bound(s: Seq<char>)
    requires
        all_digits(s),
    ensures
        0 <= digits_value(s) < pow10(s.len()),
    decreases s.len(),
{
    if s.len() > 0 {
        let s0 = s.drop_last();
        assert(all_digits(s0)) by {
            assert forall|i: int| 0 <= i < s0.len() implies is_digit(#[trigger] s0[i]) by {
                assert(s0[i] == s[i]);
            }
        }
        lemma_digits_bound(s0);
        assert(is_digit(s[s.len() - 1]));
        assert(pow10(s.len()) == 10 * pow10(s0.len()));
    }
}

proof fn lemma_sub_digits(s: Seq<char>, lo: int, hi: int)
    requires
        0 <= lo <= hi <= s.len(),
        all_digits(s.subrange(lo, hi)),
    ensures
        forall|i: int| lo <= i < hi ==> is_digit(#[trigger] s[i]),
{
    assert forall|i: int| lo <= i < hi implies is_digit(#[trigger] s[i]) by {
        assert(s.subrange(lo, hi)[i - lo] == s[i]);
    }
}

/// Whether `s[lo..hi]` are all digits.
fn all_digits_exec(s: &[char], lo: usize, hi: usize) -> (r: bool)
    requires
        lo <= hi <= s.len(),
    ensures
        r == all_digits(s@.subrange(lo as int, hi as int)),
{
    let mut i: usize = lo;
    while i < hi
        invariant
            lo <= i <= hi <= s.len(),
            forall|j: int| lo <= j < i ==> is_digit(#[trigger] s@[j]),
        decreases hi - i,
    {
        if !('0' <= s[i] && s[i] <= '9') {
            assert(s@.subrange(lo as int, hi as int)[i - lo] == s@[i as int]);
            return false;
        }
        i = i + 1;
    }
    assert forall|j: int| 0 <= j < hi - lo implies is_digit(
        #[trigger] s@.subrange(lo as int, hi as int)[j],
    ) by {
        assert(s@.subrange(lo as int, hi as int)[j] == s@[lo + j]);
    }
    true
}

/// The number that the digits `s[lo..hi]` spell, where it is below `10^24`.
fn digits_exec(s: &[char], lo: usize, hi: usize) -> (r: Option<i128>)
    requires
        lo <= hi <= s.len(),
        all_digits(s@.subrange(lo as int, hi as int)),
    ensures
        match r {
            Some(x) => x == digits_value(s@.subrange(lo as int, hi as int)) && 0 <= x
                < 1_000_000_000_000_000_000_000_000,
            None => digits_value(s@.subrange(lo as int, hi as int))
                >= 1_000_000_000_000_000_000_000_000,
        },
{
    let ghost all = s@.subrange(lo as int, hi as int);
    proof {
        lemma_sub_digits(s@, lo as int, hi as int);
    }
    let mut x: i128 = 0;
    let mut i: usize = lo;
    assert(s@.subrange(lo as int, lo as int) =~= Seq::<char>::empty());
    while i < hi
        invariant
            lo <= i <= hi <= s.len(),
            all == s@.subrange(lo as int, hi as int),
            all_digits(all),
            forall|j: int| lo <= j < hi ==> is_digit(#[trigger] s@[j]),
            x == digits_value(s@.subrange(lo as int, i as int)),
            0 <= x < 1_000_000_000_000_000_000_000_000,
        decreases hi - i,
    {
        let d = (s[i] as u32 - '0' as u32) as i128;
        let ghost cur = s@.subrange(lo as int, i + 1);
        proof {
            assert(is_digit(s@[i as int]));
            assert(cur.drop_last() =~= s@.subrange(lo as int, i as int));
            assert(cur.last() == s@[i as int]);
        }
        let y = x * 10 + d;
        if y >= 1_000_000_000_000_000_000_000_000 {
            proof {
                assert(all.take(i + 1 - lo) =~= cur);
                lemma_digits_prefix(all, i + 1 - lo);
            }
            return None;
        }
        x = y;
        i = i + 1;
    }
    Some(x)
}

/// `round_div(a * d + t, d)` for a remainder `t`: one more than `a` exactly
/// where `t` is at least half of `d`.
proof fn lemma_round_tail(a: int, t: int, d: int)
    requires
        a >= 0,
        d >= 1,
        0 <= t < d,
    ensures
        round_div(a * d + t, d) == if 2 * t >= d {
            a + 1
        } else {
            a
        },
{
    let n = a * d + t;
    assert(n >= 0) by (nonlinear_arith)
        requires
            a >= 0,
            d >= 1,
            t >= 0,
            n == a * d + t,
    ;
    if 2 * t >= d {
        assert(2 * n + d == (a + 1) * (2 * d) + (2 * t - d)) by (nonlinear_arith)
            requires
                n == a * d + t,
        ;
        vstd::arithmetic::div_mod::lemma_fundamental_div_mod_converse(
            2 * n + d,
            2 * d,
            a + 1,
            2 * t - d,
        );
    } else {
        assert(2 * n + d == a * (2 * d) + (2 * t + d)) by (nonlinear_arith)
            requires
                n == a * d + t,
        ;
        vstd::arithmetic::div_mod::lemma_fundamental_div_mod_converse(2 * n + d, 2 * d, a, 2 * t + d);
    }
}

/// The value kept of `ip.fp`: the integer digits, the first `f` (at most
/// six) fraction digits, and one more in the last place where the first
/// dropped digit is 5 or more.
proof fn lemma_kept_value(ip: Seq<char>, fp: Seq<char>, f: nat, up: bool)
    requires
        all_digits(ip),
        all_digits(fp),
        f == if fp.len() <= 6 {
            fp.len()
        } else {
            6
        },
        up == (fp.len() > 6 && fp[6] >= '5'),
    ensures
        rounded(digits_value(ip + fp), fp.len()) == (
            digits_value(ip) * pow10(f) + digits_value(fp.take(f as int)) + if up {
                1int
            } else {
                0
            },
            f,
        ),
        digits_value(fp.take(f as int)) >= 0,
{
    let fp6 = fp.take(f as int);
    assert(all_digits(fp6)) by {
        assert forall|i: int| 0 <= i < fp6.len() implies is_digit(#[trigger] fp6[i]) by {
            assert(fp6[i] == fp[i]);
        }
    }
    lemma_digits_nonneg(fp6);
    lemma_digits_nonneg(ip);
    lemma_digits_concat(ip, fp);
    let mm = digits_value(ip + fp);
    let kk = fp.len();
    let iv = digits_value(ip);
    let fv = digits_value(fp);
    let frac = digits_value(fp6);
    if kk <= 6 {
        assert(fp6 =~= fp);
    } else {
        let d = pow10((kk - 6) as nat);
        lemma_pow10_add(6, (kk - 6) as nat);
        lemma_pow10_positive((kk - 6) as nat);
        reveal_with_fuel(pow10, 7);
        let fr = fp.skip(6);
        assert(fp6 + fr =~= fp);
        lemma_digits_concat(fp6, fr);
        assert(all_digits(fr)) by {
            assert forall|i: int| 0 <= i < fr.len() implies is_digit(#[trigger] fr[i]) by {
                assert(fr[i] == fp[i + 6]);
            }
        }
        lemma_digits_bound(fr);
        let a = iv * 1_000_000 + frac;
        let t = digits_value(fr);
        assert(mm == a * d + t) by (nonlinear_arith)
            requires
                mm == iv * pow10(kk) + fv,
                pow10(kk) == 1_000_000 * d,
                fv == frac * d + t,
                a == iv * 1_000_000 + frac,
        ;
        assert(a >= 0) by (nonlinear_arith)
            requires
                iv >= 0,
                frac >= 0,
                a == iv * 1_000_000 + frac,
        ;
        lemma_round_tail(a, t, d);
        let first = fr.take(1);
        let rest = fr.skip(1);
        assert(first + rest =~= fr);
        lemma_digits_concat(first, rest);
        assert(all_digits(rest)) by {
            assert forall|i: int| 0 <= i < rest.len() implies is_digit(#[trigger] rest[i]) by {
                assert(rest[i] == fr[i + 1]);
            }
        }
        lemma_digits_bound(rest);
        assert(first.drop_last() =~= Seq::<char>::empty());
        assert(first.last() == fr[0]);
        assert(digits_value(Seq::<char>::empty()) == 0);
        assert(digits_value(first) == digit_value(fr[0]));
        assert(fr[0] == fp[6]);
        assert(is_digit(fr[0]));
        let g = pow10(rest.len());
        assert(d == 10 * g);
        let t1 = digit_value(fr[0]);
        assert(t == t1 * g + digits_value(rest));
        assert((2 * t >= d) == (t1 >= 5)) by (nonlinear_arith)
            requires
                t == t1 * g + digits_value(rest),
                0 <= digits_value(rest) < g,
                d == 10 * g,
                0 <= t1 <= 9,
        ;
    }
}

/// The kept value, counted in millionths, is at least the integer part's.
proof fn lemma_kept_micros(iv: int, f: nat, frac: int, extra: int)
    requires
        iv >= 0,
        frac >= 0,
        extra >= 0,
        f <= 6,
    ensures
        (iv * pow10(f) + frac + extra) * pow10((6 - f) as nat) >= iv * 1_000_000,
{
    lemma_pow10_add(f, (6 - f) as nat);
    lemma_pow10_positive(f);
    lemma_pow10_positive((6 - f) as nat);
    reveal_with_fuel(pow10, 7);
    let q = pow10(f);
    let e = pow10((6 - f) as nat);
    assert(q * e == 1_000_000);
    assert((iv * q + frac + extra) * e >= iv * 1_000_000) by (nonlinear_arith)
        requires
            iv >= 0,
            frac >= 0,
            extra >= 0,
            e >= 1,
            q * e == 1_000_000,
    ;
}

/// The digits, with at most one point, from `start` on in `s`: the kept
/// mantissa and scale, where the value is below `10^24`.
fn parse_unsigned(s: &[char], start: usize) -> (r: Option<(i128, u32)>)
    requires
        start <= s.len(),
    ensures
        ({
            let body = s@.skip(start as int);
            match r {
                Some((m, k)) => unsigned_value(body) matches Some((mm, kk)) && rounded(mm, kk) == (
                    m as int,
                    k as nat,
                ) && k <= MAX_FRACTION_DIGITS && 0 <= m * pow10((MAX_FRACTION_DIGITS - k) as nat)
                    < PARSE_LIMIT && 0 <= m < PARSE_LIMIT,
                None => match unsigned_value(body) {
                    Some((mm, kk)) => rounded(mm, kk).0 * pow10(
                        (MAX_FRACTION_DIGITS - rounded(mm, kk).1) as nat,
                    ) >= PARSE_LIMIT,
                    None => true,
                },
            }
        }),
{
    let b = crate::text::slice_chars(s, start, s.len());
    let ghost body = s@.skip(start as int);
    assert(b@ =~= body);
    let n = b.len();
    proof {
        lemma_pow10_36();
        reveal_with_fuel(pow10, 7);
    }
    match crate::text::find_char(&b, '.') {
        None => {
            if n == 0 || !all_digits_exec(&b, 0, n) {
                assert(b@.subrange(0, n as int) =~= body);
                return None;
            }
            assert(b@.subrange(0, n as int) =~= body);
            match digits_exec(&b, 0, n) {
                Some(x) => {
                    assert(x * pow10(6) == x * 1_000_000);
                    Some((x, 0))
                },
                None => {
                    assert(digits_value(body) * pow10(6) >= PARSE_LIMIT) by (nonlinear_arith)
                        requires
                            digits_value(body) >= 1_000_000_000_000_000_000_000_000,
                            pow10(6) == 1_000_000,
                    ;
                    None
                },
            }
        },
        Some(k) => {
            let ghost ip = body.take(k as int);
            let ghost fp = body.skip(k as int + 1);
            assert(b@.subrange(0, k as int) =~= ip);
            assert(b@.subrange(k + 1, n as int) =~= fp);
            if n <= 1 || !all_digits_exec(&b, 0, k) || !all_digits_exec(&b, k + 1, n) {
                return None;
            }
            let fl = n - k - 1;
            let f: usize = if fl <= 6 {
                fl
            } else {
                6
            };
            let ghost fp6 = fp.take(f as int);
            assert(b@.subrange(k + 1, k + 1 + f) =~= fp6);
            let up = fl > 6 && b[k + 7] >= '5';
            proof {
                if fl > 6 {
                    assert(fp[6] == b@[k + 7]);
                }
                lemma_kept_value(ip, fp, f as nat, up);
                assert(all_digits(fp6)) by {
                    assert forall|i: int| 0 <= i < fp6.len() implies is_digit(#[trigger] fp6[i]) by {
                        assert(fp6[i] == fp[i]);
                    }
                }
                lemma_digits_bound(fp6);
                lemma_pow10_monotone(f as nat, 6);
                lemma_pow10_monotone(f as nat, 24);
                lemma_digits_nonneg(ip);
            }
            let frac = match digits_exec(&b, k + 1, k + 1 + f) {
                Some(x) => x,
                None => {
                    return None;
                },
            };
            let iv = match digits_exec(&b, 0, k) {
                Some(x) => x,
                None => {
                    proof {
                        lemma_kept_micros(digits_value(ip), f as nat, frac as int, if up {
                            1int
                        } else {
                            0
                        });
                    }
                    return None;
                },
            };
            let p = pow10_exec(f as u32);
            proof {
                assert(iv * p <= 1_000_000_000_000_000_000_000_000 * 1_000_000) by (nonlinear_arith)
                    requires
                        0 <= iv < 1_000_000_000_000_000_000_000_000,
                        1 <= p <= 1_000_000,
                ;
            }
            let m = iv * p + frac + if up {
                1
            } else {
                0
            };
            let e = pow10_exec(6 - f as u32);
            proof {
                lemma_pow10_monotone((6 - f) as nat, 6);
                lemma_pow10_positive((6 - f) as nat);
                assert(m * e <= 2_000_000_000_000_000_000_000_000_000_000_000_000) by (nonlinear_arith)
                    requires
                        0 <= m <= 1_000_000_000_000_000_000_000_000 * 1_000_000 + 1_000_000,
                        1 <= e <= 1_000_000,
                ;
            }
            if m * e >= PARSE_LIMIT {
                return None;
            }
            proof {
                assert(m < PARSE_LIMIT) by (nonlinear_arith)
                    requires
                        0 <= m,
                        m * e < PARSE_LIMIT,
                        e >= 1,
                ;
            }
            Some((m, f as u32))
        },
    }
}

/// The decimal that `s` spells, if it is a well-formed decimal number
/// (optional sign, digits with at most one point), rounded to at most six
/// digits after the point, where its magnitude is below `10^24`.
pub fn parse_decimal(s: &[char]) -> (r: Option<Decimal>)
    ensures
        r == decimal_of(s@),
        r matches Some(d) ==> is_parsed(d),
{
    proof {
        lemma_decimal_of_parsed(s@);
    }
    let neg = s.len() > 0 && s[0] == '-';
    let start: usize = if s.len() > 0 && (s[0] == '-' || s[0] == '+') {
        1
    } else {
        0
    };
    proof {
        if start == 0 {
            assert(s@.skip(0) =~= s@);
        }
    }
    match parse_unsigned(s, start) {
        Some((m, k)) => {
            if neg {
                proof {
                    lemma_rounded_negated(s@.skip(1));
                    let e = pow10((MAX_FRACTION_DIGITS - k) as nat);
                    assert((-m) * e == -(m * e)) by (nonlinear_arith);
                }
                Some(Decimal { mantissa: -m, scale: k })
            } else {
                Some(Decimal { mantissa: m, scale: k })
            }
        },
        None => {
            proof {
                if neg {
                    lemma_rounded_negated(s@.skip(1));
                    if let Some((mm, kk)) = unsigned_value(s@.skip(1)) {
                        let r = rounded(mm, kk).0;
                        let e = pow10((MAX_FRACTION_DIGITS - rounded(mm, kk).1) as nat);
                        assert((-r) * e == -(r * e)) by (nonlinear_arith);
                    }
                }
            }
            None
        },
    }
}

/// Rounding is symmetric about zero.
proof fn lemma_rounded_negated(body: Seq<char>)
    ensures
        unsigned_value(body) matches Some((mm, kk)) ==> {
            &&& rounded(-mm, kk).0 == -rounded(mm, kk).0
            &&& rounded(-mm, kk).1 == rounded(mm, kk).1
        },
{
    if let Some((mm, kk)) = unsigned_value(body) {
        if kk > MAX_FRACTION_DIGITS {
            let d = pow10((kk - MAX_FRACTION_DIGITS) as nat);
            lemma_pow10_positive((kk - MAX_FRACTION_DIGITS) as nat);
            lemma_unsigned_nonneg(body);
            if mm == 0 {
                assert(round_div(0, d) == 0) by {
                    vstd::arithmetic::div_mod::lemma_small_div_converse(d, 2 * d);
                    assert(d / (2 * d) == 0) by {
                        vstd::arithmetic::div_mod::lemma_basic_div(d, 2 * d);
                    }
                }
            }
        }
    }
}

proof fn lemma_unsigned_nonneg(body: Seq<char>)
    ensures
        unsigned_value(body) matches Some((mm, kk)) ==> mm >= 0,
{
    if let Some((mm, kk)) = unsigned_value(body) {
        match first_index(body, '.') {
            None => lemma_digits_nonneg(body),
            Some(k) => {
                lemma_all_digits_concat(body.take(k as int), body.skip(k as int + 1));
                lemma_digits_nonneg(body.take(k as int) + body.skip(k as int + 1));
            },
        }
    }
}

proof fn lemma_round_div_bound(n: int, d: int)
    requires
        d >= 1,
    ensures
        n >= 0 ==> 0 <= round_div(n, d) <= n,
        n < 0 ==> n <= round_div(n, d) <= 0,
{
    let a = if n >= 0 {
        n
    } else {
        -n
    };
    let q = (2 * a + d) / (2 * d);
    let r = (2 * a + d) % (2 * d);
    vstd::arithmetic::div_mod::lemma_fundamental_div_mod(2 * a + d, 2 * d);
    vstd::arithmetic::div_mod::lemma_mod_pos_bound(2 * a + d, 2 * d);
    assert(0 <= q <= a) by (nonlinear_arith)
        requires
            2 * a + d == 2 * d * q + r,
            0 <= r < 2 * d,
            d >= 1,
            a >= 0,
    ;
}

pub proof fn lemma_parsed_is_bounded(d: Decimal)
    requires
        is_parsed(d),
    ensures
        is_bounded(d),
{
}

/// A power in hundredths that `product_cents` can produce is within bounds.
pub proof fn lemma_cents_are_bounded(c: int)
    requires
        -100_000_000_000_000_000_000 <= c <= 100_000_000_000_000_000_000,
    ensures
        is_bounded(Decimal { mantissa: c as i128, scale: 2 }),
{
    lemma_pow10_36();
    let d = Decimal { mantissa: c as i128, scale: 2 };
    assert(d.mantissa == c);
    assert(micros(d) == c * 10_000);
}

/// `n / d` rounded to the nearest integer, halves away from zero.
fn round_div_exec(n: i128, d: i128) -> (r: i128)
    requires
        1 <= d <= MICROS_LIMIT,
        -4 * MICROS_LIMIT <= n <= 4 * MICROS_LIMIT,
    ensures
        r == round_div(n as int, d as int),
{
    proof {
        lemma_round_div_bound(n as int, d as int);
    }
    if n >= 0 {
        (2 * n + d) / (2 * d)
    } else {
        let a = -n;
        -((2 * a + d) / (2 * d))
    }
}

/// `v * i * pf` in hundredths, rounded half away from zero.
pub fn product_cents_exec(v: Decimal, i: Decimal, pf: Decimal) -> (r: i128)
    requires
        is_factor(v),
        is_factor(i),
        is_factor(pf),
    ensures
        r == product_cents(v, i, pf),
        -100_000_000_000_000_000_000 <= r <= 100_000_000_000_000_000_000,
{
    let a = micros_exec(v);
    let b = micros_exec(i);
    let c = micros_exec(pf);
    assert(-1_000_000_000_000_000_000_000_000 < a * b < 1_000_000_000_000_000_000_000_000)
        by (nonlinear_arith)
        requires
            -1_000_000_000_000 < a < 1_000_000_000_000,
            -1_000_000_000_000 < b < 1_000_000_000_000,
    ;
    assert(-1_000_000_000_000_000_000_000_000_000_000_000_000 < a * b * c
        < 1_000_000_000_000_000_000_000_000_000_000_000_000) by (nonlinear_arith)
        requires
            -1_000_000_000_000_000_000_000_000 < a * b < 1_000_000_000_000_000_000_000_000,
            -1_000_000_000_000 < c < 1_000_000_000_000,
    ;
    let p = a * b * c;
    proof {
        lemma_pow10_36();
        lemma_cents_of_product(p as int);
    }
    round_div_exec(p, 10_000_000_000_000_000)
}

/// A product of factors, below `10^36` in units of `10^-18`, is at most
/// `10^20` in hundredths.
proof fn lemma_cents_of_product(n: int)
    requires
        -1_000_000_000_000_000_000_000_000_000_000_000_000 < n
            < 1_000_000_000_000_000_000_000_000_000_000_000_000,
    ensures
        -100_000_000_000_000_000_000 <= round_div(n, 10_000_000_000_000_000)
            <= 100_000_000_000_000_000_000,
{
    let d = 10_000_000_000_000_000int;
    let a = if n >= 0 {
        n
    } else {
        -n
    };
    let q = (2 * a + d) / (2 * d);
    let r = (2 * a + d) % (2 * d);
    vstd::arithmetic::div_mod::lemma_fundamental_div_mod(2 * a + d, 2 * d);
    vstd::arithmetic::div_mod::lemma_mod_pos_bound(2 * a + d, 2 * d);
    assert(0 <= q <= 100_000_000_000_000_000_000) by (nonlinear_arith)
        requires
            2 * a + d == 2 * d * q + r,
            0 <= r < 2 * d,
            d == 10_000_000_000_000_000,
            0 <= a < 1_000_000_000_000_000_000_000_000_000_000_000_000,
    ;
}

/// The value counted in millionths.
pub fn micros_exec(d: Decimal) -> (r: i128)
    requires
        is_bounded(d),
    ensures
        r == micros(d),
{
    proof {
        lemma_pow10_monotone((MAX_FRACTION_DIGITS - d.scale) as nat, 36);
        lemma_pow10_36();
    }
    d.mantissa * pow10_exec(MAX_FRACTION_DIGITS - d.scale)
}

/// Whether `d` can be a factor of a power product.
pub fn is_factor_exec(d: Decimal) -> (r: bool)
    requires
        is_parsed(d),
    ensures
        r == is_factor(d),
{
    let u = micros_exec(d);
    -FACTOR_LIMIT < u && u < FACTOR_LIMIT
}

/// `a + b + c` in hundredths, rounded half away from zero.
pub fn sum_cents_exec(a: Decimal, b: Decimal, c: Decimal) -> (r: i128)
    requires
        is_bounded(a),
        is_bounded(b),
        is_bounded(c),
    ensures
        r == sum_cents(a, b, c),
{
    let n = micros_exec(a) + micros_exec(b) + micros_exec(c);
    proof {
        lemma_pow10_36();
    }
    round_div_exec(n, 10_000)
}

/// The character of the decimal digit `n`.
pub open spec fn digit_char(n: int) -> char {
    if n <= 0 {
        '0'
    } else if n == 1 {
        '1'
    } else if n == 2 {
        '2'
    } else if n == 3 {
        '3'
    } else if n == 4 {
        '4'
    } else if n == 5 {
        '5'
    } else if n == 6 {
        '6'
    } else if n == 7 {
        '7'
    } else if n == 8 {
        '8'
    } else {
        '9'
    }
}

/// The decimal digits of `n`, without leading zeros.
pub open spec fn digits_of(n: nat) -> Seq<char>
    decreases n,
{
    if n < 10 {
        seq![digit_char(n as int)]
    } else {
        digits_of(n / 10).push(digit_char((n % 10) as int))
    }
}

/// The last `w` decimal digits of `n`, with leading zeros.
pub open spec fn padded(n: nat, w: nat) -> Seq<char>
    decreases w,
{
    if w == 0 {
        Seq::empty()
    } else {
        padded(n / 10, (w - 1) as nat).push(digit_char((n % 10) as int))
    }
}

pub open spec fn magnitude(m: int) -> nat {
    if m < 0 {
        (-m) as nat
    } else {
        m as nat
    }
}

/// The plain decimal text of `d`: a `-` where negative, the integer digits,
/// and where the scale is positive, a point and exactly `scale` digits.
pub open spec fn decimal_text(d: Decimal) -> Seq<char> {
    let a = magnitude(d.mantissa as int) as int;
    let p = pow10(d.scale as nat);
    let sign = if d.mantissa < 0 {
        seq!['-']
    } else {
        Seq::empty()
    };
    let int_part = digits_of((a / p) as nat);
    if d.scale == 0 {
        sign + int_part
    } else {
        sign + int_part + seq!['.'] + padded((a % p) as nat, d.scale as nat)
    }
}

proof fn lemma_digit_char(n: int)
    requires
        0 <= n < 10,
    ensures
        is_digit(digit_char(n)),
        digit_value(digit_char(n)) == n,
{
}

pub proof fn lemma_digits_of(n: nat)
    ensures
        all_digits(digits_of(n)),
        digits_value(digits_of(n)) == n,
        digits_of(n).len() >= 1,
    decreases n,
{
    if n < 10 {
        lemma_digit_char(n as int);
        assert(digits_of(n).drop_last() =~= Seq::<char>::empty());
        assert(digits_value(Seq::<char>::empty()) == 0);
    } else {
        lemma_digits_of(n / 10);
        lemma_digit_char((n % 10) as int);
        let s = digits_of(n);
        assert(s.drop_last() =~= digits_of(n / 10));
        assert(s.last() == digit_char((n % 10) as int));
        vstd::arithmetic::div_mod::lemma_fundamental_div_mod(n as int, 10);
        assert(digits_value(s) == digits_value(digits_of(n / 10)) * 10 + (n % 10));
        assert forall|i: int| 0 <= i < s.len() implies is_digit(#[trigger] s[i]) by {
            if i < s.len() - 1 {
                assert(s[i] == digits_of(n / 10)[i]);
            }
        }
    }
}

pub proof fn lemma_padded(n: nat, w: nat)
    ensures
        all_digits(padded(n, w)),
        digits_value(padded(n, w)) == (n as int) % pow10(w),
        padded(n, w).len() == w,
    decreases w,
{
    if w > 0 {
        let w1 = (w - 1) as nat;
        lemma_padded(n / 10, w1);
        lemma_digit_char((n % 10) as int);
        let s = padded(n, w);
        assert(s.drop_last() =~= padded(n / 10, w1));
        assert forall|i: int| 0 <= i < s.len() implies is_digit(#[trigger] s[i]) by {
            if i < s.len() - 1 {
                assert(s[i] == padded(n / 10, w1)[i]);
            }
        }
        let p = pow10(w1);
        lemma_pow10_positive(w1);
        // (n / 10) % p * 10 + n % 10 == n % (10 * p)
        vstd::arithmetic::div_mod::lemma_mod_mod(n as int, 10, p);
        vstd::arithmetic::div_mod::lemma_breakdown(n as int, 10, p);
        assert((n as int) % (10 * p) == 10 * (((n / 10) as int) % p) + n % 10);
        assert(pow10(w) == 10 * p);
    } else {
        assert(n % 1 == 0);
    }
}

pub proof fn lemma_digits_no_char(s: Seq<char>, c: char)
    requires
        all_digits(s),
        !is_digit(c),
    ensures
        first_index(s, c) is None,
{
    assert forall|j: int| 0 <= j < s.len() implies s[j] != c by {
        assert(is_digit(s[j]));
    }
    crate::text::lemma_first_index(s, c, s.len() as int);
}

/// Reading back the text of a value gives the value itself.
pub proof fn lemma_text_round_trip(d: Decimal)
    requires
        is_parsed(d),
    ensures
        decimal_of(decimal_text(d)) == Some(d),
{
    let a = magnitude(d.mantissa as int) as int;
    let p = pow10(d.scale as nat);
    lemma_pow10_positive(d.scale as nat);
    let q = (a / p) as nat;
    let r = (a % p) as nat;
    let int_part = digits_of(q);
    lemma_digits_of(q);
    let u = if d.scale == 0 {
        int_part
    } else {
        int_part + seq!['.'] + padded(r, d.scale as nat)
    };
    vstd::arithmetic::div_mod::lemma_fundamental_div_mod(a, p);
    if d.scale == 0 {
        lemma_digits_no_char(int_part, '.');
        assert(a % 1 == 0 && a / 1 == a);
        assert(unsigned_value(u) == Some((a, 0nat)));
    } else {
        let f = padded(r, d.scale as nat);
        lemma_padded(r, d.scale as nat);
        vstd::arithmetic::div_mod::lemma_mod_pos_bound(a, p);
        vstd::arithmetic::div_mod::lemma_small_mod(r, p as nat);
        let k = int_part.len();
        assert forall|j: int| 0 <= j < k implies u[j] != '.' by {
            assert(u[j] == int_part[j]);
            assert(is_digit(int_part[j]));
        }
        assert(u[k as int] == '.');
        crate::text::lemma_first_index(u, '.', k as int);
        assert(u.take(k as int) =~= int_part);
        assert(u.skip(k as int + 1) =~= f);
        lemma_digits_concat(int_part, f);
        assert(digits_value(int_part + f) == q * p + r);
        assert(q * p + r == a) by (nonlinear_arith)
            requires
                a == p * q + r,
        ;
        assert(unsigned_value(u) == Some((a, d.scale as nat)));
    }
    let t = decimal_text(d);
    if d.mantissa < 0 {
        assert(t =~= seq!['-'] + u);
        assert(t.skip(1) =~= u);
    } else {
        assert(t =~= u);
        assert(is_digit(u[0]));
    }
}

/// What parsing yields is within the parse bounds.
pub proof fn lemma_decimal_of_parsed(s: Seq<char>)
    ensures
        decimal_of(s) matches Some(d) ==> is_parsed(d),
{
    if let Some((m, k)) = signed_value(s) {
        let (r, f) = rounded(m, k);
        let e = pow10((MAX_FRACTION_DIGITS - f) as nat);
        lemma_pow10_positive((MAX_FRACTION_DIGITS - f) as nat);
        if -PARSE_LIMIT < r * e < PARSE_LIMIT {
            assert(-PARSE_LIMIT < r < PARSE_LIMIT) by (nonlinear_arith)
                requires
                    -PARSE_LIMIT < r * e < PARSE_LIMIT,
                    e >= 1,
            ;
        }
    }
}

/// What parsing keeps of a number: the exact value where it has at most six
/// digits after the point; else the value rounded to six digits, which is
/// within half a millionth of it.
pub proof fn lemma_decimal_tolerance(s: Seq<char>)
    requires
        signed_value(s) is Some,
        decimal_of(s) is Some,
    ensures
        ({
            let (m, k) = signed_value(s).unwrap();
            let d = decimal_of(s).unwrap();
            &&& k <= MAX_FRACTION_DIGITS ==> d.mantissa == m && d.scale == k
            &&& k > MAX_FRACTION_DIGITS ==> {
                let w = pow10((k - MAX_FRACTION_DIGITS) as nat);
                &&& d.scale == MAX_FRACTION_DIGITS
                &&& -w <= 2 * (d.mantissa * w - m) <= w
            }
        }),
{
    let (m, k) = signed_value(s).unwrap();
    let (r, f) = rounded(m, k);
    let e = pow10((MAX_FRACTION_DIGITS - f) as nat);
    lemma_pow10_positive((MAX_FRACTION_DIGITS - f) as nat);
    assert(-PARSE_LIMIT < r < PARSE_LIMIT) by (nonlinear_arith)
        requires
            -PARSE_LIMIT < r * e < PARSE_LIMIT,
            e >= 1,
    ;
    if k > MAX_FRACTION_DIGITS {
        let w = pow10((k - MAX_FRACTION_DIGITS) as nat);
        lemma_pow10_positive((k - MAX_FRACTION_DIGITS) as nat);
        lemma_round_div_close(m, w);
    }
}

/// Rounding `n / d` moves it by at most a half.
proof fn lemma_round_div_close(n: int, d: int)
    requires
        d >= 1,
    ensures
        -d <= 2 * (round_div(n, d) * d - n) <= d,
{
    let a = if n >= 0 {
        n
    } else {
        -n
    };
    let q = (2 * a + d) / (2 * d);
    let r = (2 * a + d) % (2 * d);
    vstd::arithmetic::div_mod::lemma_fundamental_div_mod(2 * a + d, 2 * d);
    vstd::arithmetic::div_mod::lemma_mod_pos_bound(2 * a + d, 2 * d);
    assert(-d <= 2 * (q * d - a) <= d) by (nonlinear_arith)
        requires
            2 * a + d == 2 * d * q + r,
            0 <= r < 2 * d,
    ;
    if n < 0 {
        assert((-q) * d == -(q * d)) by (nonlinear_arith);
    }
}

/// The text of a number holds digits, a sign and a point only, ends in a
/// digit or the point, and begins without a blank.
pub proof fn lemma_number_chars(n: Seq<char>)
    requires
        signed_value(n) is Some,
    ensures
        forall|i: int| 0 <= i < n.len() ==> {
            let c = #[trigger] n[i];
            is_digit(c) || c == '-' || c == '+' || c == '.'
        },
        n.len() >= 1,
        is_digit(n.last()) || n.last() == '.',
        !crate::text::is_blank(n[0]),
{
    let signed = n.len() > 0 && (n[0] == '-' || n[0] == '+');
    let u = if signed {
        n.skip(1)
    } else {
        n
    };
    assert(unsigned_value(u) is Some);
    crate::text::lemma_first_index_found(u, '.');
    let ok_u = forall|i: int| 0 <= i < u.len() ==> {
        let c = #[trigger] u[i];
        is_digit(c) || c == '.'
    };
    match first_index(u, '.') {
        None => {
            assert(ok_u);
        },
        Some(k) => {
            let ip = u.take(k as int);
            let fp = u.skip(k as int + 1);
            assert forall|i: int| 0 <= i < u.len() implies {
                let c = #[trigger] u[i];
                is_digit(c) || c == '.'
            } by {
                if i < k {
                    assert(ip[i] == u[i]);
                } else if i > k {
                    assert(fp[i - k - 1] == u[i]);
                }
            }
            if fp.len() > 0 {
                assert(fp.last() == u.last());
            }
        },
    }
    assert(u.len() >= 1);
    if signed {
        assert forall|i: int| 0 <= i < n.len() implies {
            let c = #[trigger] n[i];
            is_digit(c) || c == '-' || c == '+' || c == '.'
        } by {
            if i > 0 {
                assert(u[i - 1] == n[i]);
            }
        }
        assert(u.last() == n.last());
    } else {
        assert(u[0] == n[0]);
    }
}

/// Appends the digits of `n` to `out`.
fn push_digits(n: u128, out: &mut Vec<char>)
    ensures
        final(out)@ == old(out)@ + digits_of(n as nat),
    decreases n,
{
    if n >= 10 {
        push_digits(n / 10, out);
    }
    out.push(digit_exec((n % 10) as u8));
    assert(final(out)@ =~= old(out)@ + digits_of(n as nat));
}

/// Appends the last `w` digits of `n`, with leading zeros, to `out`.
fn push_padded(n: u128, w: u32, out: &mut Vec<char>)
    ensures
        final(out)@ == old(out)@ + padded(n as nat, w as nat),
    decreases w,
{
    if w > 0 {
        push_padded(n / 10, w - 1, out);
        out.push(digit_exec((n % 10) as u8));
        assert(final(out)@ =~= old(out)@ + padded(n as nat, w as nat));
    } else {
        assert(final(out)@ =~= old(out)@ + padded(n as nat, w as nat));
    }
}

fn digit_exec(n: u8) -> (r: char)
    requires
        n < 10,
    ensures
        r == digit_char(n as int),
{
    match n {
        0 => '0',
        1 => '1',
        2 => '2',
        3 => '3',
        4 => '4',
        5 => '5',
        6 => '6',
        7 => '7',
        8 => '8',
        _ => '9',
    }
}

impl Decimal {
    /// The value written as plain decimal text, such as `-230.10`.
    pub fn to_text(&self) -> (r: String)
        requires
            self.scale <= 36,
        ensures
            r@ == decimal_text(*self),
    {
        let m = self.mantissa;
        let a: u128 = if m < 0 {
            ((-(m + 1)) as u128) + 1
        } else {
            m as u128
        };
        assert(a as int == magnitude(m as int));
        let p = pow10_exec(self.scale) as u128;
        proof {
            lemma_pow10_positive(self.scale as nat);
        }
        let mut out: Vec<char> = Vec::new();
        if m < 0 {
            out.push('-');
        }
        let ghost sign = out@;
        push_digits(a / p, &mut out);
        if self.scale > 0 {
            out.push('.');
            push_padded(a % p, self.scale, &mut out);
        }
        proof {
            if m < 0 {
                assert(sign =~= seq!['-']);
            } else {
                assert(sign =~= Seq::<char>::empty());
            }
            assert(out@ =~= decimal_text(*self));
        }
        crate::text::string_of(&out)
    }
}

} // verus!
