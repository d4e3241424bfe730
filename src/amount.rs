//! Money and quantities as signed fixed-point numbers in millionths, and the
//! decimal text form in which the user types them.

use vstd::prelude::*;

verus! {

/// The number of fixed-point steps in one whole unit.
pub const AMOUNT_SCALE: i64 = 1_000_000;

/// The number of digits that may follow the decimal point.
pub const FRACTION_DIGITS: usize = 6;

/// The largest exponent magnitude read; beyond it no nonzero amount fits.
pub const EXPONENT_LIMIT: u64 = 1_000_000;

/// `i64::MAX`, the largest magnitude of an amount.
pub const MAX_MAGNITUDE: u64 = 0x7fff_ffff_ffff_ffff;

pub open spec fn is_digit(c: char) -> bool {
    '0' <= c && c <= '9'
}

pub open spec fn all_digits(s: Seq<char>) -> bool {
    forall|i: int| 0 <= i < s.len() ==> is_digit(#[trigger] s[i])
}

pub open spec fn digit_value(c: char) -> int {
    c as int - '0' as int
}

/// The number that a run of decimal digits denotes.
pub open spec fn digits_value(s: Seq<char>) -> int
    decreases s.len(),
{
    if s.len() == 0 {
        0
    } else {
        digits_value(s.drop_last()) * 10 + digit_value(s.last())
    }
}

pub open spec fn pow10(n: nat) -> int
    decreases n,
{
    if n == 0 {
        1
    } else {
        10 * pow10((n - 1) as nat)
    }
}

/// The digits of a mantissa split at a decimal point into `whole` and
/// `frac`, read as one run, with the number of them after the point; at
/// least one digit in all.
pub open spec fn point_digits(whole: Seq<char>, frac: Seq<char>) -> Option<(Seq<char>, nat)> {
    if all_digits(whole) && all_digits(frac) && whole.len() + frac.len() > 0 {
        Some((whole + frac, frac.len()))
    } else {
        None
    }
}

/// The digits of a mantissa: digits, optionally a point and more digits.
pub open spec fn mantissa_digits(m: Seq<char>) -> Option<(Seq<char>, nat)> {
    if m.contains('.') {
        let k = m.index_of('.');
        point_digits(m.subrange(0, k), m.subrange(k + 1, m.len() as int))
    } else {
        point_digits(m, Seq::empty())
    }
}

/// `d * 10^shift` when it is a whole number; a zero stays zero whatever the
/// shift.
pub open spec fn scaled(d: int, shift: int) -> Option<int> {
    if d == 0 {
        Some(0)
    } else if shift >= 0 {
        Some(d * pow10(shift as nat))
    } else {
        None
    }
}

/// The value in millionths of mantissa `m` times `10^x`, when it is a whole
/// number of millionths.
pub open spec fn mantissa_amount(m: Seq<char>, x: int) -> Option<int> {
    match mantissa_digits(m) {
        Some((d, fl)) => scaled(digits_value(d), x - fl + FRACTION_DIGITS),
        None => None,
    }
}

pub open spec fn is_exponent_mark(c: char) -> bool {
    c == 'e' || c == 'E'
}

/// The exponent written after the mark: an optional sign and at least one
/// digit, of magnitude at most `EXPONENT_LIMIT`.
pub open spec fn exponent_value(e: Seq<char>) -> Option<int> {
    let negative = e.len() > 0 && e[0] == '-';
    let ds = if e.len() > 0 && (e[0] == '-' || e[0] == '+') {
        e.drop_first()
    } else {
        e
    };
    if ds.len() > 0 && all_digits(ds) && digits_value(ds) <= EXPONENT_LIMIT {
        Some(
            if negative {
                -digits_value(ds)
            } else {
                digits_value(ds)
            },
        )
    } else {
        None
    }
}

/// The value in millionths of an unsigned decimal: a mantissa, optionally
/// followed by `e` or `E` and an exponent.
pub open spec fn unsigned_amount(body: Seq<char>) -> Option<int> {
    if exists|k: int| 0 <= k < body.len() && is_exponent_mark(body[k]) {
        let k = choose|k: int| 0 <= k < body.len() && is_exponent_mark(body[k]);
        match exponent_value(body.subrange(k + 1, body.len() as int)) {
            Some(x) => mantissa_amount(body.subrange(0, k), x),
            None => None,
        }
    } else {
        mantissa_amount(body, 0)
    }
}

/// Splitting a mantissa at its first point gives the same digits as
/// splitting it at any.
proof fn lemma_first_point(m: Seq<char>, d: int)
    requires
        0 <= d < m.len(),
        m[d] == '.',
        forall|j: int| 0 <= j < d ==> m[j] != '.',
    ensures
        mantissa_digits(m) == point_digits(m.subrange(0, d), m.subrange(d + 1, m.len() as int)),
{
    assert(m.contains('.'));
    let k = m.index_of('.');
    assert(m[k] == '.');
    if k != d {
        assert(k > d);
        assert(m.subrange(0, k)[d] == '.');
        assert(!all_digits(m.subrange(0, k)));
        assert(m.subrange(d + 1, m.len() as int)[k - d - 1] == '.');
        assert(!all_digits(m.subrange(d + 1, m.len() as int)));
    }
}

/// Splitting at the first exponent mark gives the same value as splitting
/// at any.
proof fn lemma_first_mark(body: Seq<char>, k: int)
    requires
        0 <= k < body.len(),
        is_exponent_mark(body[k]),
        forall|j: int| 0 <= j < k ==> !is_exponent_mark(body[j]),
    ensures
        unsigned_amount(body) == match exponent_value(body.subrange(k + 1, body.len() as int)) {
            Some(x) => mantissa_amount(body.subrange(0, k), x),
            None => None,
        },
{
    let j = choose|j: int| 0 <= j < body.len() && is_exponent_mark(body[j]);
    if j != k {
        assert(j > k);
        let e = body.subrange(k + 1, body.len() as int);
        assert(e[j - k - 1] == body[j]);
        let ds = if e.len() > 0 && (e[0] == '-' || e[0] == '+') {
            e.drop_first()
        } else {
            e
        };
        if j - k - 1 == 0 {
            assert(!(e[0] == '-' || e[0] == '+'));
            assert(!is_digit(ds[0]));
        } else {
            assert(!is_digit(ds[j - k - 1 - (e.len() - ds.len())]));
        }
        let m = body.subrange(0, j);
        assert(m[k] == body[k]);
        if m.contains('.') {
            let p = m.index_of('.');
            assert(m[p] == '.');
            if p < k {
                assert(!is_digit(m.subrange(p + 1, m.len() as int)[k - p - 1]));
            } else {
                assert(!is_digit(m.subrange(0, p)[k]));
            }
        } else {
            assert(!is_digit(m[k]));
        }
    }
}

/// The value in millionths of a decimal text with an optional leading sign,
/// when its magnitude is at most `i64::MAX`.
pub open spec fn amount_of_text(s: Seq<char>) -> Option<int> {
    let negative = s.len() > 0 && s[0] == '-';
    let body = if s.len() > 0 && (s[0] == '-' || s[0] == '+') {
        s.drop_first()
    } else {
        s
    };
    match unsigned_amount(body) {
        Some(v) => if v <= i64::MAX {
            Some(if negative { -v } else { v })
        } else {
            None
        },
        None => None,
    }
}

proof fn lemma_digits_value_nonneg(s: Seq<char>)
    requires
        all_digits(s),
    ensures
        digits_value(s) >= 0,
    decreases s.len(),
{
    if s.len() > 0 {
        assert(all_digits(s.drop_last()));
        lemma_digits_value_nonneg(s.drop_last());
    }
}

/// A run of digits is worth at least any of its prefixes.
proof fn lemma_digits_value_prefix(s: Seq<char>, j: int)
    requires
        all_digits(s),
        0 <= j <= s.len(),
    ensures
        digits_value(s.subrange(0, j)) <= digits_value(s),
    decreases s.len(),
{
    if j < s.len() {
        assert(all_digits(s.drop_last()));
        lemma_digits_value_prefix(s.drop_last(), j);
        assert(s.drop_last().subrange(0, j) == s.subrange(0, j));
        lemma_digits_value_nonneg(s.drop_last());
        assert(is_digit(s[s.len() - 1]));
    } else {
        assert(s.subrange(0, j) == s);
    }
}

proof fn lemma_pow10_positive(n: nat)
    ensures
        pow10(n) > 0,
    decreases n,
{
    if n > 0 {
        lemma_pow10_positive((n - 1) as nat);
    }
}

proof fn lemma_pow10_add(a: nat, b: nat)
    ensures
        pow10(a) * pow10(b) == pow10(a + b),
    decreases a,
{
    if a > 0 {
        lemma_pow10_add((a - 1) as nat, b);
        assert(pow10(a) * pow10(b) == 10 * (pow10((a - 1) as nat) * pow10(b))) by (nonlinear_arith)
            requires
                pow10(a) == 10 * pow10((a - 1) as nat),
        ;
    }
}

/// Whether every character of `s` in `[lo, hi)` is a decimal digit.
pub(crate) fn digits_only(s: &str, lo: usize, hi: usize) -> (r: bool)
    requires
        lo <= hi <= s@.len(),
    ensures
        r == all_digits(s@.subrange(lo as int, hi as int)),
{
    let mut i = lo;
    while i < hi
        invariant
            lo <= i <= hi <= s@.len(),
            all_digits(s@.subrange(lo as int, i as int)),
        decreases hi - i,
    {
        let c = s.get_char(i);
        if !('0' <= c && c <= '9') {
            assert(s@.subrange(lo as int, hi as int)[i - lo] == c);
            return false;
        }
        assert(all_digits(s@.subrange(lo as int, i + 1))) by {
            assert forall|k: int| 0 <= k < i + 1 - lo implies is_digit(
                #[trigger] s@.subrange(lo as int, i + 1)[k],
            ) by {
                if k < i - lo {
                    assert(s@.subrange(lo as int, i + 1)[k] == s@.subrange(lo as int, i as int)[k]);
                }
            }
        }
        i = i + 1;
    }
    true
}

/// The number that the digits `prefix`, followed by those of `s` in
/// `[lo, hi)`, denote, when it is at most `cap`; `init` is what `prefix`
/// denotes.
fn digits_number_from(
    s: &str,
    lo: usize,
    hi: usize,
    cap: u64,
    init: u64,
    Ghost(prefix): Ghost<Seq<char>>,
) -> (r: Option<u64>)
    requires
        lo <= hi <= s@.len(),
        all_digits(s@.subrange(lo as int, hi as int)),
        all_digits(prefix),
        init == digits_value(prefix),
        init <= cap,
    ensures
        r matches Some(x) ==> x <= cap && x == digits_value(
            prefix + s@.subrange(lo as int, hi as int),
        ),
        r.is_none() ==> digits_value(prefix + s@.subrange(lo as int, hi as int)) > cap,
{
    let ghost run = s@.subrange(lo as int, hi as int);
    let ghost full = prefix + run;
    assert(all_digits(full)) by {
        assert forall|k: int| 0 <= k < full.len() implies is_digit(#[trigger] full[k]) by {
            if k >= prefix.len() {
                assert(full[k] == run[k - prefix.len()]);
            }
        }
    }
    let mut acc: u64 = init;
    let mut i = lo;
    assert(prefix + s@.subrange(lo as int, lo as int) == prefix);
    while i < hi
        invariant
            lo <= i <= hi <= s@.len(),
            run == s@.subrange(lo as int, hi as int),
            full == prefix + run,
            all_digits(full),
            acc == digits_value(prefix + s@.subrange(lo as int, i as int)),
            acc <= cap,
        decreases hi - i,
    {
        let c = s.get_char(i);
        let ghost next = prefix + s@.subrange(lo as int, i + 1);
        assert(next.drop_last() == prefix + s@.subrange(lo as int, i as int));
        assert(next.last() == c);
        assert(full[prefix.len() + i - lo] == c);
        assert(next == full.subrange(0, prefix.len() + i + 1 - lo));
        let d = (c as u32 - '0' as u32) as u64;
        if d > cap || acc > (cap - d) / 10 {
            proof {
                assert(acc * 10 + d > cap) by (nonlinear_arith)
                    requires
                        d > cap || acc > (cap - d) / 10,
                ;
                lemma_digits_value_prefix(full, prefix.len() + i + 1 - lo);
            }
            return None;
        }
        assert(acc * 10 + d <= cap) by (nonlinear_arith)
            requires
                d <= cap,
                acc <= (cap - d) / 10,
        ;
        acc = acc * 10 + d;
        i = i + 1;
    }
    assert(s@.subrange(lo as int, i as int) == run);
    Some(acc)
}

/// The number that the digits of `s` in `[lo, hi)` denote, when it is at
/// most `cap`.
pub(crate) fn digits_number(s: &str, lo: usize, hi: usize, cap: u64) -> (r: Option<u64>)
    requires
        lo <= hi <= s@.len(),
        all_digits(s@.subrange(lo as int, hi as int)),
    ensures
        r matches Some(x) ==> x <= cap && x == digits_value(s@.subrange(lo as int, hi as int)),
        r.is_none() ==> digits_value(s@.subrange(lo as int, hi as int)) > cap,
{
    let ghost empty = Seq::<char>::empty();
    assert(empty + s@.subrange(lo as int, hi as int) == s@.subrange(lo as int, hi as int));
    digits_number_from(s, lo, hi, cap, 0, Ghost(empty))
}

proof fn lemma_pow10_monotone(a: nat, b: nat)
    requires
        a <= b,
    ensures
        pow10(a) <= pow10(b),
{
    lemma_pow10_add(a, (b - a) as nat);
    lemma_pow10_positive(a);
    lemma_pow10_positive((b - a) as nat);
    assert(pow10(a) <= pow10(a) * pow10((b - a) as nat)) by (nonlinear_arith)
        requires
            pow10(a) > 0,
            pow10((b - a) as nat) >= 1,
    ;
}

/// `d * 10^shift` as a whole number at most `i64::MAX`.
fn scale(d: u64, shift: i128) -> (r: Option<u64>)
    requires
        d <= MAX_MAGNITUDE,
        shift <= EXPONENT_LIMIT + FRACTION_DIGITS,
    ensures
        r matches Some(v) ==> v <= MAX_MAGNITUDE && scaled(d as int, shift as int) == Some(v as int),
        r.is_none() ==> match scaled(d as int, shift as int) {
            Some(v) => v > MAX_MAGNITUDE,
            None => true,
        },
{
    if d == 0 {
        return Some(0);
    }
    if shift < 0 {
        return None;
    }
    let n = shift as u64;
    let mut v = d;
    let mut i: u64 = 0;
    while i < n
        invariant
            0 <= i <= n,
            n == shift,
            1 <= d <= MAX_MAGNITUDE,
            v == d * pow10(i as nat),
            v <= MAX_MAGNITUDE,
        decreases n - i,
    {
        if v > MAX_MAGNITUDE / 10 {
            proof {
                lemma_pow10_monotone((i + 1) as nat, n as nat);
                assert(d * pow10((i + 1) as nat) == v * 10) by (nonlinear_arith)
                    requires
                        v == d * pow10(i as nat),
                        pow10((i + 1) as nat) == 10 * pow10(i as nat),
                ;
                assert(d * pow10(n as nat) >= d * pow10((i + 1) as nat)) by (nonlinear_arith)
                    requires
                        d >= 1,
                        pow10(n as nat) >= pow10((i + 1) as nat),
                ;
            }
            return None;
        }
        proof {
            assert(d * pow10((i + 1) as nat) == v * 10) by (nonlinear_arith)
                requires
                    v == d * pow10(i as nat),
                    pow10((i + 1) as nat) == 10 * pow10(i as nat),
            ;
        }
        v = v * 10;
        i = i + 1;
    }
    Some(v)
}

/// The value in millionths of the mantissa in `[lo, hi)` of `text` times
/// `10^x`, when it is a whole number of millionths at most `i64::MAX`.
fn mantissa_at(text: &str, lo: usize, hi: usize, x: i128) -> (r: Option<u64>)
    requires
        lo <= hi <= text@.len(),
        -(EXPONENT_LIMIT as int) <= x <= EXPONENT_LIMIT,
    ensures
        r matches Some(v) ==> v <= MAX_MAGNITUDE && mantissa_amount(
            text@.subrange(lo as int, hi as int),
            x as int,
        ) == Some(v as int),
        r.is_none() ==> match mantissa_amount(text@.subrange(lo as int, hi as int), x as int) {
            Some(v) => v > MAX_MAGNITUDE,
            None => true,
        },
{
    let ghost m = text@.subrange(lo as int, hi as int);
    let mut dot = lo;
    while dot < hi && text.get_char(dot) != '.'
        invariant
            lo <= dot <= hi <= text@.len(),
            forall|j: int| lo <= j < dot ==> text@[j] != '.',
        decreases hi - dot,
    {
        dot = dot + 1;
    }
    let frac_start = if dot < hi { dot + 1 } else { hi };
    let ghost whole = text@.subrange(lo as int, dot as int);
    let ghost frac = text@.subrange(frac_start as int, hi as int);
    proof {
        if dot < hi {
            assert(m.subrange(0, dot - lo) == whole);
            assert(m.subrange(dot - lo + 1, m.len() as int) == frac);
            lemma_first_point(m, dot - lo);
        } else {
            assert(m == whole);
            assert(frac.len() == 0);
            assert(whole + frac == whole);
            if m.contains('.') {
                let k = m.index_of('.');
                assert(m[k] == '.');
            }
        }
        assert(mantissa_digits(m) == point_digits(whole, frac));
    }
    if !digits_only(text, lo, dot) || !digits_only(text, frac_start, hi) {
        return None;
    }
    if dot == lo && frac_start == hi {
        return None;
    }
    let d = match digits_number(text, lo, dot, MAX_MAGNITUDE) {
        Some(w) => match digits_number_from(text, frac_start, hi, MAX_MAGNITUDE, w, Ghost(whole)) {
            Some(d) => d,
            None => {
                proof {
                    lemma_pow10_positive((x - frac.len() + FRACTION_DIGITS) as nat);
                    lemma_positive_times_power(digits_value(whole + frac), x - frac.len() + FRACTION_DIGITS);
                }
                return None;
            },
        },
        None => {
            proof {
                lemma_digits_value_prefix(whole + frac, whole.len() as int);
                assert((whole + frac).subrange(0, whole.len() as int) == whole);
                lemma_positive_times_power(digits_value(whole + frac), x - frac.len() + FRACTION_DIGITS);
            }
            return None;
        },
    };
    let frac_len = (hi - frac_start) as i128;
    scale(d, x - frac_len + 6)
}

/// A positive number times a power of ten is at least the number.
proof fn lemma_positive_times_power(d: int, shift: int)
    requires
        d > 0,
    ensures
        shift >= 0 ==> d * pow10(shift as nat) >= d,
{
    if shift >= 0 {
        lemma_pow10_positive(shift as nat);
        assert(d * pow10(shift as nat) >= d) by (nonlinear_arith)
            requires
                d > 0,
                pow10(shift as nat) >= 1,
        ;
    }
}

/// The exponent written in `[lo, hi)` of `text`, when it reads as one.
fn exponent_at(text: &str, lo: usize, hi: usize) -> (r: Option<i128>)
    requires
        lo <= hi <= text@.len(),
    ensures
        r matches Some(x) ==> exponent_value(text@.subrange(lo as int, hi as int)) == Some(x as int)
            && -(EXPONENT_LIMIT as int) <= x <= EXPONENT_LIMIT,
        r.is_none() ==> exponent_value(text@.subrange(lo as int, hi as int)).is_none(),
{
    let ghost e = text@.subrange(lo as int, hi as int);
    let mut negative = false;
    let mut start = lo;
    if lo < hi {
        let c = text.get_char(lo);
        if c == '-' || c == '+' {
            negative = c == '-';
            start = lo + 1;
        }
    }
    assert(text@.subrange(start as int, hi as int) == if e.len() > 0 && (e[0] == '-' || e[0]
        == '+') {
        e.drop_first()
    } else {
        e
    });
    if start == hi || !digits_only(text, start, hi) {
        return None;
    }
    match digits_number(text, start, hi, EXPONENT_LIMIT) {
        Some(v) => {
            if negative {
                Some(-(v as i128))
            } else {
                Some(v as i128)
            }
        },
        None => None,
    }
}

/// Reads a decimal amount such as `150.5`, `-3`, `.25` or `1.5e3` into
/// millionths, as `str::parse::<f64>` reads its finite decimal forms.
/// Refused: `inf` and `NaN`, exponents beyond one million, values that are
/// no whole number of millionths (more than six digits after the point once
/// the exponent is applied), and magnitudes over `i64::MAX` millionths.
pub fn parse_amount(text: &str) -> (r: Option<i64>)
    ensures
        r matches Some(v) ==> amount_of_text(text@) == Some(v as int),
        r.is_none() ==> amount_of_text(text@).is_none(),
{
    let n = text.unicode_len();
    let mut negative = false;
    let mut start: usize = 0;
    if n > 0 {
        let c = text.get_char(0);
        if c == '-' || c == '+' {
            negative = c == '-';
            start = 1;
        }
    }
    let ghost body = text@.subrange(start as int, n as int);
    assert(body == if text@.len() > 0 && (text@[0] == '-' || text@[0] == '+') {
        text@.drop_first()
    } else {
        text@
    });
    let mut mark = start;
    while mark < n && !(text.get_char(mark) == 'e' || text.get_char(mark) == 'E')
        invariant
            start <= mark <= n == text@.len(),
            forall|j: int| start <= j < mark ==> !is_exponent_mark(text@[j]),
        decreases n - mark,
    {
        mark = mark + 1;
    }
    let x: i128 = if mark < n {
        proof {
            assert(body.subrange(0, mark - start) == text@.subrange(start as int, mark as int));
            assert(body.subrange(mark - start + 1, body.len() as int) == text@.subrange(
                mark + 1,
                n as int,
            ));
            lemma_first_mark(body, mark - start);
        }
        match exponent_at(text, mark + 1, n) {
            Some(x) => x,
            None => {
                return None;
            },
        }
    } else {
        proof {
            assert(body == text@.subrange(start as int, mark as int));
            if exists|k: int| 0 <= k < body.len() && is_exponent_mark(body[k]) {
                let k = choose|k: int| 0 <= k < body.len() && is_exponent_mark(body[k]);
                assert(is_exponent_mark(text@[start + k]));
            }
        }
        0
    };
    assert(unsigned_amount(body) == mantissa_amount(text@.subrange(start as int, mark as int), x as int));
    let magnitude = match mantissa_at(text, start, mark, x) {
        Some(v) => v,
        None => {
            return None;
        },
    };
    if negative {
        Some(-(magnitude as i64))
    } else {
        Some(magnitude as i64)
    }
}

} // verus!
