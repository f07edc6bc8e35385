//! Numeric field primitives: digit runs, unsigned integers and
//! fixed-point decimal numbers, decoded from byte spans.

use vstd::prelude::*;

verus! {

/// A decimal number read from text, kept exactly: the value is
/// `mant / 10^scale`, negated when `negative` is set.
#[derive(Debug, Clone, Copy, PartialEq, Eq)]
pub struct Decimal {
    pub negative: bool,
    pub mant: u64,
    pub scale: u8,
}

/// A decimal digit byte, `'0'` through `'9'`.
pub open spec fn is_digit(b: u8) -> bool {
    0x30 <= b <= 0x39
}

/// Numeric value of one digit byte.
pub open spec fn digit_of(b: u8) -> int {
    b - 0x30
}

/// First index at or after `pos` that does not hold a digit (or the end).
pub open spec fn digit_run_end(s: Seq<u8>, pos: int) -> int
    decreases s.len() - pos when 0 <= pos <= s.len()
{
    if pos >= s.len() {
        pos
    } else if !is_digit(s[pos]) {
        pos
    } else {
        digit_run_end(s, pos + 1)
    }
}

/// Value of the digit span `[pos, end)` read as a base-10 numeral.
pub open spec fn digits_val(s: Seq<u8>, pos: int, end: int) -> int
    decreases end - pos
{
    if end <= pos {
        0
    } else {
        digits_val(s, pos, end - 1) * 10 + digit_of(s[end - 1])
    }
}

/// First index in `[pos, end)` that does not hold `'0'` (or `end`).
pub open spec fn skip_zeros(s: Seq<u8>, pos: int, end: int) -> int
    decreases end - pos
{
    if pos >= end {
        end
    } else if s[pos] != 0x30 {
        pos
    } else {
        skip_zeros(s, pos + 1, end)
    }
}

/// First index at or after `pos` holding `b` (or the end).
pub open spec fn find_byte(s: Seq<u8>, pos: int, b: u8) -> int
    decreases s.len() - pos when 0 <= pos <= s.len()
{
    if pos >= s.len() {
        pos
    } else if s[pos] == b {
        pos
    } else {
        find_byte(s, pos + 1, b)
    }
}

pub proof fn lemma_find_byte(s: Seq<u8>, pos: int, b: u8)
    requires
        0 <= pos <= s.len(),
    ensures
        pos <= find_byte(s, pos, b) <= s.len(),
        forall|k: int| pos <= k < find_byte(s, pos, b) ==> #[trigger] s[k] != b,
        find_byte(s, pos, b) < s.len() ==> s[find_byte(s, pos, b)] == b,
    decreases s.len() - pos
{
    if pos < s.len() && s[pos] != b {
        lemma_find_byte(s, pos + 1, b);
    }
}

/// An index left of which `b` never occurs, and which holds `b` or the
/// end, is where the search lands.
pub proof fn lemma_find_byte_is(s: Seq<u8>, pos: int, b: u8, e: int)
    requires
        0 <= pos <= e <= s.len(),
        forall|k: int| pos <= k < e ==> #[trigger] s[k] != b,
        e < s.len() ==> s[e] == b,
    ensures
        find_byte(s, pos, b) == e,
    decreases e - pos
{
    if pos < e {
        lemma_find_byte_is(s, pos + 1, b, e);
    }
}

pub open spec fn pow10(n: int) -> int
    decreases n
{
    if n <= 0 {
        1
    } else {
        10 * pow10(n - 1)
    }
}

pub proof fn lemma_pow10_pos(n: int)
    ensures
        pow10(n) >= 1,
    decreases n
{
    if n > 0 {
        lemma_pow10_pos(n - 1);
    }
}

pub proof fn lemma_pow10_mono(m: int, n: int)
    requires
        m <= n,
    ensures
        pow10(m) <= pow10(n),
    decreases n - m
{
    if m < n {
        lemma_pow10_mono(m, n - 1);
        lemma_pow10_pos(n - 1);
    }
}

pub proof fn lemma_pow10_add(m: int, n: int)
    requires
        0 <= m,
        0 <= n,
    ensures
        pow10(m + n) == pow10(m) * pow10(n),
    decreases m
{
    if m == 0 {
    } else {
        lemma_pow10_add(m - 1, n);
        assert(pow10(m + n) == 10 * pow10(m - 1 + n));
        assert(10 * (pow10(m - 1) * pow10(n)) == (10 * pow10(m - 1)) * pow10(n))
            by (nonlinear_arith);
    }
}

pub proof fn lemma_digit_run_end(s: Seq<u8>, pos: int)
    requires
        0 <= pos <= s.len(),
    ensures
        pos <= digit_run_end(s, pos) <= s.len(),
        forall|k: int| pos <= k < digit_run_end(s, pos) ==> is_digit(#[trigger] s[k]),
        digit_run_end(s, pos) < s.len() ==> !is_digit(s[digit_run_end(s, pos)]),
    decreases s.len() - pos
{
    if pos < s.len() && is_digit(s[pos]) {
        lemma_digit_run_end(s, pos + 1);
    }
}

pub proof fn lemma_digits_val_bounds(s: Seq<u8>, pos: int, end: int)
    requires
        pos <= end,
        forall|k: int| pos <= k < end ==> is_digit(#[trigger] s[k]),
    ensures
        0 <= digits_val(s, pos, end) < pow10(end - pos),
    decreases end - pos
{
    if end > pos {
        lemma_digits_val_bounds(s, pos, end - 1);
        assert(0 <= digit_of(s[end - 1]) <= 9);
    }
}

pub proof fn lemma_digits_val_skip_zero(s: Seq<u8>, pos: int, end: int)
    requires
        pos < end,
        s[pos] == 0x30,
    ensures
        digits_val(s, pos, end) == digits_val(s, pos + 1, end),
    decreases end - pos
{
    if end > pos + 1 {
        lemma_digits_val_skip_zero(s, pos, end - 1);
    } else {
        assert(digits_val(s, pos, end) == digits_val(s, pos, pos) * 10 + digit_of(s[pos]));
        assert(digits_val(s, pos, end) == 0);
    }
}

/// A digit span whose first digit is not `'0'` is at least `10^(len-1)`.
pub proof fn lemma_digits_val_lower(s: Seq<u8>, pos: int, end: int)
    requires
        pos < end,
        is_digit(s[pos]),
        s[pos] != 0x30,
        forall|k: int| pos <= k < end ==> is_digit(#[trigger] s[k]),
    ensures
        digits_val(s, pos, end) >= pow10(end - pos - 1),
    decreases end - pos
{
    if end == pos + 1 {
        assert(digit_of(s[pos]) >= 1);
    } else {
        lemma_digits_val_lower(s, pos, end - 1);
        lemma_digits_val_bounds(s, pos, end - 1);
        assert(digits_val(s, pos, end - 1) * 10 >= pow10(end - pos - 2) * 10) by (nonlinear_arith)
            requires digits_val(s, pos, end - 1) >= pow10(end - pos - 2)
        ;
    }
}

pub proof fn lemma_skip_zeros(s: Seq<u8>, pos: int, end: int)
    requires
        pos <= end,
    ensures
        pos <= skip_zeros(s, pos, end) <= end,
        digits_val(s, pos, end) == digits_val(s, skip_zeros(s, pos, end), end),
        skip_zeros(s, pos, end) < end ==> s[skip_zeros(s, pos, end)] != 0x30,
    decreases end - pos
{
    if pos < end && s[pos] == 0x30 {
        lemma_digits_val_skip_zero(s, pos, end);
        lemma_skip_zeros(s, pos + 1, end);
    }
}

/// A span of digits is worth less than `10^len`.
pub proof fn lemma_mant_bound(a: int, x: int, b: int, y: int)
    requires
        0 <= a < pow10(x),
        0 <= b < pow10(y),
        0 <= x,
        0 <= y,
    ensures
        0 <= a * pow10(y) + b < pow10(x + y),
{
    lemma_pow10_add(x, y);
    lemma_pow10_pos(y);
    assert(a * pow10(y) <= (pow10(x) - 1) * pow10(y) && 0 <= a * pow10(y)) by (nonlinear_arith)
        requires 0 <= a <= pow10(x) - 1, pow10(y) >= 1
    ;
    assert((pow10(x) - 1) * pow10(y) == pow10(x) * pow10(y) - pow10(y)) by (nonlinear_arith);
}

/// First index at or after `pos` that does not hold a digit, with the
/// facts a caller needs about the run.
#[verifier::loop_isolation(false)]
pub fn digit_run_end_exec(s: &[u8], pos: usize) -> (e: usize)
    requires
        pos <= s@.len(),
    ensures
        e as int == digit_run_end(s@, pos as int),
        pos <= e <= s@.len(),
        forall|k: int| pos <= k < e ==> is_digit(#[trigger] s@[k]),
        e < s@.len() ==> !is_digit(s@[e as int]),
{
    proof {
        lemma_digit_run_end(s@, pos as int);
    }
    let len = s.len();
    let mut e: usize = pos;
    while e < len && 0x30 <= s[e] && s[e] <= 0x39
        invariant
            pos <= e <= len,
            digit_run_end(s@, pos as int) == digit_run_end(s@, e as int),
        decreases len - e,
    {
        e = e + 1;
    }
    e
}

/// First index at or after `pos` holding `b`, or the end of the span.
#[verifier::loop_isolation(false)]
pub fn find_byte_exec(s: &[u8], pos: usize, b: u8) -> (e: usize)
    requires
        pos <= s@.len(),
    ensures
        e as int == find_byte(s@, pos as int, b),
        pos <= e <= s@.len(),
        forall|k: int| pos <= k < e ==> #[trigger] s@[k] != b,
        e < s@.len() ==> s@[e as int] == b,
{
    let len = s.len();
    let mut e: usize = pos;
    while e < len && s[e] != b
        invariant
            pos <= e <= len,
            find_byte(s@, pos as int, b) == find_byte(s@, e as int, b),
            forall|k: int| pos <= k < e ==> #[trigger] s@[k] != b,
        decreases len - e,
    {
        e = e + 1;
    }
    e
}

/// `10^n` in a machine word.
#[verifier::loop_isolation(false)]
pub fn pow10_u64(n: usize) -> (r: u64)
    requires
        n <= 18,
    ensures
        r == pow10(n as int),
{
    proof {
        reveal_with_fuel(pow10, 19);
        assert(pow10(18) == 1_000_000_000_000_000_000);
    }
    let mut r: u64 = 1;
    let mut i: usize = 0;
    while i < n
        invariant
            i <= n,
            r == pow10(i as int),
        decreases n - i,
    {
        proof {
            lemma_pow10_mono(i + 1, 18);
        }
        r = r * 10;
        i = i + 1;
    }
    r
}

/// Value of the digit span `[from, to)`, accumulated left to right.
#[verifier::loop_isolation(false)]
fn accum_digits(s: &[u8], from: usize, to: usize) -> (r: u64)
    requires
        from <= to <= s@.len(),
        to - from <= 18,
        forall|k: int| from <= k < to ==> is_digit(#[trigger] s@[k]),
    ensures
        r == digits_val(s@, from as int, to as int),
        r < pow10((to - from) as int),
{
    proof {
        lemma_digits_val_bounds(s@, from as int, to as int);
    }
    let mut acc: u64 = 0;
    let mut i: usize = from;
    while i < to
        invariant
            from <= i <= to,
            acc == digits_val(s@, from as int, i as int),
            acc < pow10((i - from) as int),
        decreases to - i,
    {
        proof {
            lemma_pow10_mono((i - from) as int, 17);
            reveal_with_fuel(pow10, 19);
            assert(pow10(17) == 100_000_000_000_000_000);
        }
        let d = s[i] - 0x30;
        acc = acc * 10 + (d as u64);
        i = i + 1;
    }
    acc
}

/// A decimal number field: optional sign, an integer digit run, and an
/// optional point with a fraction digit run; at least one digit in all.
/// The significant digits must fit the fixed-point word, 18 places.
/// On success, the number and the index just past it.
pub open spec fn spec_decimal(s: Seq<u8>, pos: int) -> Option<(Decimal, int)> {
    let signed = pos < s.len() && (s[pos] == 0x2B || s[pos] == 0x2D);
    let neg = pos < s.len() && s[pos] == 0x2D;
    let p1 = if signed { pos + 1 } else { pos };
    let e1 = digit_run_end(s, p1);
    let dot = e1 < s.len() && s[e1] == 0x2E;
    let f1 = if dot { e1 + 1 } else { e1 };
    let e2 = digit_run_end(s, f1);
    if e1 == p1 && e2 == f1 {
        None
    } else {
        let z = skip_zeros(s, p1, e1);
        let fl = e2 - f1;
        if (e1 - z) + fl > 18 {
            None
        } else {
            let m = digits_val(s, z, e1) * pow10(fl) + digits_val(s, f1, e2);
            Some((Decimal { negative: neg, mant: m as u64, scale: fl as u8 }, e2))
        }
    }
}

/// What every decoded decimal satisfies: the significant digits fit the
/// fixed-point word and the end index stays inside the span.
pub proof fn lemma_decimal_wf(s: Seq<u8>, pos: int)
    requires
        0 <= pos <= s.len(),
    ensures
        (match spec_decimal(s, pos) {
            Some(t) => t.0.scale <= 18 && t.0.mant < pow10(18) && pos <= t.1 <= s.len(),
            None => true,
        }),
{
    let signed = pos < s.len() && (s[pos] == 0x2B || s[pos] == 0x2D);
    let p1 = if signed { pos + 1 } else { pos };
    lemma_digit_run_end(s, p1);
    let e1 = digit_run_end(s, p1);
    let dot = e1 < s.len() && s[e1] == 0x2E;
    let f1 = if dot { e1 + 1 } else { e1 };
    lemma_digit_run_end(s, f1);
    let e2 = digit_run_end(s, f1);
    if !(e1 == p1 && e2 == f1) {
        lemma_skip_zeros(s, p1, e1);
        let z = skip_zeros(s, p1, e1);
        let fl = e2 - f1;
        if (e1 - z) + fl <= 18 {
            lemma_digits_val_bounds(s, z, e1);
            lemma_digits_val_bounds(s, f1, e2);
            lemma_mant_bound(digits_val(s, z, e1), e1 - z, digits_val(s, f1, e2), fl);
            lemma_pow10_mono((e1 - z) + fl, 18);
        }
    }
}

#[verifier::loop_isolation(false)]
pub fn parse_decimal(s: &[u8], pos: usize) -> (r: Option<(Decimal, usize)>)
    requires
        pos <= s@.len(),
    ensures
        (match spec_decimal(s@, pos as int) {
            Some(t) => r == Some((t.0, (t.1 as usize))) && pos <= t.1 <= s@.len()
                && t.0.scale <= 18 && t.0.mant < pow10(18),
            None => r is None,
        }),
{
    proof {
        lemma_decimal_wf(s@, pos as int);
    }
    let len = s.len();
    let signed = pos < len && (s[pos] == 0x2B || s[pos] == 0x2D);
    let neg = pos < len && s[pos] == 0x2D;
    let p1 = if signed { pos + 1 } else { pos };
    let e1 = digit_run_end_exec(s, p1);
    let dot = e1 < len && s[e1] == 0x2E;
    let f1 = if dot { e1 + 1 } else { e1 };
    let e2 = digit_run_end_exec(s, f1);
    if e1 == p1 && e2 == f1 {
        return None;
    }
    proof {
        lemma_skip_zeros(s@, p1 as int, e1 as int);
    }
    let mut z: usize = p1;
    while z < e1 && s[z] == 0x30
        invariant
            p1 <= z <= e1,
            skip_zeros(s@, p1 as int, e1 as int) == skip_zeros(s@, z as int, e1 as int),
        decreases e1 - z,
    {
        z = z + 1;
    }
    assert(z as int == skip_zeros(s@, p1 as int, e1 as int));
    let fl = e2 - f1;
    if (e1 - z) + fl > 18 {
        return None;
    }
    let iv = accum_digits(s, z, e1);
    let fv = accum_digits(s, f1, e2);
    let p = pow10_u64(fl);
    proof {
        lemma_mant_bound(iv as int, (e1 - z) as int, fv as int, fl as int);
        lemma_pow10_mono(((e1 - z) + fl) as int, 18);
        reveal_with_fuel(pow10, 19);
        assert(pow10(18) == 1_000_000_000_000_000_000);
    }
    let m = iv * p + fv;
    Some((Decimal { negative: neg, mant: m, scale: fl as u8 }, e2))
}

/// An unsigned integer field: the digit run at `pos`, rejected when empty
/// or when its value is above `max`; on success, the value and the index
/// just past the run.
pub open spec fn spec_uint(s: Seq<u8>, pos: int, max: int) -> Option<(int, int)> {
    let e = digit_run_end(s, pos);
    if e == pos {
        None
    } else if digits_val(s, pos, e) > max {
        None
    } else {
        Some((digits_val(s, pos, e), e))
    }
}

#[verifier::loop_isolation(false)]
pub fn parse_uint(s: &[u8], pos: usize, max: u64) -> (r: Option<(u64, usize)>)
    requires
        pos <= s@.len(),
        max <= 0xFFFF_FFFF,
    ensures
        (match spec_uint(s@, pos as int, max as int) {
            Some(t) => r == Some(((t.0 as u64), (t.1 as usize))) && pos < t.1 <= s@.len()
                && 0 <= t.0 <= max,
            None => r is None,
        }),
{
    let e = digit_run_end_exec(s, pos);
    if e == pos {
        return None;
    }
    let mut z: usize = pos;
    while z < e && s[z] == 0x30
        invariant
            pos <= z <= e,
            digits_val(s@, pos as int, e as int) == digits_val(s@, z as int, e as int),
        decreases e - z,
    {
        proof {
            lemma_digits_val_skip_zero(s@, z as int, e as int);
        }
        z = z + 1;
    }
    if e - z > 10 {
        proof {
            lemma_digits_val_lower(s@, z as int, e as int);
            lemma_pow10_mono(10, e - z - 1);
            reveal_with_fuel(pow10, 11);
            assert(pow10(10) == 10_000_000_000);
        }
        return None;
    }
    proof {
        lemma_digits_val_bounds(s@, z as int, e as int);
        lemma_pow10_mono(e - z, 10);
        reveal_with_fuel(pow10, 11);
        assert(pow10(10) == 10_000_000_000);
    }
    let mut acc: u64 = 0;
    let mut i: usize = z;
    while i < e
        invariant
            z <= i <= e,
            acc == digits_val(s@, z as int, i as int),
            acc < pow10((i - z) as int),
        decreases e - i,
    {
        proof {
            lemma_pow10_mono((i - z) as int, 10);
        }
        let d = s[i] - 0x30;
        acc = acc * 10 + (d as u64);
        i = i + 1;
    }
    if acc > max {
        None
    } else {
        Some((acc, e))
    }
}

} // verus!
