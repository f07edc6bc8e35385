//! Composite field decoders shared by the sentence grammars: time of
//! day, calendar date, and latitude/longitude pairs.

use vstd::prelude::*;
use crate::num::{
    digit_of, digits_val, find_byte, find_byte_exec, is_digit, lemma_decimal_wf, lemma_mant_bound,
    lemma_pow10_add, lemma_pow10_mono, lemma_pow10_pos, parse_decimal, pow10, pow10_u64,
    spec_decimal, Decimal,
};
use crate::records::{Angle, Date, Time};

verus! {

/// Nanoseconds that a fraction `frac / 10^scale` of a second stands
/// for, rounded half-up to nanosecond resolution.
pub open spec fn spec_frac_nanos(frac: int, scale: int) -> int {
    if scale <= 9 {
        frac * pow10(9 - scale)
    } else {
        (frac + pow10(scale - 9) / 2) / pow10(scale - 9)
    }
}

/// A time-of-day field: two hour digits, two minute digits, then
/// variable-length real seconds running to the next comma, which must
/// exist and is not consumed. The hour must be below 24, the minute
/// below 60 and the seconds nonnegative and below 60; the fractional
/// part rounds to nanoseconds. On success, the time and the index of
/// the comma.
pub open spec fn spec_hms(s: Seq<u8>, pos: int) -> Option<(Time, int)> {
    if pos + 4 > s.len() {
        None
    } else if !(is_digit(s[pos]) && is_digit(s[pos + 1]) && is_digit(s[pos + 2]) && is_digit(
        s[pos + 3],
    )) {
        None
    } else {
        let hour = digits_val(s, pos, pos + 2);
        let minute = digits_val(s, pos + 2, pos + 4);
        let comma = find_byte(s, pos + 4, 0x2C);
        if comma >= s.len() {
            None
        } else {
            match spec_decimal(s, pos + 4) {
                None => None,
                Some((d, e)) => {
                    if e != comma || d.negative || hour >= 24 || minute >= 60 {
                        None
                    } else {
                        let sec = d.mant as int / pow10(d.scale as int);
                        let frac = d.mant as int % pow10(d.scale as int);
                        if sec >= 60 {
                            None
                        } else {
                            Some(
                                (
                                    Time {
                                        hour: hour as u8,
                                        minute: minute as u8,
                                        second: sec as u8,
                                        nanosecond: spec_frac_nanos(frac, d.scale as int) as u32,
                                    },
                                    comma,
                                ),
                            )
                        }
                    }
                },
            }
        }
    }
}

/// Value of the two digits at `pos`.
fn digits2(s: &[u8], pos: usize) -> (r: u8)
    requires
        pos + 2 <= s@.len(),
        is_digit(s@[pos as int]),
        is_digit(s@[pos as int + 1]),
    ensures
        r == digits_val(s@, pos as int, pos as int + 2),
        r <= 99,
{
    proof {
        assert(digits_val(s@, pos as int, pos as int) == 0);
        assert(digits_val(s@, pos as int, pos as int + 1) == digit_of(s@[pos as int]));
    }
    (s[pos] - 0x30) * 10 + (s[pos + 1] - 0x30)
}

/// Whether the byte at `pos` is a decimal digit.
fn digit_at(s: &[u8], pos: usize) -> (r: bool)
    requires
        pos <= s@.len(),
    ensures
        r == (pos < s@.len() && is_digit(s@[pos as int])),
{
    pos < s.len() && 0x30 <= s[pos] && s[pos] <= 0x39
}

/// Decode a time-of-day field; on success the returned index names the
/// terminating comma, which stays unconsumed.
pub fn parse_hms(s: &[u8], pos: usize) -> (r: Option<(Time, usize)>)
    requires
        pos <= s@.len(),
    ensures
        (match spec_hms(s@, pos as int) {
            Some(t) => r == Some((t.0, (t.1 as usize))) && pos <= t.1 < s@.len(),
            None => r is None,
        }),
{
    if s.len() - pos < 4 {
        return None;
    }
    if !(digit_at(s, pos) && digit_at(s, pos + 1) && digit_at(s, pos + 2) && digit_at(s, pos + 3))
    {
        return None;
    }
    let hour = digits2(s, pos);
    let minute = digits2(s, pos + 2);
    let comma = find_byte_exec(s, pos + 4, 0x2C);
    if comma >= s.len() {
        return None;
    }
    proof {
        lemma_decimal_wf(s@, pos as int + 4);
    }
    match parse_decimal(s, pos + 4) {
        None => None,
        Some((d, e)) => {
            if e != comma || d.negative || hour >= 24 || minute >= 60 {
                return None;
            }
            let p = pow10_u64(d.scale as usize);
            proof {
                lemma_pow10_pos(d.scale as int);
            }
            let sec = d.mant / p;
            let frac = d.mant % p;
            if sec >= 60 {
                return None;
            }
            let nanos: u64 = if d.scale <= 9 {
                let m = pow10_u64((9 - d.scale) as usize);
                proof {
                    lemma_pow10_pos((9 - d.scale) as int);
                    lemma_mant_bound(frac as int, d.scale as int, 0, (9 - d.scale) as int);
                    assert(pow10(d.scale as int + (9 - d.scale)) == pow10(9));
                    reveal_with_fuel(pow10, 10);
                    assert(pow10(9) == 1_000_000_000);
                }
                frac * m
            } else {
                let dd = pow10_u64((d.scale - 9) as usize);
                proof {
                    lemma_pow10_mono(d.scale as int, 18);
                    reveal_with_fuel(pow10, 19);
                    assert(pow10(18) == 1_000_000_000_000_000_000);
                }
                (frac + dd / 2) / dd
            };
            proof {
                lemma_frac_nanos_bound(frac as int, d.scale as int);
                reveal_with_fuel(pow10, 10);
                assert(pow10(9) == 1_000_000_000);
            }
            Some(
                (
                    Time {
                        hour: hour as u8,
                        minute: minute as u8,
                        second: sec as u8,
                        nanosecond: nanos as u32,
                    },
                    comma,
                ),
            )
        },
    }
}

/// A calendar date field: two digits each of day, month and two-digit
/// year, in that order. The month must lie in 1..=12 and the day in
/// 1..=31; no per-month day count or leap-year rule is applied.
pub open spec fn spec_date(s: Seq<u8>, pos: int) -> Option<(Date, int)> {
    if pos + 6 > s.len() {
        None
    } else if !(is_digit(s[pos]) && is_digit(s[pos + 1]) && is_digit(s[pos + 2]) && is_digit(
        s[pos + 3],
    ) && is_digit(s[pos + 4]) && is_digit(s[pos + 5])) {
        None
    } else {
        let day = digits_val(s, pos, pos + 2);
        let month = digits_val(s, pos + 2, pos + 4);
        let year = digits_val(s, pos + 4, pos + 6);
        if month < 1 || month > 12 || day < 1 || day > 31 {
            None
        } else {
            Some((Date { day: day as u8, month: month as u8, year: year as u8 }, pos + 6))
        }
    }
}

/// Decode a calendar date field.
pub fn parse_date(s: &[u8], pos: usize) -> (r: Option<(Date, usize)>)
    requires
        pos <= s@.len(),
    ensures
        (match spec_date(s@, pos as int) {
            Some(t) => r == Some((t.0, (t.1 as usize))) && pos <= t.1 <= s@.len(),
            None => r is None,
        }),
{
    if s.len() - pos < 6 {
        return None;
    }
    if !(digit_at(s, pos) && digit_at(s, pos + 1) && digit_at(s, pos + 2) && digit_at(s, pos + 3)
        && digit_at(s, pos + 4) && digit_at(s, pos + 5)) {
        return None;
    }
    let day = digits2(s, pos);
    let month = digits2(s, pos + 2);
    let year = digits2(s, pos + 4);
    if month < 1 || month > 12 || day < 1 || day > 31 {
        return None;
    }
    Some((Date { day, month, year }, pos + 6))
}

/// A latitude/longitude block: two latitude degree digits and decimal
/// minutes, a comma, `N` or `S`, a comma, three longitude degree digits
/// (at most 255) and decimal minutes, a comma, and `E` or `W`. The
/// decoded value of each angle is `degrees + minutes/60`, negative for
/// the southern or western hemisphere.
pub open spec fn spec_lat_lon(s: Seq<u8>, pos: int) -> Option<((Angle, Angle), int)> {
    if pos + 2 > s.len() || !is_digit(s[pos]) || !is_digit(s[pos + 1]) {
        None
    } else if pos + 2 < s.len() && (s[pos + 2] == 0x2B || s[pos + 2] == 0x2D) {
        None
    } else {
        let lat_deg = digits_val(s, pos, pos + 2);
        match spec_decimal(s, pos + 2) {
            None => None,
            Some((lat_min, e)) => {
                if e + 2 > s.len() || s[e] != 0x2C || !(s[e + 1] == 0x4E || s[e + 1] == 0x53) {
                    None
                } else if e + 6 > s.len() || s[e + 2] != 0x2C || !(is_digit(s[e + 3]) && is_digit(
                    s[e + 4],
                ) && is_digit(s[e + 5])) {
                    None
                } else if e + 6 < s.len() && (s[e + 6] == 0x2B || s[e + 6] == 0x2D) {
                    None
                } else {
                    let lat_dir = s[e + 1];
                    let lon_deg = digits_val(s, e + 3, e + 6);
                    if lon_deg > 255 {
                        None
                    } else {
                        match spec_decimal(s, e + 6) {
                            None => None,
                            Some((lon_min, e2)) => {
                                if e2 + 2 > s.len() || s[e2] != 0x2C || !(s[e2 + 1] == 0x45 || s[e2
                                    + 1] == 0x57) {
                                    None
                                } else {
                                    Some(
                                        (
                                            (
                                                Angle {
                                                    negative: lat_dir == 0x53,
                                                    degrees: lat_deg as u8,
                                                    minutes: lat_min,
                                                },
                                                Angle {
                                                    negative: s[e2 + 1] == 0x57,
                                                    degrees: lon_deg as u8,
                                                    minutes: lon_min,
                                                },
                                            ),
                                            e2 + 2,
                                        ),
                                    )
                                }
                            },
                        }
                    }
                }
            },
        }
    }
}

/// Decode a required latitude/longitude block, ending just past the
/// hemisphere letter of the longitude.
pub fn do_parse_lat_lon(s: &[u8], pos: usize) -> (r: Option<((Angle, Angle), usize)>)
    requires
        pos <= s@.len(),
    ensures
        (match spec_lat_lon(s@, pos as int) {
            Some(t) => r == Some((t.0, (t.1 as usize))) && pos <= t.1 <= s@.len(),
            None => r is None,
        }),
{
    if s.len() - pos < 2 || !(digit_at(s, pos) && digit_at(s, pos + 1)) {
        return None;
    }
    if pos + 2 < s.len() && (s[pos + 2] == 0x2B || s[pos + 2] == 0x2D) {
        return None;
    }
    let lat_deg = digits2(s, pos);
    proof {
        lemma_decimal_wf(s@, pos as int + 2);
    }
    match parse_decimal(s, pos + 2) {
        None => None,
        Some((lat_min, e)) => {
            if s.len() - e < 2 || s[e] != 0x2C || !(s[e + 1] == 0x4E || s[e + 1] == 0x53) {
                return None;
            }
            if s.len() - e < 6 || s[e + 2] != 0x2C
                || !(digit_at(s, e + 3) && digit_at(s, e + 4) && digit_at(s, e + 5)) {
                return None;
            }
            if e + 6 < s.len() && (s[e + 6] == 0x2B || s[e + 6] == 0x2D) {
                return None;
            }
            let lat_dir = s[e + 1];
            let lon_hi = digits2(s, e + 3);
            let lon_deg: u16 = (lon_hi as u16) * 10 + ((s[e + 5] - 0x30) as u16);
            proof {
                assert(lon_deg == digits_val(s@, e as int + 3, e as int + 6));
            }
            if lon_deg > 255 {
                return None;
            }
            proof {
                lemma_decimal_wf(s@, e as int + 6);
            }
            match parse_decimal(s, e + 6) {
                None => None,
                Some((lon_min, e2)) => {
                    if s.len() - e2 < 2 || s[e2] != 0x2C || !(s[e2 + 1] == 0x45 || s[e2 + 1]
                        == 0x57) {
                        return None;
                    }
                    Some(
                        (
                            (
                                Angle {
                                    negative: lat_dir == 0x53,
                                    degrees: lat_deg,
                                    minutes: lat_min,
                                },
                                Angle {
                                    negative: s[e2 + 1] == 0x57,
                                    degrees: lon_deg as u8,
                                    minutes: lon_min,
                                },
                            ),
                            e2 + 2,
                        ),
                    )
                },
            }
        },
    }
}

/// An optional latitude/longitude block: three consecutive commas (the
/// fourth follows at the call site) are the documented no-fix encoding
/// and decode to absence; otherwise the block must decode in full.
pub open spec fn spec_opt_lat_lon(s: Seq<u8>, pos: int) -> Option<(Option<(Angle, Angle)>, int)> {
    if pos + 3 <= s.len() && s[pos] == 0x2C && s[pos + 1] == 0x2C && s[pos + 2] == 0x2C {
        Some((None, pos + 3))
    } else {
        match spec_lat_lon(s, pos) {
            Some((ll, e)) => Some((Some(ll), e)),
            None => None,
        }
    }
}

/// Decode an optional latitude/longitude block.
pub(crate) fn parse_lat_lon(s: &[u8], pos: usize) -> (r: Option<(Option<(Angle, Angle)>, usize)>)
    requires
        pos <= s@.len(),
    ensures
        (match spec_opt_lat_lon(s@, pos as int) {
            Some(t) => r == Some((t.0, (t.1 as usize))) && pos <= t.1 <= s@.len(),
            None => r is None,
        }),
{
    if s.len() - pos >= 3 && s[pos] == 0x2C && s[pos + 1] == 0x2C && s[pos + 2] == 0x2C {
        return Some((None, pos + 3));
    }
    match do_parse_lat_lon(s, pos) {
        Some((ll, e)) => Some((Some(ll), e)),
        None => None,
    }
}

/// Whether `pos` holds the field-delimiting comma.
pub open spec fn comma_at(s: Seq<u8>, pos: int) -> bool {
    0 <= pos < s.len() && s[pos] == 0x2C
}

/// Check for the comma that must delimit the previous field.
pub(crate) fn expect_comma(s: &[u8], pos: usize) -> (r: bool)
    requires
        pos <= s@.len(),
    ensures
        r == comma_at(s@, pos as int),
{
    pos < s.len() && s[pos] == 0x2C
}

/// An optional time-of-day field: absent without consuming anything
/// when the time grammar does not match here.
pub open spec fn spec_opt_time(s: Seq<u8>, pos: int) -> (Option<Time>, int) {
    match spec_hms(s, pos) {
        Some((t, e)) => (Some(t), e),
        None => (None, pos),
    }
}

pub(crate) fn opt_time(s: &[u8], pos: usize) -> (r: (Option<Time>, usize))
    requires
        pos <= s@.len(),
    ensures
        r.0 == spec_opt_time(s@, pos as int).0,
        r.1 as int == spec_opt_time(s@, pos as int).1,
        pos <= r.1 <= s@.len(),
{
    let _len: usize = s.len();
    match parse_hms(s, pos) {
        Some((t, e)) => (Some(t), e),
        None => (None, pos),
    }
}

/// An optional unsigned integer field: absent when no digit run with a
/// value at most `max` stands here.
pub open spec fn spec_opt_uint(s: Seq<u8>, pos: int, max: int) -> (Option<int>, int) {
    match crate::num::spec_uint(s, pos, max) {
        Some((v, e)) => (Some(v), e),
        None => (None, pos),
    }
}

pub(crate) fn opt_uint(s: &[u8], pos: usize, max: u64) -> (r: (Option<u64>, usize))
    requires
        pos <= s@.len(),
        max <= 0xFFFF_FFFF,
    ensures
        (match spec_opt_uint(s@, pos as int, max as int).0 {
            Some(v) => r.0 == Some(v as u64) && 0 <= v <= max,
            None => r.0 is None,
        }),
        r.1 as int == spec_opt_uint(s@, pos as int, max as int).1,
        pos <= r.1 <= s@.len(),
{
    let _len: usize = s.len();
    match crate::num::parse_uint(s, pos, max) {
        Some((v, e)) => (Some(v), e),
        None => (None, pos),
    }
}

/// An optional decimal field: absent when no decimal number stands here.
pub open spec fn spec_opt_decimal(s: Seq<u8>, pos: int) -> (Option<Decimal>, int) {
    match spec_decimal(s, pos) {
        Some((d, e)) => (Some(d), e),
        None => (None, pos),
    }
}

pub(crate) fn opt_decimal(s: &[u8], pos: usize) -> (r: (Option<Decimal>, usize))
    requires
        pos <= s@.len(),
    ensures
        r.0 == spec_opt_decimal(s@, pos as int).0,
        r.1 as int == spec_opt_decimal(s@, pos as int).1,
        pos <= r.1 <= s@.len(),
        r.0 is Some ==> (r.0->0).scale <= 18 && (r.0->0).mant < pow10(18),
{
    let _len: usize = s.len();
    match parse_decimal(s, pos) {
        Some((d, e)) => (Some(d), e),
        None => (None, pos),
    }
}

/// A decimal field running to the next comma: an empty field is absent;
/// a nonempty field must be a decimal in full, and a field with no
/// comma anywhere after it cannot delimit and fails. The comma is not
/// consumed.
pub open spec fn spec_field_decimal(s: Seq<u8>, pos: int) -> Option<(Option<Decimal>, int)> {
    let e = find_byte(s, pos, 0x2C);
    if e == pos {
        Some((None, pos))
    } else if e >= s.len() {
        None
    } else {
        match spec_decimal(s, pos) {
            Some((d, de)) => if de == e {
                Some((Some(d), e))
            } else {
                None
            },
            None => None,
        }
    }
}

pub(crate) fn field_decimal(s: &[u8], pos: usize) -> (r: Option<(Option<Decimal>, usize)>)
    requires
        pos <= s@.len(),
    ensures
        (match spec_field_decimal(s@, pos as int) {
            Some(t) => r == Some((t.0, (t.1 as usize))) && pos <= t.1 <= s@.len(),
            None => r is None,
        }),
{
    let e = find_byte_exec(s, pos, 0x2C);
    if e == pos {
        return Some((None, pos));
    }
    if e >= s.len() {
        return None;
    }
    match parse_decimal(s, pos) {
        Some((d, de)) => if de == e {
            Some((Some(d), e))
        } else {
            None
        },
        None => None,
    }
}

/// An optional calendar-date field: absent without consuming anything
/// when the date grammar does not match here.
pub open spec fn spec_opt_date(s: Seq<u8>, pos: int) -> (Option<Date>, int) {
    match spec_date(s, pos) {
        Some((d, e)) => (Some(d), e),
        None => (None, pos),
    }
}

pub(crate) fn opt_date(s: &[u8], pos: usize) -> (r: (Option<Date>, usize))
    requires
        pos <= s@.len(),
    ensures
        r.0 == spec_opt_date(s@, pos as int).0,
        r.1 as int == spec_opt_date(s@, pos as int).1,
        pos <= r.1 <= s@.len(),
{
    let _len: usize = s.len();
    match parse_date(s, pos) {
        Some((d, e)) => (Some(d), e),
        None => (None, pos),
    }
}

/// An optional single-letter unit or mode byte, consumed when present.
pub open spec fn spec_opt_char(s: Seq<u8>, pos: int, b: u8) -> int {
    if 0 <= pos < s.len() && s[pos] == b {
        pos + 1
    } else {
        pos
    }
}

pub(crate) fn opt_char(s: &[u8], pos: usize, b: u8) -> (r: usize)
    requires
        pos <= s@.len(),
    ensures
        r as int == spec_opt_char(s@, pos as int, b),
        pos <= r <= s@.len(),
{
    if pos < s.len() && s[pos] == b {
        pos + 1
    } else {
        pos
    }
}

/// The rounded nanosecond count never exceeds one full second.
proof fn lemma_frac_nanos_bound(frac: int, scale: int)
    requires
        0 <= scale <= 18,
        0 <= frac < pow10(scale),
    ensures
        0 <= spec_frac_nanos(frac, scale) <= 1_000_000_000,
{
    reveal_with_fuel(pow10, 10);
    assert(pow10(9) == 1_000_000_000);
    if scale <= 9 {
        lemma_mant_bound(frac, scale, 0, 9 - scale);
        assert(pow10(scale + (9 - scale)) == pow10(9));
    } else {
        let d = pow10(scale - 9);
        lemma_pow10_pos(scale - 9);
        lemma_pow10_add(scale - 9, 9);
        assert(frac + d / 2 < d * 1_000_000_000 + d) by (nonlinear_arith)
            requires frac < d * 1_000_000_000, d >= 1
        ;
        assert((frac + d / 2) / d < 1_000_000_001) by (nonlinear_arith)
            requires 0 <= frac + d / 2 < d * 1_000_000_001, d >= 1
        ;
        assert((frac + d / 2) / d >= 0) by (nonlinear_arith)
            requires 0 <= frac + d / 2, d >= 1
        ;
    }
}

} // verus!
