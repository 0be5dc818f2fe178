//! Civil (wall-clock) date-times and the fixed `YYYY-MM-DD HH:MM:SS`
//! timestamp format used in every written line.

use vstd::prelude::*;

verus! {

/// A local civil date-time, second granularity.
#[derive(Debug, Clone, Copy, PartialEq, Eq, Structural)]
pub struct CivilDateTime {
    pub year: u32,
    pub month: u32,
    pub day: u32,
    pub hour: u32,
    pub minute: u32,
    pub second: u32,
}

pub open spec fn is_leap_year(y: int) -> bool {
    (y % 4 == 0 && y % 100 != 0) || y % 400 == 0
}

/// Days in a month of the proleptic Gregorian calendar.
pub open spec fn spec_days_in_month(y: int, m: int) -> int {
    if m == 2 {
        if is_leap_year(y) {
            29
        } else {
            28
        }
    } else if m == 4 || m == 6 || m == 9 || m == 11 {
        30
    } else {
        31
    }
}

/// A calendar-valid date-time whose year fits the four-digit line format.
pub open spec fn valid_civil(t: CivilDateTime) -> bool {
    &&& t.year <= 9999
    &&& 1 <= t.month <= 12
    &&& 1 <= t.day <= spec_days_in_month(t.year as int, t.month as int)
    &&& t.hour <= 23
    &&& t.minute <= 59
    &&& t.second <= 59
}

pub fn days_in_month(y: u32, m: u32) -> (r: u32)
    requires
        1 <= m <= 12,
    ensures
        r == spec_days_in_month(y as int, m as int),
{
    if m == 2 {
        if (y % 4 == 0 && y % 100 != 0) || y % 400 == 0 {
            29
        } else {
            28
        }
    } else if m == 4 || m == 6 || m == 9 || m == 11 {
        30
    } else {
        31
    }
}

pub open spec fn is_digit(b: u8) -> bool {
    ('0' as u8) <= b <= ('9' as u8)
}

pub open spec fn digit_val(b: u8) -> int {
    b - ('0' as u8)
}

/// A number below 100, zero-padded to two decimal digits.
pub open spec fn two_digits(n: int) -> Seq<u8> {
    seq![(('0' as u8) + n / 10) as u8, (('0' as u8) + n % 10) as u8]
}

/// A number below 10000, zero-padded to four decimal digits.
pub open spec fn four_digits(n: int) -> Seq<u8> {
    seq![
        (('0' as u8) + n / 1000) as u8,
        (('0' as u8) + (n / 100) % 10) as u8,
        (('0' as u8) + (n / 10) % 10) as u8,
        (('0' as u8) + n % 10) as u8,
    ]
}

/// The 19-byte timestamp `YYYY-MM-DD HH:MM:SS` of a civil date-time.
pub open spec fn timestamp_bytes(t: CivilDateTime) -> Seq<u8> {
    four_digits(t.year as int) + seq![('-' as u8)] + two_digits(t.month as int) + seq![
        ('-' as u8),
    ] + two_digits(t.day as int) + seq![(' ' as u8)] + two_digits(t.hour as int) + seq![
        (':' as u8),
    ] + two_digits(t.minute as int) + seq![(':' as u8)] + two_digits(t.second as int)
}

/// Appends the two-digit form of `n` to `out`.
pub fn push_two_digits(out: &mut Vec<u8>, n: u32)
    requires
        n < 100,
    ensures
        final(out)@ == old(out)@ + two_digits(n as int),
{
    out.push(('0' as u8) + (n / 10) as u8);
    out.push(('0' as u8) + (n % 10) as u8);
    assert(out@ =~= old(out)@ + two_digits(n as int));
}

/// Appends the four-digit form of `n` to `out`.
pub fn push_four_digits(out: &mut Vec<u8>, n: u32)
    requires
        n < 10000,
    ensures
        final(out)@ == old(out)@ + four_digits(n as int),
{
    out.push(('0' as u8) + (n / 1000) as u8);
    out.push(('0' as u8) + ((n / 100) % 10) as u8);
    out.push(('0' as u8) + ((n / 10) % 10) as u8);
    out.push(('0' as u8) + (n % 10) as u8);
    assert(out@ =~= old(out)@ + four_digits(n as int));
}

/// Appends the 19-byte timestamp of `t` to `out`.
pub fn push_timestamp(out: &mut Vec<u8>, t: &CivilDateTime)
    requires
        valid_civil(*t),
    ensures
        final(out)@ == old(out)@ + timestamp_bytes(*t),
{
    push_four_digits(out, t.year);
    out.push('-' as u8);
    push_two_digits(out, t.month);
    out.push('-' as u8);
    push_two_digits(out, t.day);
    out.push(' ' as u8);
    push_two_digits(out, t.hour);
    out.push(':' as u8);
    push_two_digits(out, t.minute);
    out.push(':' as u8);
    push_two_digits(out, t.second);
    assert(out@ =~= old(out)@ + timestamp_bytes(*t));
}

/// The timestamp of `t` as a fresh byte vector.
pub fn format_timestamp(t: &CivilDateTime) -> (r: Vec<u8>)
    requires
        valid_civil(*t),
    ensures
        r@ == timestamp_bytes(*t),
{
    let mut out: Vec<u8> = Vec::new();
    push_timestamp(&mut out, t);
    out
}

/// The value of two decimal digit bytes.
pub open spec fn two_digit_val(s: Seq<u8>, i: int) -> int {
    10 * digit_val(s[i]) + digit_val(s[i + 1])
}

/// The value of four decimal digit bytes.
pub open spec fn four_digit_val(s: Seq<u8>, i: int) -> int {
    1000 * digit_val(s[i]) + 100 * digit_val(s[i + 1]) + 10 * digit_val(s[i + 2]) + digit_val(
        s[i + 3],
    )
}

/// Whether `s` has the exact shape `YYYY-MM-DD HH:MM:SS`, all fields decimal
/// digits in the fixed positions.
pub open spec fn timestamp_shaped(s: Seq<u8>) -> bool {
    &&& s.len() == 19
    &&& is_digit(s[0]) && is_digit(s[1]) && is_digit(s[2]) && is_digit(s[3])
    &&& s[4] == ('-' as u8)
    &&& is_digit(s[5]) && is_digit(s[6])
    &&& s[7] == ('-' as u8)
    &&& is_digit(s[8]) && is_digit(s[9])
    &&& s[10] == (' ' as u8)
    &&& is_digit(s[11]) && is_digit(s[12])
    &&& s[13] == (':' as u8)
    &&& is_digit(s[14]) && is_digit(s[15])
    &&& s[16] == (':' as u8)
    &&& is_digit(s[17]) && is_digit(s[18])
}

/// The date-time read off a timestamp-shaped byte string.
pub open spec fn timestamp_fields(s: Seq<u8>) -> CivilDateTime {
    CivilDateTime {
        year: four_digit_val(s, 0) as u32,
        month: two_digit_val(s, 5) as u32,
        day: two_digit_val(s, 8) as u32,
        hour: two_digit_val(s, 11) as u32,
        minute: two_digit_val(s, 14) as u32,
        second: two_digit_val(s, 17) as u32,
    }
}

/// Parse of the fixed timestamp format: `Some` exactly for timestamp-shaped
/// input whose fields form a calendar-valid date-time.
pub open spec fn spec_parse_timestamp(s: Seq<u8>) -> Option<CivilDateTime> {
    if timestamp_shaped(s) && valid_civil(timestamp_fields(s)) {
        Some(timestamp_fields(s))
    } else {
        None
    }
}

fn read_digit(b: u8) -> (r: Option<u32>)
    ensures
        r is Some <==> is_digit(b),
        r is Some ==> r->0 == digit_val(b) && r->0 <= 9,
{
    if ('0' as u8) <= b && b <= ('9' as u8) {
        Some((b - ('0' as u8)) as u32)
    } else {
        None
    }
}

fn read_two_digits(s: &[u8], i: usize) -> (r: Option<u32>)
    requires
        i + 2 <= s@.len(),
    ensures
        r is Some <==> is_digit(s@[i as int]) && is_digit(s@[i + 1]),
        r is Some ==> r->0 == two_digit_val(s@, i as int) && r->0 <= 99,
{
    let d0 = read_digit(s[i]);
    let d1 = read_digit(s[i + 1]);
    match (d0, d1) {
        (Some(a), Some(b)) => Some(10 * a + b),
        _ => None,
    }
}

fn read_four_digits(s: &[u8], i: usize) -> (r: Option<u32>)
    requires
        i + 4 <= s@.len(),
    ensures
        r is Some <==> is_digit(s@[i as int]) && is_digit(s@[i + 1]) && is_digit(s@[i + 2])
            && is_digit(s@[i + 3]),
        r is Some ==> r->0 == four_digit_val(s@, i as int) && r->0 <= 9999,
{
    let d0 = read_digit(s[i]);
    let d1 = read_digit(s[i + 1]);
    let d2 = read_digit(s[i + 2]);
    let d3 = read_digit(s[i + 3]);
    match (d0, d1, d2, d3) {
        (Some(a), Some(b), Some(c), Some(d)) => Some(1000 * a + 100 * b + 10 * c + d),
        _ => None,
    }
}

/// Parses the fixed `YYYY-MM-DD HH:MM:SS` format, validating the calendar
/// fields.
pub fn parse_timestamp(s: &[u8]) -> (r: Option<CivilDateTime>)
    ensures
        r == spec_parse_timestamp(s@),
{
    if s.len() != 19 {
        return None;
    }
    if !(s[4] == ('-' as u8) && s[7] == ('-' as u8) && s[10] == (' ' as u8) && s[13] == (':' as u8)
        && s[16] == (':' as u8)) {
        return None;
    }
    let year = read_four_digits(s, 0);
    let month = read_two_digits(s, 5);
    let day = read_two_digits(s, 8);
    let hour = read_two_digits(s, 11);
    let minute = read_two_digits(s, 14);
    let second = read_two_digits(s, 17);
    match (year, month, day, hour, minute, second) {
        (Some(y), Some(mo), Some(d), Some(h), Some(mi), Some(se)) => {
            let t = CivilDateTime { year: y, month: mo, day: d, hour: h, minute: mi, second: se };
            if 1 <= mo && mo <= 12 && 1 <= d && d <= days_in_month(y, mo) && h <= 23 && mi <= 59
                && se <= 59 {
                Some(t)
            } else {
                None
            }
        },
        _ => None,
    }
}

/// Formatting then parsing a calendar-valid date-time gives it back: the
/// timestamp format is lossless.
pub proof fn lemma_timestamp_round_trip(t: CivilDateTime)
    requires
        valid_civil(t),
    ensures
        spec_parse_timestamp(timestamp_bytes(t)) == Some(t),
{
    let s = timestamp_bytes(t);
    assert(timestamp_shaped(s));
    assert(four_digit_val(s, 0) == t.year as int) by {
        assert(s[0] == ('0' as u8) + (t.year as int) / 1000);
        assert(s[1] == ('0' as u8) + ((t.year as int) / 100) % 10);
        assert(s[2] == ('0' as u8) + ((t.year as int) / 10) % 10);
        assert(s[3] == ('0' as u8) + (t.year as int) % 10);
        lemma_four_digit_recompose(t.year as int);
    }
    assert(two_digit_val(s, 5) == t.month as int);
    assert(two_digit_val(s, 8) == t.day as int);
    assert(two_digit_val(s, 11) == t.hour as int);
    assert(two_digit_val(s, 14) == t.minute as int);
    assert(two_digit_val(s, 17) == t.second as int);
    assert(timestamp_fields(s) == t);
}

/// Decimal digit recomposition for four-digit numbers.
proof fn lemma_four_digit_recompose(n: int)
    requires
        0 <= n < 10000,
    ensures
        1000 * (n / 1000) + 100 * ((n / 100) % 10) + 10 * ((n / 10) % 10) + n % 10 == n,
{
    assert(1000 * (n / 1000) + 100 * ((n / 100) % 10) + 10 * ((n / 10) % 10) + n % 10 == n) by (nonlinear_arith)
        requires
            0 <= n < 10000,
    ;
}

} // verus!
