//! The timestamp codec: bidirectional conversion between the fixed textual
//! pattern `YYYY-MM-DD HH:MM:SS` (read as UTC, with no timezone offset in the
//! text) and a plain calendar timestamp at one-second resolution.

use vstd::prelude::*;
use vstd::string::StrSliceExecFns;

verus! {

/// An absolute UTC point in time at one-second resolution, held as plain
/// calendar components. A value is meaningful when `wf()` holds.
#[derive(Clone, Copy, Debug, PartialEq, Eq, Structural)]
pub struct Timestamp {
    pub year: u16,
    pub month: u8,
    pub day: u8,
    pub hour: u8,
    pub minute: u8,
    pub second: u8,
}

/// The error of the timestamp codec: the text does not match the pattern.
#[derive(Clone, Copy, Debug, PartialEq, Eq, Structural)]
pub struct FormatError;

pub open spec fn is_leap_year(y: int) -> bool {
    y % 4 == 0 && (y % 100 != 0 || y % 400 == 0)
}

pub open spec fn days_in_month(y: int, m: int) -> int {
    if m == 2 {
        if is_leap_year(y) {
            29
        } else {
            28
        }
    } else if m == 4 || m == 6 || m == 9 || m == 11 {
        30
    } else {
        31
    }
}

impl Timestamp {
    /// The components name a real calendar instant with a four-digit year.
    pub open spec fn wf(&self) -> bool {
        &&& self.year <= 9999
        &&& 1 <= self.month <= 12
        &&& 1 <= self.day <= days_in_month(self.year as int, self.month as int)
        &&& self.hour <= 23
        &&& self.minute <= 59
        &&& self.second <= 59
    }
}

pub open spec fn is_digit(c: char) -> bool {
    '0' <= c && c <= '9'
}

/// The numeric value of a digit character.
pub open spec fn dv(c: char) -> int {
    c as int - 48
}

/// The value of the two digit characters at positions `i`, `i + 1`.
pub open spec fn two_digits(s: Seq<char>, i: int) -> int {
    10 * dv(s[i]) + dv(s[i + 1])
}

/// The value of the four digit characters starting at position `i`.
pub open spec fn four_digits(s: Seq<char>, i: int) -> int {
    1000 * dv(s[i]) + 100 * dv(s[i + 1]) + 10 * dv(s[i + 2]) + dv(s[i + 3])
}

/// The text matches `YYYY-MM-DD HH:MM:SS` exactly and every component is in
/// range: month 01-12, day 01 up to the month's length in that year, hour
/// 00-23, minute and second 00-59. No extra characters, no fractional part.
pub open spec fn timestamp_text_wf(s: Seq<char>) -> bool {
    &&& s.len() == 19
    &&& is_digit(s[0]) && is_digit(s[1]) && is_digit(s[2]) && is_digit(s[3])
    &&& s[4] == '-'
    &&& is_digit(s[5]) && is_digit(s[6])
    &&& s[7] == '-'
    &&& is_digit(s[8]) && is_digit(s[9])
    &&& s[10] == ' '
    &&& is_digit(s[11]) && is_digit(s[12])
    &&& s[13] == ':'
    &&& is_digit(s[14]) && is_digit(s[15])
    &&& s[16] == ':'
    &&& is_digit(s[17]) && is_digit(s[18])
    &&& 1 <= two_digits(s, 5) <= 12
    &&& 1 <= two_digits(s, 8) <= days_in_month(four_digits(s, 0), two_digits(s, 5))
    &&& two_digits(s, 11) <= 23
    &&& two_digits(s, 14) <= 59
    &&& two_digits(s, 17) <= 59
}

/// The timestamp that a well-formed text denotes.
pub open spec fn spec_decode_timestamp(s: Seq<char>) -> Timestamp {
    Timestamp {
        year: four_digits(s, 0) as u16,
        month: two_digits(s, 5) as u8,
        day: two_digits(s, 8) as u8,
        hour: two_digits(s, 11) as u8,
        minute: two_digits(s, 14) as u8,
        second: two_digits(s, 17) as u8,
    }
}

/// What decoding returns on every input: the denoted timestamp exactly when
/// the text matches the pattern, and a format error otherwise.
pub open spec fn spec_parse_timestamp(s: Seq<char>) -> Result<Timestamp, FormatError> {
    if timestamp_text_wf(s) {
        Ok(spec_decode_timestamp(s))
    } else {
        Err(FormatError)
    }
}

pub open spec fn digit_char(d: int) -> char {
    (48 + d) as char
}

/// The text that a timestamp encodes to: each component zero-padded, with
/// the pattern's separators.
pub open spec fn spec_encode_timestamp(t: Timestamp) -> Seq<char> {
    seq![
        digit_char(t.year as int / 1000),
        digit_char((t.year as int / 100) % 10),
        digit_char((t.year as int / 10) % 10),
        digit_char(t.year as int % 10),
        '-',
        digit_char(t.month as int / 10),
        digit_char(t.month as int % 10),
        '-',
        digit_char(t.day as int / 10),
        digit_char(t.day as int % 10),
        ' ',
        digit_char(t.hour as int / 10),
        digit_char(t.hour as int % 10),
        ':',
        digit_char(t.minute as int / 10),
        digit_char(t.minute as int % 10),
        ':',
        digit_char(t.second as int / 10),
        digit_char(t.second as int % 10),
    ]
}

/// Reads the digit at position `i`, if there is one.
fn read_digit(s: &str, i: usize) -> (r: Option<u32>)
    requires
        i < s@.len(),
    ensures
        match r {
            Some(d) => is_digit(s@[i as int]) && d == dv(s@[i as int]),
            None => !is_digit(s@[i as int]),
        },
{
    let c = s.get_char(i);
    if '0' <= c && c <= '9' {
        Some(c as u32 - 48)
    } else {
        None
    }
}

/// Reads the two-digit number at positions `i`, `i + 1`, if both are digits.
fn read_two(s: &str, i: usize) -> (r: Option<u32>)
    requires
        i + 2 <= s@.len(),
        s@.len() <= usize::MAX,
    ensures
        match r {
            Some(v) => is_digit(s@[i as int]) && is_digit(s@[i + 1]) && v == two_digits(
                s@,
                i as int,
            ),
            None => !(is_digit(s@[i as int]) && is_digit(s@[i + 1])),
        },
{
    match (read_digit(s, i), read_digit(s, i + 1)) {
        (Some(a), Some(b)) => Some(10 * a + b),
        _ => None,
    }
}

/// Reads the four-digit number at positions `i` .. `i + 4`, if all are digits.
fn read_four(s: &str, i: usize) -> (r: Option<u32>)
    requires
        i + 4 <= s@.len(),
        s@.len() <= usize::MAX,
    ensures
        match r {
            Some(v) => is_digit(s@[i as int]) && is_digit(s@[i + 1]) && is_digit(s@[i + 2])
                && is_digit(s@[i + 3]) && v == four_digits(s@, i as int),
            None => !(is_digit(s@[i as int]) && is_digit(s@[i + 1]) && is_digit(s@[i + 2])
                && is_digit(s@[i + 3])),
        },
{
    match (read_two(s, i), read_two(s, i + 2)) {
        (Some(a), Some(b)) => Some(100 * a + b),
        _ => None,
    }
}

fn days_in_month_exec(y: u32, m: u32) -> (r: u32)
    ensures
        r == days_in_month(y as int, m as int),
{
    if m == 2 {
        if y % 4 == 0 && (y % 100 != 0 || y % 400 == 0) {
            29
        } else {
            28
        }
    } else if m == 4 || m == 6 || m == 9 || m == 11 {
        30
    } else {
        31
    }
}

/// Decode direction of the codec: the text must match the pattern exactly;
/// anything else is a format error.
pub fn decode_timestamp(s: &str) -> (r: Result<Timestamp, FormatError>)
    ensures
        r == spec_parse_timestamp(s@),
        r is Ok <==> timestamp_text_wf(s@),
{
    if s.unicode_len() != 19 {
        return Err(FormatError);
    }
    if !(s.get_char(4) == '-' && s.get_char(7) == '-' && s.get_char(10) == ' ' && s.get_char(13)
        == ':' && s.get_char(16) == ':') {
        return Err(FormatError);
    }
    let (year, month, day, hour, minute, second) = match (
        read_four(s, 0),
        read_two(s, 5),
        read_two(s, 8),
        read_two(s, 11),
        read_two(s, 14),
        read_two(s, 17),
    ) {
        (Some(y), Some(mo), Some(d), Some(h), Some(mi), Some(se)) => (y, mo, d, h, mi, se),
        _ => {
            return Err(FormatError);
        },
    };
    if !(1 <= month && month <= 12) {
        return Err(FormatError);
    }
    if !(1 <= day && day <= days_in_month_exec(year, month)) {
        return Err(FormatError);
    }
    if !(hour <= 23 && minute <= 59 && second <= 59) {
        return Err(FormatError);
    }
    Ok(
        Timestamp {
            year: year as u16,
            month: month as u8,
            day: day as u8,
            hour: hour as u8,
            minute: minute as u8,
            second: second as u8,
        },
    )
}

fn digit_char_exec(d: u8) -> (c: char)
    requires
        d <= 9,
    ensures
        c == digit_char(d as int),
{
    (48 + d) as char
}

/// Pushes the zero-padded two-digit text of `v`.
fn push_two(out: &mut Vec<char>, v: u8)
    requires
        v <= 99,
    ensures
        final(out)@ == old(out)@ + seq![digit_char(v as int / 10), digit_char(v as int % 10)],
{
    out.push(digit_char_exec(v / 10));
    out.push(digit_char_exec(v % 10));
    assert(out@ =~= old(out)@ + seq![digit_char(v as int / 10), digit_char(v as int % 10)]);
}

/// Encode direction of the codec: the text of a timestamp, formatted exactly
/// per the pattern, as a sequence of characters.
pub fn encode_timestamp(t: &Timestamp) -> (r: Vec<char>)
    requires
        t.wf(),
    ensures
        r@ == spec_encode_timestamp(*t),
{
    let mut out: Vec<char> = Vec::new();
    out.push(digit_char_exec((t.year / 1000) as u8));
    out.push(digit_char_exec(((t.year / 100) % 10) as u8));
    out.push(digit_char_exec(((t.year / 10) % 10) as u8));
    out.push(digit_char_exec((t.year % 10) as u8));
    out.push('-');
    push_two(&mut out, t.month);
    out.push('-');
    push_two(&mut out, t.day);
    out.push(' ');
    push_two(&mut out, t.hour);
    out.push(':');
    push_two(&mut out, t.minute);
    out.push(':');
    push_two(&mut out, t.second);
    assert(out@ =~= spec_encode_timestamp(*t));
    out
}

/// The two digits of a number below 100 recombine to the number.
proof fn lemma_two_digit_split(a: int, b: int)
    requires
        0 <= a <= 9,
        0 <= b <= 9,
    ensures
        (10 * a + b) / 10 == a,
        (10 * a + b) % 10 == b,
{
    assert((10 * a + b) / 10 == a && (10 * a + b) % 10 == b) by (nonlinear_arith)
        requires
            0 <= a <= 9,
            0 <= b <= 9,
    ;
}

/// The four digits of a number below 10000 recombine to the number.
proof fn lemma_four_digit_split(a: int, b: int, c: int, d: int)
    requires
        0 <= a <= 9,
        0 <= b <= 9,
        0 <= c <= 9,
        0 <= d <= 9,
    ensures
        (1000 * a + 100 * b + 10 * c + d) / 1000 == a,
        ((1000 * a + 100 * b + 10 * c + d) / 100) % 10 == b,
        ((1000 * a + 100 * b + 10 * c + d) / 10) % 10 == c,
        (1000 * a + 100 * b + 10 * c + d) % 10 == d,
{
    let y = 1000 * a + 100 * b + 10 * c + d;
    assert(y / 1000 == a && (y / 100) % 10 == b && (y / 10) % 10 == c && y % 10 == d)
        by (nonlinear_arith)
        requires
            y == 1000 * a + 100 * b + 10 * c + d,
            0 <= a <= 9,
            0 <= b <= 9,
            0 <= c <= 9,
            0 <= d <= 9,
    ;
}

/// Decoding a well-formed text and re-encoding the result reproduces the
/// original text exactly (round trip at one-second resolution).
pub proof fn lemma_timestamp_round_trip(s: Seq<char>)
    requires
        timestamp_text_wf(s),
    ensures
        spec_decode_timestamp(s).wf(),
        spec_encode_timestamp(spec_decode_timestamp(s)) == s,
{
    let t = spec_decode_timestamp(s);
    lemma_four_digit_split(dv(s[0]), dv(s[1]), dv(s[2]), dv(s[3]));
    lemma_two_digit_split(dv(s[5]), dv(s[6]));
    lemma_two_digit_split(dv(s[8]), dv(s[9]));
    lemma_two_digit_split(dv(s[11]), dv(s[12]));
    lemma_two_digit_split(dv(s[14]), dv(s[15]));
    lemma_two_digit_split(dv(s[17]), dv(s[18]));
    assert(spec_encode_timestamp(t) =~= s);
}

/// A digit character casts back to the digit it was made of.
proof fn lemma_digit_char_val(d: int)
    requires
        0 <= d <= 9,
    ensures
        is_digit(digit_char(d)),
        dv(digit_char(d)) == d,
{
}

/// The zero-padded two-digit text of a number below 100 denotes the number.
proof fn lemma_two_digit_join(v: int)
    requires
        0 <= v <= 99,
    ensures
        0 <= v / 10 <= 9,
        0 <= v % 10 <= 9,
        10 * (v / 10) + v % 10 == v,
{
    assert(0 <= v / 10 <= 9 && 10 * (v / 10) + v % 10 == v) by (nonlinear_arith)
        requires
            0 <= v <= 99,
    ;
}

/// The zero-padded four-digit text of a number below 10000 denotes the number.
proof fn lemma_four_digit_join(y: int)
    requires
        0 <= y <= 9999,
    ensures
        0 <= y / 1000 <= 9,
        0 <= (y / 100) % 10 <= 9,
        0 <= (y / 10) % 10 <= 9,
        0 <= y % 10 <= 9,
        1000 * (y / 1000) + 100 * ((y / 100) % 10) + 10 * ((y / 10) % 10) + y % 10 == y,
{
    assert(0 <= y / 1000 <= 9 && 1000 * (y / 1000) + 100 * ((y / 100) % 10) + 10 * ((y / 10) % 10)
        + y % 10 == y) by (nonlinear_arith)
        requires
            0 <= y <= 9999,
    ;
}

/// Encoding a well-formed timestamp yields a well-formed text, and decoding
/// it gives the timestamp back (the codec loses nothing either way).
pub proof fn lemma_timestamp_encode_round_trip(t: Timestamp)
    requires
        t.wf(),
    ensures
        timestamp_text_wf(spec_encode_timestamp(t)),
        spec_decode_timestamp(spec_encode_timestamp(t)) == t,
{
    let s = spec_encode_timestamp(t);
    let y = t.year as int;
    lemma_four_digit_join(y);
    lemma_digit_char_val(y / 1000);
    lemma_digit_char_val((y / 100) % 10);
    lemma_digit_char_val((y / 10) % 10);
    lemma_digit_char_val(y % 10);
    lemma_two_digit_join(t.month as int);
    lemma_digit_char_val(t.month as int / 10);
    lemma_digit_char_val(t.month as int % 10);
    lemma_two_digit_join(t.day as int);
    lemma_digit_char_val(t.day as int / 10);
    lemma_digit_char_val(t.day as int % 10);
    lemma_two_digit_join(t.hour as int);
    lemma_digit_char_val(t.hour as int / 10);
    lemma_digit_char_val(t.hour as int % 10);
    lemma_two_digit_join(t.minute as int);
    lemma_digit_char_val(t.minute as int / 10);
    lemma_digit_char_val(t.minute as int % 10);
    lemma_two_digit_join(t.second as int);
    lemma_digit_char_val(t.second as int / 10);
    lemma_digit_char_val(t.second as int % 10);
    assert(four_digits(s, 0) == y);
    assert(two_digits(s, 5) == t.month as int);
    assert(two_digits(s, 8) == t.day as int);
    assert(two_digits(s, 11) == t.hour as int);
    assert(two_digits(s, 14) == t.minute as int);
    assert(two_digits(s, 17) == t.second as int);
}

} // verus!
