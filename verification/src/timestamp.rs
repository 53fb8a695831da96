//! Timezone-naive calendar timestamps and the fixed-format `YYYYMMDDTHHMMSS`
//! parser used for DTSTART/DTEND property values.
//!
//! A malformed value never aborts extraction: [`datetime_or_epoch`] falls back
//! to the epoch (1970-01-01T00:00:00) instead.

use vstd::prelude::*;

verus! {

/// A calendar date, timezone-naive.
#[derive(Clone, Copy, PartialEq, Eq, Structural, Debug)]
pub struct Date {
    pub year: u32,
    pub month: u32,
    pub day: u32,
}

/// A calendar timestamp (date plus time of day), timezone-naive.
#[derive(Clone, Copy, PartialEq, Eq, Structural, Debug)]
pub struct DateTime {
    pub year: u32,
    pub month: u32,
    pub day: u32,
    pub hour: u32,
    pub minute: u32,
    pub second: u32,
}

impl DateTime {
    /// The calendar-date component of the timestamp.
    pub open spec fn date_spec(self) -> Date {
        Date { year: self.year, month: self.month, day: self.day }
    }

    /// Drops the time of day, keeping the calendar date.
    pub fn date(&self) -> (d: Date)
        ensures
            d == self.date_spec(),
    {
        Date { year: self.year, month: self.month, day: self.day }
    }
}

/// The fallback timestamp, 1970-01-01T00:00:00.
pub open spec fn epoch_spec() -> DateTime {
    DateTime { year: 1970, month: 1, day: 1, hour: 0, minute: 0, second: 0 }
}

/// Returns the fallback timestamp, 1970-01-01T00:00:00.
pub fn epoch() -> (dt: DateTime)
    ensures
        dt == epoch_spec(),
{
    DateTime { year: 1970, month: 1, day: 1, hour: 0, minute: 0, second: 0 }
}

pub open spec fn is_leap_year(y: u32) -> bool {
    y % 4 == 0 && (y % 100 != 0 || y % 400 == 0)
}

pub open spec fn days_in_month_spec(y: u32, m: u32) -> u32 {
    if m == 4 || m == 6 || m == 9 || m == 11 {
        30
    } else if m == 2 {
        if is_leap_year(y) {
            29
        } else {
            28
        }
    } else {
        31
    }
}

/// A timestamp denotes a real calendar date and time of day.
pub open spec fn valid_datetime(dt: DateTime) -> bool {
    &&& 1 <= dt.month <= 12
    &&& 1 <= dt.day <= days_in_month_spec(dt.year, dt.month)
    &&& dt.hour <= 23
    &&& dt.minute <= 59
    &&& dt.second <= 59
}

pub open spec fn is_digit(c: char) -> bool {
    ||| c == '0'
    ||| c == '1'
    ||| c == '2'
    ||| c == '3'
    ||| c == '4'
    ||| c == '5'
    ||| c == '6'
    ||| c == '7'
    ||| c == '8'
    ||| c == '9'
}

pub open spec fn digit_val(c: char) -> u32 {
    if c == '0' {
        0
    } else if c == '1' {
        1
    } else if c == '2' {
        2
    } else if c == '3' {
        3
    } else if c == '4' {
        4
    } else if c == '5' {
        5
    } else if c == '6' {
        6
    } else if c == '7' {
        7
    } else if c == '8' {
        8
    } else {
        9
    }
}

/// The value of the two decimal digits at positions `i`, `i + 1`.
pub open spec fn two_digit_num(s: Seq<char>, i: int) -> u32
    recommends
        0 <= i,
        i + 2 <= s.len(),
{
    (digit_val(s[i]) * 10 + digit_val(s[i + 1])) as u32
}

/// The value of the four decimal digits at positions `i` .. `i + 3`.
pub open spec fn four_digit_num(s: Seq<char>, i: int) -> u32
    recommends
        0 <= i,
        i + 4 <= s.len(),
{
    (digit_val(s[i]) * 1000 + digit_val(s[i + 1]) * 100 + digit_val(s[i + 2]) * 10 + digit_val(
        s[i + 3],
    )) as u32
}

/// The string has the shape `YYYYMMDDTHHMMSS`: 15 characters, digits
/// everywhere but the literal `T` separator.
pub open spec fn timestamp_well_formed(s: Seq<char>) -> bool {
    &&& s.len() == 15
    &&& (forall|i: int| 0 <= i < 8 ==> is_digit(#[trigger] s[i]))
    &&& s[8] == 'T'
    &&& (forall|i: int| 9 <= i < 15 ==> is_digit(#[trigger] s[i]))
}

/// The six numeric fields read off a well-formed `YYYYMMDDTHHMMSS` string.
pub open spec fn timestamp_fields(s: Seq<char>) -> DateTime {
    DateTime {
        year: four_digit_num(s, 0),
        month: two_digit_num(s, 4),
        day: two_digit_num(s, 6),
        hour: two_digit_num(s, 9),
        minute: two_digit_num(s, 11),
        second: two_digit_num(s, 13),
    }
}

/// What parsing a DTSTART/DTEND value yields: the literal digit fields when
/// the string is well formed and denotes a real calendar date and time,
/// nothing otherwise.
pub open spec fn parse_timestamp_spec(s: Seq<char>) -> Option<DateTime> {
    if timestamp_well_formed(s) && valid_datetime(timestamp_fields(s)) {
        Some(timestamp_fields(s))
    } else {
        None
    }
}

/// The degrade-gracefully reading of a DTSTART/DTEND value: the parsed
/// timestamp, or the epoch when the value is malformed.
pub open spec fn timestamp_or_epoch_spec(s: Seq<char>) -> DateTime {
    match parse_timestamp_spec(s) {
        Some(dt) => dt,
        None => epoch_spec(),
    }
}

fn digit_of(c: char) -> (r: Option<u32>)
    ensures
        r is Some <==> is_digit(c),
        r is Some ==> r == Some(digit_val(c)),
{
    match c {
        '0' => Some(0),
        '1' => Some(1),
        '2' => Some(2),
        '3' => Some(3),
        '4' => Some(4),
        '5' => Some(5),
        '6' => Some(6),
        '7' => Some(7),
        '8' => Some(8),
        '9' => Some(9),
        _ => None,
    }
}

fn read_two(s: &str, i: usize) -> (r: Option<u32>)
    requires
        i + 2 <= s@.len(),
        s@.len() <= usize::MAX,
    ensures
        r is Some <==> is_digit(s@[i as int]) && is_digit(s@[i + 1]),
        r is Some ==> r == Some(two_digit_num(s@, i as int)),
{
    let c0 = s.get_char(i);
    let c1 = s.get_char(i + 1);
    match (digit_of(c0), digit_of(c1)) {
        (Some(d0), Some(d1)) => Some(d0 * 10 + d1),
        _ => None,
    }
}

fn read_four(s: &str, i: usize) -> (r: Option<u32>)
    requires
        i + 4 <= s@.len(),
        s@.len() <= usize::MAX,
    ensures
        r is Some <==> is_digit(s@[i as int]) && is_digit(s@[i + 1]) && is_digit(s@[i + 2])
            && is_digit(s@[i + 3]),
        r is Some ==> r == Some(four_digit_num(s@, i as int)),
{
    let c0 = s.get_char(i);
    let c1 = s.get_char(i + 1);
    let c2 = s.get_char(i + 2);
    let c3 = s.get_char(i + 3);
    match (digit_of(c0), digit_of(c1), digit_of(c2), digit_of(c3)) {
        (Some(d0), Some(d1), Some(d2), Some(d3)) => Some(d0 * 1000 + d1 * 100 + d2 * 10 + d3),
        _ => None,
    }
}

fn days_in_month(y: u32, m: u32) -> (r: u32)
    ensures
        r == days_in_month_spec(y, m),
{
    if m == 4 || m == 6 || m == 9 || m == 11 {
        30
    } else if m == 2 {
        if y % 4 == 0 && (y % 100 != 0 || y % 400 == 0) {
            29
        } else {
            28
        }
    } else {
        31
    }
}

/// Parse a `YYYYMMDDTHHMMSS` string; `None` exactly on malformed input
/// (wrong shape, or a field outside its calendar range).
pub fn parse_timestamp(s: &str) -> (r: Option<DateTime>)
    ensures
        r == parse_timestamp_spec(s@),
{
    let n = s.unicode_len();
    if n != 15 {
        return None;
    }
    if s.get_char(8) != 'T' {
        return None;
    }
    let year = read_four(s, 0);
    let month = read_two(s, 4);
    let day = read_two(s, 6);
    let hour = read_two(s, 9);
    let minute = read_two(s, 11);
    let second = read_two(s, 13);
    match (year, month, day, hour, minute, second) {
        (Some(y), Some(mo), Some(d), Some(h), Some(mi), Some(se)) => {
            let dt = DateTime { year: y, month: mo, day: d, hour: h, minute: mi, second: se };
            proof {
                assert forall|i: int| 0 <= i < 8 implies is_digit(#[trigger] s@[i]) by {
                    assert(is_digit(s@[0]) && is_digit(s@[1]) && is_digit(s@[2]) && is_digit(
                        s@[3],
                    ));
                    assert(is_digit(s@[4]) && is_digit(s@[5]) && is_digit(s@[6]) && is_digit(
                        s@[7],
                    ));
                }
                assert forall|i: int| 9 <= i < 15 implies is_digit(#[trigger] s@[i]) by {
                    assert(is_digit(s@[9]) && is_digit(s@[10]) && is_digit(s@[11]) && is_digit(
                        s@[12],
                    ));
                    assert(is_digit(s@[13]) && is_digit(s@[14]));
                }
                assert(timestamp_well_formed(s@));
                assert(dt == timestamp_fields(s@));
            }
            if mo < 1 || mo > 12 {
                return None;
            }
            if d < 1 || d > days_in_month(y, mo) {
                return None;
            }
            if h > 23 || mi > 59 || se > 59 {
                return None;
            }
            Some(dt)
        },
        _ => None,
    }
}

/// Parse a DTSTART/DTEND value, falling back to the epoch on any malformed
/// input rather than failing.
pub fn datetime_or_epoch(s: &str) -> (dt: DateTime)
    ensures
        dt == timestamp_or_epoch_spec(s@),
        valid_datetime(dt),
{
    match parse_timestamp(s) {
        Some(dt) => dt,
        None => epoch(),
    }
}

/// A well-formed value that denotes a real calendar date and time parses to
/// exactly the literal year/month/day/hour/minute/second digit fields.
pub proof fn lemma_timestamp_components(s: Seq<char>)
    requires
        timestamp_well_formed(s),
        valid_datetime(timestamp_fields(s)),
    ensures
        parse_timestamp_spec(s) == Some(timestamp_fields(s)),
        timestamp_or_epoch_spec(s) == timestamp_fields(s),
{
}

/// A malformed value is read as the epoch default.
pub proof fn lemma_malformed_timestamp_defaults(s: Seq<char>)
    requires
        parse_timestamp_spec(s) is None,
    ensures
        timestamp_or_epoch_spec(s) == epoch_spec(),
{
}

pub open spec fn digit_char(d: u32) -> char {
    if d == 0 {
        '0'
    } else if d == 1 {
        '1'
    } else if d == 2 {
        '2'
    } else if d == 3 {
        '3'
    } else if d == 4 {
        '4'
    } else if d == 5 {
        '5'
    } else if d == 6 {
        '6'
    } else if d == 7 {
        '7'
    } else if d == 8 {
        '8'
    } else {
        '9'
    }
}

/// A number rendered as two decimal digits, zero-padded.
pub open spec fn two_digits_label(n: u32) -> Seq<char> {
    seq![digit_char(n / 10), digit_char(n % 10)]
}

/// The time of day rendered `HH:MM:SS`.
pub open spec fn time_label_spec(dt: DateTime) -> Seq<char> {
    two_digits_label(dt.hour) + seq![':'] + two_digits_label(dt.minute) + seq![':']
        + two_digits_label(dt.second)
}

/// The derived display string `<start time>-<end time>`.
pub open spec fn duration_label_spec(start: DateTime, end: DateTime) -> Seq<char> {
    time_label_spec(start) + seq!['-'] + time_label_spec(end)
}

fn digit_str(d: u32) -> (r: &'static str)
    ensures
        r@ == seq![digit_char(d)],
{
    if d == 0 {
        proof {
            reveal_strlit("0");
        }
        "0"
    } else if d == 1 {
        proof {
            reveal_strlit("1");
        }
        "1"
    } else if d == 2 {
        proof {
            reveal_strlit("2");
        }
        "2"
    } else if d == 3 {
        proof {
            reveal_strlit("3");
        }
        "3"
    } else if d == 4 {
        proof {
            reveal_strlit("4");
        }
        "4"
    } else if d == 5 {
        proof {
            reveal_strlit("5");
        }
        "5"
    } else if d == 6 {
        proof {
            reveal_strlit("6");
        }
        "6"
    } else if d == 7 {
        proof {
            reveal_strlit("7");
        }
        "7"
    } else if d == 8 {
        proof {
            reveal_strlit("8");
        }
        "8"
    } else {
        proof {
            reveal_strlit("9");
        }
        "9"
    }
}

fn push_two_digits(out: &mut String, n: u32)
    ensures
        final(out)@ == old(out)@ + two_digits_label(n),
{
    out.append(digit_str(n / 10));
    out.append(digit_str(n % 10));
}

/// Render the time of day of `dt` as `HH:MM:SS` and append it.
fn push_time_label(out: &mut String, dt: &DateTime)
    ensures
        final(out)@ == old(out)@ + time_label_spec(*dt),
{
    push_two_digits(out, dt.hour);
    proof {
        reveal_strlit(":");
    }
    out.append(":");
    push_two_digits(out, dt.minute);
    out.append(":");
    push_two_digits(out, dt.second);
    proof {
        assert(out@ =~= old(out)@ + time_label_spec(*dt));
    }
}

/// The derived display string for an event: `<start time>-<end time>`,
/// each side rendered `HH:MM:SS`.
pub fn duration_label(start: &DateTime, end: &DateTime) -> (r: String)
    ensures
        r@ == duration_label_spec(*start, *end),
{
    let mut out = String::new();
    push_time_label(&mut out, start);
    proof {
        reveal_strlit("-");
    }
    out.append("-");
    push_time_label(&mut out, end);
    proof {
        assert(out@ =~= duration_label_spec(*start, *end));
    }
    out
}

} // verus!
