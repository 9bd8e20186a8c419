//! RFC 3339 timestamps.

use vstd::prelude::*;

use crate::number::{all_digits, decimal_value, is_digit, lemma_unsigned_not_negative, parse_i64};
use crate::number::{parse_u32, parse_u64, signed64, unsigned};
use crate::text::{cut, ends, first_at, lemma_cut_at, split_once, trim_end, trim_end_text, trimmed};
use crate::text::trimmed_text;

verus! {

// ---------------------------------------------------------------------------
// The calendar
// ---------------------------------------------------------------------------

/// Whether a year of the Gregorian calendar has 366 days.
pub open spec fn is_leap(year: int) -> bool {
    year % 4 == 0 && (year % 100 != 0 || year % 400 == 0)
}

/// How many days of a year come before its month.
pub open spec fn before_month(year: int, month: int) -> int {
    let leap = if is_leap(year) && month > 2 {
        1int
    } else {
        0int
    };
    let days: int = if month <= 1 {
        0
    } else if month == 2 {
        31
    } else if month == 3 {
        59
    } else if month == 4 {
        90
    } else if month == 5 {
        120
    } else if month == 6 {
        151
    } else if month == 7 {
        181
    } else if month == 8 {
        212
    } else if month == 9 {
        243
    } else if month == 10 {
        273
    } else if month == 11 {
        304
    } else {
        334
    };
    days + leap
}

/// How many leap years there are from the year 1 to before a year.
pub open spec fn leap_years_before(year: int) -> int {
    (year - 1) / 4 - (year - 1) / 100 + (year - 1) / 400
}

/// How many days lie between the first of January 1970 and that of a year.
pub open spec fn before_year(year: int) -> int {
    365 * (year - 1970) + leap_years_before(year) - leap_years_before(1970)
}

/// How many days lie between the first of January 1970 and a date. A day past the end of its
/// month counts on into the next.
pub open spec fn day_number(year: int, month: int, day: int) -> int {
    before_year(year) + before_month(year, month) + day - 1
}

/// The days from the epoch to a date: none where a month or a day cannot be, or the date lies
/// before the epoch.
pub open spec fn civil_days(year: int, month: int, day: int) -> Option<int> {
    if 1 <= month <= 12 && 1 <= day <= 31 && day_number(year, month, day) >= 0 {
        Some(day_number(year, month, day))
    } else {
        None
    }
}

/// More eras of 400 years than any 64-bit year lies before the year 0.
const ERAS: i128 = 0x100_0000_0000_0000;

/// The days from the epoch to a date.
pub fn civil_to_days(year: i64, month: u32, day: u32) -> (r: Option<u64>)
    requires
        1 <= month <= 12 && 1 <= day <= 31 ==> day_number(year as int, month as int, day as int)
            <= i64::MAX,
    ensures
        match r {
            Some(n) => civil_days(year as int, month as int, day as int) == Some(n as int),
            None => civil_days(year as int, month as int, day as int) is None,
        },
{
    if month < 1 || month > 12 || day < 1 || day > 31 {
        return None;
    }
    let m: i128 = month as i128;
    let d: i128 = day as i128;
    let y: i128 = if m <= 2 {
        year as i128 - 1
    } else {
        year as i128
    };
    // Moved by whole eras of 400 years, so that no year is negative.
    let moved: i128 = y + 400 * ERAS;
    let yoe: i128 = moved % 400;
    let era: i128 = moved / 400 - ERAS;
    // March is the first month of this year.
    let mp: i128 = if m > 2 {
        m - 3
    } else {
        m + 9
    };
    let doy: i128 = (153 * mp + 2) / 5 + d - 1;
    let doe: i128 = yoe * 365 + yoe / 4 - yoe / 100 + doy;
    let rd: i128 = era * 146_097 + doe - 719_468;
    proof {
        let yy = y as int;
        assert(yy == 400 * era + yoe);
        assert(yy / 4 == 100 * era + yoe / 4);
        assert(yy / 100 == 4 * era + yoe / 100);
        assert(yy / 400 == era);
        assert(rd == 365 * yy + yy / 4 - yy / 100 + yy / 400 + doy - 719_468);
        lemma_leap_year_counts(year as int);
        assert(leap_years_before(1970) == 477);
        assert(rd == day_number(year as int, month as int, day as int));
    }
    if rd >= 0 {
        Some(rd as u64)
    } else {
        None
    }
}

/// A leap year adds one to the leap years before the next.
proof fn lemma_leap_year_counts(year: int)
    ensures
        leap_years_before(year + 1) == leap_years_before(year) + (if is_leap(year) {
            1int
        } else {
            0int
        }),
{
}

// ---------------------------------------------------------------------------
// Timestamps
// ---------------------------------------------------------------------------

/// The year, month and day that a date writes.
pub open spec fn date_of(s: Seq<char>) -> Option<(int, int, int)> {
    match cut(s, '-') {
        Some((y, rest)) => match cut(rest, '-') {
            Some((m, d)) => match (
                signed64(y),
                unsigned(m, u32::MAX as int),
                unsigned(d, u32::MAX as int),
            ) {
                (Some(y), Some(m), Some(d)) => Some((y, m, d)),
                _ => None,
            },
            None => None,
        },
        None => None,
    }
}

/// The seconds that a numeral writes before its fraction.
pub open spec fn whole_part(s: Seq<char>) -> Seq<char> {
    match cut(s, '.') {
        Some((a, _)) => a,
        None => s,
    }
}

/// The hours, minutes and seconds that a time writes; it may leave the seconds out.
pub open spec fn time_of(s: Seq<char>) -> Option<(int, int, int)> {
    match cut(s, ':') {
        Some((h, rest)) => {
            let (m, sec) = match cut(rest, ':') {
                Some((m, sec)) => (m, sec),
                None => (rest, seq!['0']),
            };
            match (
                unsigned(h, u64::MAX as int),
                unsigned(m, u64::MAX as int),
                unsigned(whole_part(sec), u64::MAX as int),
            ) {
                (Some(h), Some(m), Some(sec)) => Some((h, m, sec)),
                _ => None,
            }
        },
        None => None,
    }
}

/// A timestamp without what says that it is in Universal Time.
pub open spec fn without_zone(s: Seq<char>) -> Seq<char> {
    trimmed_text(trimmed(s, 'Z'), "+00:00"@)
}

/// The date and the time of day that a timestamp writes.
pub open spec fn date_and_time(s: Seq<char>) -> Option<((int, int, int), (int, int, int))> {
    match cut(without_zone(s), 'T') {
        Some((date, time)) => match (date_of(date), time_of(time)) {
            (Some(d), Some(t)) => Some((d, t)),
            _ => None,
        },
        None => None,
    }
}

/// The seconds from the epoch to a timestamp in Universal Time.
pub open spec fn instant(s: Seq<char>) -> Option<int> {
    match date_and_time(s) {
        Some(((y, mo, d), (h, mi, sec))) => match civil_days(y, mo, d) {
            Some(days) => Some(days * 86_400 + h * 3_600 + mi * 60 + sec),
            None => None,
        },
        None => None,
    }
}

/// A timestamp whose instant, if it writes one, can be counted in 64 bits.
pub open spec fn countable_instant(s: Seq<char>) -> bool {
    instant(s) matches Some(t) ==> t <= u64::MAX
}

fn parse_date(s: &str) -> (r: Option<(i64, u32, u32)>)
    ensures
        match r {
            Some((y, m, d)) => date_of(s@) == Some((y as int, m as int, d as int)),
            None => date_of(s@) is None,
        },
{
    match split_once(s, '-') {
        Some((y, rest)) => match split_once(rest.as_str(), '-') {
            Some((m, d)) => match (
                parse_i64(y.as_str()),
                parse_u32(m.as_str()),
                parse_u32(d.as_str()),
            ) {
                (Some(y), Some(m), Some(d)) => Some((y, m, d)),
                _ => None,
            },
            None => None,
        },
        None => None,
    }
}

fn parse_time(s: &str) -> (r: Option<(u64, u64, u64)>)
    ensures
        match r {
            Some((h, m, sec)) => time_of(s@) == Some((h as int, m as int, sec as int)),
            None => time_of(s@) is None,
        },
{
    match split_once(s, ':') {
        Some((h, rest)) => {
            let (m, sec) = match split_once(rest.as_str(), ':') {
                Some((m, sec)) => (m, sec),
                None => (rest, "0".to_owned()),
            };
            proof {
                reveal_strlit("0");
                assert("0"@ =~= seq!['0']);
            }
            let whole = match split_once(sec.as_str(), '.') {
                Some((a, _)) => a,
                None => sec,
            };
            match (
                parse_u64(h.as_str()),
                parse_u64(m.as_str()),
                parse_u64(whole.as_str()),
            ) {
                (Some(h), Some(m), Some(sec)) => Some((h, m, sec)),
                _ => None,
            }
        },
        None => None,
    }
}

/// What a timestamp writes, in numbers.
type Written = ((i64, u32, u32), (u64, u64, u64));

fn parse_timestamp(s: &str) -> (r: Option<Written>)
    ensures
        match r {
            Some(((y, mo, d), (h, mi, sec))) => date_and_time(s@) == Some(
                ((y as int, mo as int, d as int), (h as int, mi as int, sec as int)),
            ),
            None => date_and_time(s@) is None,
        },
{
    let t = trim_end_text(trim_end(s, 'Z').as_str(), "+00:00");
    match split_once(t.as_str(), 'T') {
        Some((date, time)) => match (parse_date(date.as_str()), parse_time(time.as_str())) {
            (Some(d), Some(t)) => Some((d, t)),
            _ => None,
        },
        None => None,
    }
}

/// Tells whether the instant of a timestamp can be counted.
pub fn is_countable_instant(s: &str) -> (r: bool)
    ensures
        r == countable_instant(s@),
{
    match parse_timestamp(s) {
        Some(((y, mo, d), (h, mi, sec))) => {
            if mo < 1 || mo > 12 || d < 1 || d > 31 {
                return true;
            }
            proof {
                lemma_year_bounds(y as int, mo as int, d as int);
            }
            // A year past this has more seconds before it than can be counted.
            if y > 1_000_000_000_000 {
                proof {
                    match cut(without_zone(s@), 'T') {
                        Some((date, time)) => {
                            lemma_time_not_negative(time);
                        },
                        None => {},
                    }
                }
                return false;
            }
            match civil_to_days(y, mo, d) {
                Some(days) => {
                    let t: u128 = days as u128 * 86_400 + h as u128 * 3_600 + mi as u128 * 60
                        + sec as u128;
                    t <= 0xffff_ffff_ffff_ffff
                },
                None => true,
            }
        },
        None => true,
    }
}

proof fn lemma_time_not_negative(s: Seq<char>)
    ensures
        time_of(s) matches Some((h, m, sec)) ==> h >= 0 && m >= 0 && sec >= 0,
{
    match cut(s, ':') {
        Some((h, rest)) => {
            let (m, sec) = match cut(rest, ':') {
                Some((m, sec)) => (m, sec),
                None => (rest, seq!['0']),
            };
            lemma_unsigned_not_negative(h, u64::MAX as int);
            lemma_unsigned_not_negative(m, u64::MAX as int);
            lemma_unsigned_not_negative(whole_part(sec), u64::MAX as int);
        },
        None => {},
    }
}

/// The days before a year grow with it.
proof fn lemma_year_bounds(year: int, month: int, day: int)
    requires
        1 <= month <= 12,
        1 <= day <= 31,
    ensures
        365 * (year - 1970) <= day_number(year, month, day) || year < 1970,
        day_number(year, month, day) <= 366 * (year - 1970) + 400 || year < 1970,
        year < 1970 ==> day_number(year, month, day) < 400,
{
    assert(leap_years_before(1970) == 477);
    let y = year - 1;
    assert(y / 4 - y / 100 >= 0 || y < 0);
    assert(y >= 1969 ==> leap_years_before(year) >= 477) by {
        assert(y / 4 >= 492 && y / 400 >= 4 || y < 1969);
        assert(y >= 1969 ==> y / 4 - y / 100 + y / 400 >= 477) by {
            let q = y / 100;
            assert(q >= 19 || y < 1969);
            assert(y / 4 >= 25 * q);
            assert(y >= 2000 ==> y / 4 - q + y / 400 >= 477);
        }
    }
    assert(leap_years_before(year) - 477 <= (year - 1970) + 2 || year < 1970);
    assert(year < 1970 ==> leap_years_before(year) <= 477) by {
        assert(y < 1969 ==> y / 4 - y / 100 + y / 400 <= 477);
    }
}

/// Reads an RFC 3339 timestamp in Universal Time as seconds after the epoch.
pub fn parse_rfc3339(s: &str) -> (r: Option<u64>)
    requires
        countable_instant(s@),
    ensures
        match r {
            Some(t) => instant(s@) == Some(t as int),
            None => instant(s@) is None,
        },
{
    match parse_timestamp(s) {
        Some(((y, mo, d), (h, mi, sec))) => {
            if mo < 1 || mo > 12 || d < 1 || d > 31 {
                return None;
            }
            proof {
                lemma_year_bounds(y as int, mo as int, d as int);
                match cut(without_zone(s@), 'T') {
                    Some((date, time)) => {
                        lemma_time_not_negative(time);
                    },
                    None => {},
                }
            }
            match civil_to_days(y, mo, d) {
                Some(days) => Some(days * 86_400 + h * 3_600 + mi * 60 + sec),
                None => None,
            }
        },
        None => None,
    }
}

// ---------------------------------------------------------------------------
// Laws
// ---------------------------------------------------------------------------

/// The length of a month.
pub open spec fn month_length(year: int, month: int) -> int {
    if month == 2 {
        if is_leap(year) {
            29
        } else {
            28
        }
    } else if month == 4 || month == 6 || month == 9 || month == 11 {
        30
    } else {
        31
    }
}

/// Days are counted as the calendar has them: the epoch is day 0, each day is one more than
/// the day before it, each month starts where the one before it ends, and so does each year.
pub proof fn law_days_follow_the_calendar(year: int, month: int, day: int)
    requires
        1 <= month <= 12,
    ensures
        day_number(1970, 1, 1) == 0,
        day_number(year, month, day + 1) == day_number(year, month, day) + 1,
        month < 12 ==> day_number(year, month + 1, 1) == day_number(year, month, 1)
            + month_length(year, month),
        month == 12 ==> day_number(year + 1, 1, 1) == day_number(year, 12, 1) + month_length(
            year,
            12,
        ),
{
    lemma_leap_year_counts(year);
}

/// A date has a number of days where its month and its day can be and it does not lie before the
/// epoch, and only there.
pub proof fn law_dates_that_count(year: int, month: int, day: int)
    ensures
        1 <= month <= 12 && 1 <= day <= 31 && day_number(year, month, day) >= 0 <==> civil_days(
            year,
            month,
            day,
        ) is Some,
        civil_days(year, month, day) matches Some(n) ==> n == day_number(year, month, day),
{
}

/// The digits `s` write `n`.
pub open spec fn writes(s: Seq<char>, n: int) -> bool {
    &&& s.len() > 0
    &&& all_digits(s)
    &&& decimal_value(s) == n
    &&& n <= u32::MAX
}

/// Text in front of the first `c` is cut off by it.
proof fn lemma_cut_join(a: Seq<char>, c: char, b: Seq<char>)
    requires
        !a.contains(c),
    ensures
        cut(a.push(c) + b, c) == Some((a, b)),
{
    let s = a.push(c) + b;
    let i = a.len() as int;
    assert(s[i] == c);
    assert forall|j: int| 0 <= j < i implies s[j] != c by {
        assert(s[j] == a[j]);
    }
    assert(first_at(s, c, i));
    lemma_cut_at(s, c, i);
    assert(s.take(i) =~= a);
    assert(s.skip(i + 1) =~= b);
}

proof fn lemma_digits_hold_no(s: Seq<char>, c: char)
    requires
        all_digits(s),
        !is_digit(c),
    ensures
        !s.contains(c),
{
    if s.contains(c) {
        let i = choose|i: int| 0 <= i < s.len() && s[i] == c;
        assert(is_digit(s[i]));
    }
}

/// A timestamp says its instant: the days to its date, and the hours, minutes and whole seconds
/// of its time, as it writes them. That it is in Universal Time may be said by `Z`, by `+00:00`
/// or not at all.
pub proof fn law_timestamp_reads(
    year: Seq<char>,
    month: Seq<char>,
    day: Seq<char>,
    hour: Seq<char>,
    minute: Seq<char>,
    second: Seq<char>,
    y: int,
    mo: int,
    d: int,
    h: int,
    mi: int,
    sec: int,
)
    requires
        writes(year, y),
        writes(month, mo),
        writes(day, d),
        writes(hour, h),
        writes(minute, mi),
        writes(second, sec),
    ensures
        ({
            let date = year.push('-') + (month.push('-') + day);
            let time = hour.push(':') + (minute.push(':') + second);
            let stamp = date.push('T') + time;
            let secs = match civil_days(y, mo, d) {
                Some(n) => Some(n * 86_400 + h * 3_600 + mi * 60 + sec),
                None => None,
            };
            &&& instant(stamp) == secs
            &&& instant(stamp.push('Z')) == secs
            &&& instant(stamp + "+00:00"@) == secs
        }),
{
    let date = year.push('-') + (month.push('-') + day);
    let time = hour.push(':') + (minute.push(':') + second);
    let stamp = date.push('T') + time;
    lemma_digits_hold_no(year, '-');
    lemma_digits_hold_no(month, '-');
    lemma_digits_hold_no(hour, ':');
    lemma_digits_hold_no(minute, ':');
    lemma_digits_hold_no(second, '.');
    lemma_cut_join(year, '-', month.push('-') + day);
    lemma_cut_join(month, '-', day);
    lemma_cut_join(hour, ':', minute.push(':') + second);
    lemma_cut_join(minute, ':', second);
    assert(!date.contains('T')) by {
        if date.contains('T') {
            let i = choose|i: int| 0 <= i < date.len() && date[i] == 'T';
            let a = year.len() as int;
            let b = month.len() as int;
            if i < a {
                assert(is_digit(year[i]));
            } else if a < i < a + 1 + b {
                assert(is_digit(month[i - a - 1]));
            } else if i > a + 1 + b {
                assert(is_digit(day[i - a - b - 2]));
            }
        }
    }
    lemma_cut_join(date, 'T', time);
    assert(is_digit(year[0]) && is_digit(month[0]) && is_digit(day[0]));
    assert(is_digit(hour[0]) && is_digit(minute[0]) && is_digit(second[0]));
    assert(cut(second, '.') is None);
    assert(date_of(date) == Some((y, mo, d)));
    assert(time_of(time) == Some((h, mi, sec)));
    reveal_strlit("+00:00");
    let zone = "+00:00"@;
    let n = stamp.len() as int;
    assert(stamp.last() == second.last());
    assert(is_digit(second[second.len() - 1]));
    assert(!ends(stamp, zone)) by {
        let front = date.push('T') + (hour.push(':') + minute);
        let c = front.len() - 3;
        assert(front.push(':') + second =~= stamp);
        if minute.len() == 1 {
            assert(front[c] == hour.last());
            assert(is_digit(hour[hour.len() - 1]));
        } else if minute.len() > 2 {
            assert(front[c] == minute[minute.len() - 3]);
            assert(is_digit(minute[minute.len() - 3]));
        }
        assert(zone =~= seq!['+', '0', '0', ':', '0', '0']);
        lemma_last_part(stamp, front, second, zone);
    }
    assert(trimmed(stamp, 'Z') == stamp);
    assert(trimmed_text(stamp, zone) == stamp);
    assert(without_zone(stamp) == stamp);
    assert(stamp.push('Z').drop_last() =~= stamp);
    assert(trimmed(stamp.push('Z'), 'Z') == stamp);
    let zoned = stamp + zone;
    assert(zoned.last() == '0');
    assert(ends(zoned, zone)) by {
        assert(zoned.subrange(n, zoned.len() as int) =~= zone);
    }
    assert(zoned.take(n) =~= stamp);
    assert(trimmed_text(zoned, zone) == stamp);
}

/// The fraction of a second is left out: a timestamp with one says the same instant as the one
/// without it.
pub proof fn law_fraction_is_left_out(
    date: Seq<char>,
    hour: Seq<char>,
    minute: Seq<char>,
    second: Seq<char>,
    fraction: Seq<char>,
)
    requires
        all_digits(hour),
        all_digits(minute),
        all_digits(second),
        all_digits(fraction),
        !date.contains('T'),
    ensures
        ({
            let time = hour.push(':') + (minute.push(':') + second);
            let stamp = date.push('T') + time;
            let fine = date.push('T') + (hour.push(':') + (minute.push(':') + (second.push('.')
                + fraction)));
            &&& without_zone(stamp) == stamp ==> instant(fine.push('Z')) == instant(stamp.push('Z'))
            &&& second.len() > 0 ==> without_zone(fine) == fine
        }),
{
    let late = second.push('.') + fraction;
    let time = hour.push(':') + (minute.push(':') + second);
    let fine_time = hour.push(':') + (minute.push(':') + late);
    let stamp = date.push('T') + time;
    let fine = date.push('T') + fine_time;
    lemma_digits_hold_no(hour, ':');
    lemma_digits_hold_no(minute, ':');
    lemma_digits_hold_no(second, '.');
    lemma_cut_join(hour, ':', minute.push(':') + second);
    lemma_cut_join(minute, ':', second);
    lemma_cut_join(hour, ':', minute.push(':') + late);
    lemma_cut_join(minute, ':', late);
    lemma_cut_join(second, '.', fraction);
    lemma_cut_join(date, 'T', time);
    lemma_cut_join(date, 'T', fine_time);
    assert(whole_part(late) == second);
    assert(whole_part(second) == second);
    assert(time_of(fine_time) == time_of(time));
    reveal_strlit("+00:00");
    let zone = "+00:00"@;
    let n = fine.len() as int;
    let f = fraction.len() as int;
    assert(fine.last() != 'Z') by {
        if f > 0 {
            assert(fine.last() == fraction[f - 1]);
            assert(is_digit(fraction[f - 1]));
        }
    }
    assert(!ends(fine, zone)) by {
        if ends(fine, zone) {
            let z = fine.subrange(n - 6, n);
            assert(z[3] == ':' && z[4] == '0' && z[5] == '0');
            if f >= 3 {
                assert(fine[n - 3] == fraction[f - 3]);
                assert(is_digit(fraction[f - 3]));
            } else {
                assert(fine[n - 1 - f] == '.');
                assert(z[5 - f] == '.');
            }
        }
    }
    assert(fine.push('Z').drop_last() =~= fine);
    assert(stamp.push('Z').drop_last() =~= stamp);
    assert(trimmed(fine, 'Z') == fine);
    assert(trimmed(fine.push('Z'), 'Z') == fine);
    assert(trimmed_text(fine, zone) == fine);
    assert(without_zone(fine.push('Z')) == fine);
    if without_zone(stamp) == stamp {
        assert(trimmed(stamp.push('Z'), 'Z') == trimmed(stamp, 'Z'));
        assert(without_zone(stamp.push('Z')) == stamp);
    }
}

/// A text whose last part, after a colon, holds digits alone does not end in the zone, whose sign
/// would stand before that part.
proof fn lemma_last_part(s: Seq<char>, front: Seq<char>, digits: Seq<char>, zone: Seq<char>)
    requires
        s == front.push(':') + digits,
        all_digits(digits),
        digits.len() > 0,
        front.len() >= 3,
        zone == seq!['+', '0', '0', ':', '0', '0'],
        front[front.len() - 3] != '+',
    ensures
        !ends(s, zone),
{
    if ends(s, zone) {
        let k = s.len() - 6;
        let z = s.subrange(k, s.len() as int);
        assert(z[3] == ':');
        assert(s[k + 3] == ':');
        let c = front.len() as int;
        if k + 3 > c {
            assert(is_digit(digits[k + 3 - c - 1]));
        } else if k + 3 < c {
            assert(z[c - k] == ':');
            assert(z[4] == '0' && z[5] == '0');
        } else {
            assert(z[0] == '+');
            assert(s[k] == front[c - 3]);
        }
    }
}

} // verus!
