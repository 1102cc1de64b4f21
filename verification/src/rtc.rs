//! Loongson 2K1000LA TOY (time-of-year) decoding to Unix time.
use vstd::prelude::*;

verus! {

/// Gregorian leap year.
pub open spec fn leap(year: int) -> bool {
    (year % 4 == 0 && year % 100 != 0) || year % 400 == 0
}

pub open spec fn year_days(year: int) -> int {
    if leap(year) {
        366
    } else {
        365
    }
}

/// Days from 1970-01-01 to January 1st of `year`.
pub open spec fn days_before_year(year: int) -> int
    decreases year - 1970,
{
    if year <= 1970 {
        0
    } else {
        days_before_year(year - 1) + year_days(year - 1)
    }
}

/// Length of `month` (1-based) in `year`.
pub open spec fn month_length(year: int, month: int) -> int {
    month_len(leap(year), month)
}

/// Length of `month` (1-based) in a leap or common year.
pub open spec fn month_len(leap_year: bool, month: int) -> int {
    if month == 2 {
        if leap_year {
            29
        } else {
            28
        }
    } else if month == 4 || month == 6 || month == 9 || month == 11 {
        30
    } else {
        31
    }
}

/// Days from January 1st to the first day of `month` (1-based).
pub open spec fn days_before_month(year: int, month: int) -> int
    decreases month,
{
    if month <= 1 {
        0
    } else {
        days_before_month(year, month - 1) + month_length(year, month - 1)
    }
}

/// The fields name a real time of day on or after 1970-01-01.
pub open spec fn datetime_valid(year: i32, month: u32, day: u32, hour: u32, minute: u32, second: u32) -> bool {
    &&& 1 <= month <= 12
    &&& 1 <= day <= 31
    &&& hour <= 23
    &&& minute <= 59
    &&& second <= 59
    &&& year >= 1970
    &&& day <= month_length(year as int, month as int)
}

/// Nanoseconds since the Unix epoch of a valid date and time.
pub open spec fn unix_nanos(year: i32, month: u32, day: u32, hour: u32, minute: u32, second: u32) -> int {
    ((days_before_year(year as int) + days_before_month(year as int, month as int) + day - 1)
        * 86_400 + hour * 3_600 + minute * 60 + second) * 1_000_000_000
}

/// The Gregorian month lengths: the 31st exists exactly in January, March,
/// May, July, August, October and December; the 30th in every month but
/// February; February 29th exactly in leap years.
pub proof fn lemma_gregorian_month_lengths(year: i32, month: u32)
    requires
        year >= 1970,
        1 <= month <= 12,
    ensures
        datetime_valid(year, month, 31, 0, 0, 0) <==> (month == 1 || month == 3 || month == 5
            || month == 7 || month == 8 || month == 10 || month == 12),
        datetime_valid(year, month, 30, 0, 0, 0) <==> month != 2,
        datetime_valid(year, month, 29, 0, 0, 0) <==> (month != 2 || (year % 4 == 0 && year
            % 100 != 0) || year % 400 == 0),
        datetime_valid(year, month, 28, 0, 0, 0),
        month_length(year as int, month as int) == 30 <==> (month == 4 || month == 6 || month
            == 9 || month == 11),
{
}

/// Time of day counts in seconds from midnight: the epoch is zero, the
/// next second, minute and hour are one second, sixty seconds and an hour
/// later, and the last second of a day is one second before the next day.
pub proof fn lemma_time_of_day_counts_seconds(
    year: i32,
    month: u32,
    day: u32,
    hour: u32,
    minute: u32,
    second: u32,
)
    requires
        datetime_valid(year, month, day, hour, minute, second),
    ensures
        unix_nanos(1970, 1, 1, 0, 0, 0) == 0,
        second < 59 ==> unix_nanos(year, month, day, hour, minute, (second + 1) as u32) == unix_nanos(
            year,
            month,
            day,
            hour,
            minute,
            second,
        ) + 1_000_000_000,
        minute < 59 ==> unix_nanos(year, month, day, hour, (minute + 1) as u32, second) == unix_nanos(
            year,
            month,
            day,
            hour,
            minute,
            second,
        ) + 60_000_000_000,
        hour < 23 ==> unix_nanos(year, month, day, (hour + 1) as u32, minute, second) == unix_nanos(
            year,
            month,
            day,
            hour,
            minute,
            second,
        ) + 3_600_000_000_000,
        unix_nanos(year, month, day, 23, 59, 59) + 1_000_000_000 == unix_nanos(year, month, day, 0, 0, 0)
            + 86_400_000_000_000,
        year_days(year as int) == 366 <==> ((year % 4 == 0 && year % 100 != 0) || year % 400 == 0),
{
    assert(days_before_year(1970) == 0);
    assert(days_before_month(1970, 1) == 0);
}

/// The twelve months make up exactly the year.
pub proof fn lemma_months_fill_the_year(year: int)
    ensures
        days_before_month(year, 13) == year_days(year),
{
    reveal_with_fuel(days_before_month, 13);
}

/// Consecutive days are one day apart: the next day of the same month, the
/// first of the next month after a month's last day, and January 1st after
/// December 31st.
pub proof fn lemma_days_are_consecutive(year: i32, month: u32, day: u32)
    requires
        datetime_valid(year, month, day, 0, 0, 0),
    ensures
        datetime_valid(year, month, (day + 1) as u32, 0, 0, 0) ==> unix_nanos(
            year,
            month,
            (day + 1) as u32,
            0,
            0,
            0,
        ) == unix_nanos(year, month, day, 0, 0, 0) + 86_400_000_000_000,
        !datetime_valid(year, month, (day + 1) as u32, 0, 0, 0) && month < 12 ==> unix_nanos(
            year,
            (month + 1) as u32,
            1,
            0,
            0,
            0,
        ) == unix_nanos(year, month, day, 0, 0, 0) + 86_400_000_000_000,
        month == 12 && day == 31 && year < i32::MAX ==> unix_nanos((year + 1) as i32, 1, 1, 0, 0, 0)
            == unix_nanos(year, month, day, 0, 0, 0) + 86_400_000_000_000,
{
    if !datetime_valid(year, month, (day + 1) as u32, 0, 0, 0) && month < 12 {
        assert(day == month_length(year as int, month as int));
        assert(days_before_month(year as int, month + 1) == days_before_month(year as int, month as int)
            + month_length(year as int, month as int));
    }
    if month == 12 && day == 31 && year < i32::MAX {
        lemma_months_fill_the_year(year as int);
        assert(days_before_year(year + 1) == days_before_year(year as int) + year_days(year as int));
    }
}

proof fn lemma_days_before_year_bounds(year: int)
    requires
        year >= 1970,
    ensures
        365 * (year - 1970) <= days_before_year(year) <= 366 * (year - 1970),
    decreases year - 1970,
{
    if year > 1970 {
        lemma_days_before_year_bounds(year - 1);
    }
}

proof fn lemma_days_before_month_bounds(year: int, month: int)
    requires
        1 <= month <= 13,
    ensures
        0 <= days_before_month(year, month) <= 31 * (month - 1),
    decreases month,
{
    if month > 1 {
        lemma_days_before_month_bounds(year, month - 1);
    }
}

fn is_leap_year(year: i32) -> (r: bool)
    requires
        year >= 0,
    ensures
        r == leap(year as int),
{
    (year % 4 == 0 && year % 100 != 0) || year % 400 == 0
}

fn month_days(leap_year: bool, month: u32) -> (days: u64)
    requires
        1 <= month <= 12,
    ensures
        days == month_len(leap_year, month as int),
{
    if month == 2 {
        if leap_year {
            29
        } else {
            28
        }
    } else if month == 4 || month == 6 || month == 9 || month == 11 {
        30
    } else {
        31
    }
}

/// Convert a calendar date and time of day to nanoseconds since the epoch;
/// `None` for an impossible or pre-epoch date.
pub fn datetime_to_unix_timestamp(
    year: i32,
    month: u32,
    day: u32,
    hour: u32,
    minute: u32,
    second: u32,
) -> (result: Option<u64>)
    requires
        datetime_valid(year, month, day, hour, minute, second) ==> unix_nanos(
            year,
            month,
            day,
            hour,
            minute,
            second,
        ) <= u64::MAX,
    ensures
        match result {
            Some(nanos) => datetime_valid(year, month, day, hour, minute, second) && nanos
                == unix_nanos(year, month, day, hour, minute, second),
            None => !datetime_valid(year, month, day, hour, minute, second),
        },
{
    if month < 1 || month > 12 || day < 1 || day > 31 || hour > 23 || minute > 59 || second > 59
        || year < 1970 {
        return None;
    }
    let mut days: u64 = 0;
    let mut y: i32 = 1970;
    while y < year
        invariant
            1970 <= y <= year,
            days == days_before_year(y as int),
        decreases year - y,
    {
        proof {
            lemma_days_before_year_bounds(y as int);
        }
        days = days + if is_leap_year(y) {
            366
        } else {
            365
        };
        y = y + 1;
    }
    let leap_year = is_leap_year(year);
    let mut m: u32 = 1;
    proof {
        lemma_days_before_year_bounds(year as int);
    }
    while m < month
        invariant
            1 <= m <= month <= 12,
            leap_year == leap(year as int),
            days == days_before_year(year as int) + days_before_month(year as int, m as int),
            days_before_year(year as int) <= 366 * (year - 1970),
            year <= i32::MAX,
        decreases month - m,
    {
        proof {
            lemma_days_before_month_bounds(year as int, m as int);
        }
        days = days + month_days(leap_year, m);
        m = m + 1;
    }
    if day as u64 > month_days(leap_year, month) {
        return None;
    }
    days = days + (day - 1) as u64;
    let secs = days * 86_400 + hour as u64 * 3_600 + minute as u64 * 60 + second as u64;
    Some(secs * 1_000_000_000)
}

/// Field of `width` bits of `value` starting at bit `start`.
pub open spec fn bits(value: u32, start: u32, width: u32) -> u32 {
    (value >> start) & (((1u32 << width) - 1) as u32)
}

fn extract_bits(value: u32, start: u32, width: u32) -> (r: u32)
    requires
        start < 32,
        1 <= width < 32,
    ensures
        r == bits(value, start, width),
        r < (1u32 << width),
{
    assert(1u32 << width >= 1) by (bit_vector)
        requires
            width < 32,
    ;
    let mask = (1u32 << width) - 1;
    let r = (value >> start) & mask;
    assert(r <= mask && mask < (1u32 << width)) by (bit_vector)
        requires
            r == (value >> start) & mask,
            mask == (1u32 << width) - 1,
            1u32 << width >= 1,
    ;
    r
}

/// Decode the TOY registers: the high word counts years since 1900 and the
/// low word packs month, day, hour, minute and second.
fn toy_to_unix_timestamp(toy_high: u32, toy_low: u32) -> (result: Option<u64>)
    requires
        toy_high as i32 <= i32::MAX - 1900,
        datetime_valid(
            (1900 + toy_high as i32) as i32,
            bits(toy_low, 26, 6),
            bits(toy_low, 21, 5),
            bits(toy_low, 16, 5),
            bits(toy_low, 10, 6),
            bits(toy_low, 4, 6),
        ) ==> unix_nanos(
            (1900 + toy_high as i32) as i32,
            bits(toy_low, 26, 6),
            bits(toy_low, 21, 5),
            bits(toy_low, 16, 5),
            bits(toy_low, 10, 6),
            bits(toy_low, 4, 6),
        ) <= u64::MAX,
    ensures
        result == (if datetime_valid(
            (1900 + toy_high as i32) as i32,
            bits(toy_low, 26, 6),
            bits(toy_low, 21, 5),
            bits(toy_low, 16, 5),
            bits(toy_low, 10, 6),
            bits(toy_low, 4, 6),
        ) {
            Some(
                unix_nanos(
                    (1900 + toy_high as i32) as i32,
                    bits(toy_low, 26, 6),
                    bits(toy_low, 21, 5),
                    bits(toy_low, 16, 5),
                    bits(toy_low, 10, 6),
                    bits(toy_low, 4, 6),
                ) as u64,
            )
        } else {
            None::<u64>
        }),
{
    let year = 1900 + toy_high as i32;
    let month = extract_bits(toy_low, 26, 6);
    let day = extract_bits(toy_low, 21, 5);
    let hour = extract_bits(toy_low, 16, 5);
    let minute = extract_bits(toy_low, 10, 6);
    let second = extract_bits(toy_low, 4, 6);
    datetime_to_unix_timestamp(year, month, day, hour, minute, second)
}

/// Self-test of the TOY field decoding on one known wall time
/// (2025-06-12 08:34:56); the result is proved here.
pub fn test() {
    let toy_low: u32 = 0x1988_8b80;
    assert(bits(toy_low, 26, 6) == 6 && bits(toy_low, 21, 5) == 12 && bits(toy_low, 16, 5) == 8
        && bits(toy_low, 10, 6) == 34 && bits(toy_low, 4, 6) == 56) by (bit_vector)
        requires
            toy_low == 0x1988_8b80,
    ;
    assert(datetime_valid(2025, 6, 12, 8, 34, 56));
    assert(days_before_year(2025) == 20089) by {
        reveal_with_fuel(days_before_year, 60);
    }
    assert(days_before_month(2025, 6) == 151) by {
        reveal_with_fuel(days_before_month, 6);
    }
    assert(unix_nanos(2025, 6, 12, 8, 34, 56) == 1_749_717_296_000_000_000);
    let decoded = toy_to_unix_timestamp(125, toy_low);
    assert(decoded == Some(1_749_717_296_000_000_000u64));
}

} // verus!
