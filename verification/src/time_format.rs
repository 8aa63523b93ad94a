use vstd::prelude::*;
use crate::text::{push_char, push_padded_decimal, spec_padded_decimal};

verus! {

/// Gregorian leap year rule, for the proleptic calendar.
pub open spec fn is_leap(year: int) -> bool {
    year % 4 == 0 && (year % 100 != 0 || year % 400 == 0)
}

pub open spec fn days_in_year(year: int) -> int {
    if is_leap(year) { 366 } else { 365 }
}

/// Days from 0000-01-01 to the first day of `year` (year 0 is a leap year).
pub open spec fn days_before_year(year: int) -> int {
    365 * year + (year + 3) / 4 - (year + 99) / 100 + (year + 399) / 400
}

pub open spec fn month_length(year: int, month: int) -> int {
    if month == 2 {
        if is_leap(year) { 29 } else { 28 }
    } else if month == 4 || month == 6 || month == 9 || month == 11 {
        30
    } else {
        31
    }
}

/// Days from the first of January to the first day of `month` (1-based).
pub open spec fn days_before_month(year: int, month: int) -> int
    decreases month,
{
    if month <= 1 {
        0
    } else {
        days_before_month(year, month - 1) + month_length(year, month - 1)
    }
}

pub open spec fn is_valid_date(year: int, month: int, day: int) -> bool {
    &&& year >= 0
    &&& 1 <= month <= 12
    &&& 1 <= day <= month_length(year, month)
}

/// Days between 1970-01-01 and the given date.
pub open spec fn days_from_civil(year: int, month: int, day: int) -> int {
    days_before_year(year) + days_before_month(year, month) + day - 1 - 719_528
}

/// The calendar date that lies `days` days after 1970-01-01.
pub open spec fn civil_from_days(days: int) -> (int, int, int) {
    choose|date: (int, int, int)|
        is_valid_date(date.0, date.1, date.2) && days_from_civil(date.0, date.1, date.2) == days
}

/// Each year is as long as the leap year rule says: the closed form of
/// `days_before_year` counts the days of the years before.
pub proof fn lemma_days_before_next_year(year: int)
    requires
        year >= 0,
    ensures
        days_before_year(year + 1) == days_before_year(year) + days_in_year(year),
{
    lemma_div_step(year + 3, 4);
    lemma_div_step(year + 99, 100);
    lemma_div_step(year + 399, 400);
    assert((year + 4) % 4 == 0 <==> year % 4 == 0);
    assert((year + 100) % 100 == 0 <==> year % 100 == 0);
    assert((year + 400) % 400 == 0 <==> year % 400 == 0);
}

/// Adding one to a non-negative number raises its quotient by one exactly when
/// the sum is a multiple of the divisor.
proof fn lemma_div_step(x: int, c: int)
    requires
        x >= 0,
        c > 0,
    ensures
        (x + 1) / c == x / c + (if (x + 1) % c == 0 { 1int } else { 0int }),
{
    vstd::arithmetic::div_mod::lemma_fundamental_div_mod(x, c);
    vstd::arithmetic::div_mod::lemma_fundamental_div_mod(x + 1, c);
    vstd::arithmetic::div_mod::lemma_mod_bound(x, c);
    vstd::arithmetic::div_mod::lemma_mod_bound(x + 1, c);
    let q0 = x / c;
    let q1 = (x + 1) / c;
    let r0 = x % c;
    let r1 = (x + 1) % c;
    assert(c * (q1 - q0) == 1 + r0 - r1) by (nonlinear_arith)
        requires
            x == c * q0 + r0,
            x + 1 == c * q1 + r1,
    ;
    if r1 == 0 {
        assert(q1 - q0 == 1) by (nonlinear_arith)
            requires
                c * (q1 - q0) == 1 + r0,
                0 <= r0 < c,
        ;
    } else {
        assert(q1 - q0 == 0) by (nonlinear_arith)
            requires
                c * (q1 - q0) == 1 + r0 - r1,
                0 <= r0 < c,
                0 < r1 < c,
        ;
    }
}

proof fn lemma_days_before_year_monotone(a: int, b: int)
    requires
        0 <= a <= b,
    ensures
        days_before_year(a) + 365 * (b - a) <= days_before_year(b),
    decreases b - a,
{
    if a < b {
        lemma_days_before_year_monotone(a, b - 1);
        lemma_days_before_next_year(b - 1);
    }
}

proof fn lemma_days_before_month_bounds(year: int, month: int)
    requires
        1 <= month <= 12,
    ensures
        0 <= days_before_month(year, month),
        days_before_month(year, month) + month_length(year, month) <= days_in_year(year),
        month < 12 ==> days_before_month(year, month + 1) == days_before_month(year, month)
            + month_length(year, month),
        days_before_month(year, 12) + month_length(year, 12) == days_in_year(year),
{
    reveal_with_fuel(days_before_month, 13);
}

/// A valid date lies inside its year, and within the year inside its month.
proof fn lemma_date_in_year(year: int, month: int, day: int)
    requires
        is_valid_date(year, month, day),
    ensures
        days_before_year(year) <= days_before_year(year) + days_before_month(year, month) + day - 1,
        days_before_year(year) + days_before_month(year, month) + day - 1 < days_before_year(year + 1),
{
    lemma_days_before_month_bounds(year, month);
    lemma_days_before_next_year(year);
}

proof fn lemma_month_ordering(year: int, m1: int, m2: int)
    requires
        1 <= m1 < m2 <= 12,
    ensures
        days_before_month(year, m1) + month_length(year, m1) <= days_before_month(year, m2),
    decreases m2 - m1,
{
    reveal_with_fuel(days_before_month, 13);
    if m1 + 1 < m2 {
        lemma_month_ordering(year, m1, m2 - 1);
        lemma_days_before_month_bounds(year, m2 - 1);
    }
}

/// Distinct valid dates are distinct days.
pub proof fn lemma_days_from_civil_injective(y1: int, m1: int, d1: int, y2: int, m2: int, d2: int)
    requires
        is_valid_date(y1, m1, d1),
        is_valid_date(y2, m2, d2),
        days_from_civil(y1, m1, d1) == days_from_civil(y2, m2, d2),
    ensures
        y1 == y2 && m1 == m2 && d1 == d2,
{
    lemma_date_in_year(y1, m1, d1);
    lemma_date_in_year(y2, m2, d2);
    if y1 < y2 {
        lemma_days_before_year_monotone(y1 + 1, y2);
    } else if y2 < y1 {
        lemma_days_before_year_monotone(y2 + 1, y1);
    }
    assert(y1 == y2);
    if m1 < m2 {
        lemma_month_ordering(y1, m1, m2);
    } else if m2 < m1 {
        lemma_month_ordering(y1, m2, m1);
    }
}

/// Days of the years `0..k` inside a 400-year cycle that starts with a leap year.
spec fn days_before_year_of_era(k: int) -> int {
    365 * k + (k + 3) / 4 - (k + 99) / 100 + (k + 399) / 400
}

proof fn lemma_era_shift(era: int, k: int)
    requires
        era >= 0,
        0 <= k <= 400,
    ensures
        days_before_year(400 * era + k) == 146_097 * era + days_before_year_of_era(k),
{
    assert((400 * era + k + 3) / 4 == 100 * era + (k + 3) / 4);
    assert((400 * era + k + 99) / 100 == 4 * era + (k + 99) / 100);
    assert((400 * era + k + 399) / 400 == era + (k + 399) / 400);
}

/// The year of a 400-year cycle that holds day `day_of_era` of the cycle, with
/// the number of days before that year.
fn year_of_era(day_of_era: i64) -> (found: (i64, i64))
    requires
        0 <= day_of_era < 146_097,
    ensures
        0 <= found.0 <= 399,
        found.1 == days_before_year_of_era(found.0 as int),
        found.1 <= day_of_era < days_before_year_of_era(found.0 + 1),
{
    let mut year: i64 = 0;
    let mut start: i64 = 0;
    loop
        invariant
            0 <= year <= 399,
            0 <= day_of_era < 146_097,
            start == days_before_year_of_era(year as int),
            start <= day_of_era,
        ensures
            0 <= year <= 399,
            start == days_before_year_of_era(year as int),
            start <= day_of_era < days_before_year_of_era(year + 1),
        decreases 399 - year,
    {
        if year == 399 {
            assert(days_before_year_of_era(400) == 146_097);
            break;
        }
        let next: i64 = year + 1;
        let next_start: i64 = 365 * next + (next + 3) / 4 - (next + 99) / 100 + (next + 399) / 400;
        if next_start > day_of_era {
            break;
        }
        year = next;
        start = next_start;
    }
    (year, start)
}

/// The month of `year` that holds day `day_of_year` (0-based) of the year, with
/// the number of days of the year before that month.
fn month_of_year(year: Ghost<int>, leap: bool, day_of_year: i64) -> (found: (i64, i64))
    requires
        leap == is_leap(year@),
        0 <= day_of_year < days_in_year(year@),
    ensures
        1 <= found.0 <= 12,
        found.1 == days_before_month(year@, found.0 as int),
        found.1 <= day_of_year < found.1 + month_length(year@, found.0 as int),
{
    let mut month: i64 = 1;
    let mut before: i64 = 0;
    loop
        invariant
            1 <= month <= 12,
            0 <= before <= day_of_year,
            before == days_before_month(year@, month as int),
            day_of_year < days_in_year(year@),
            leap == is_leap(year@),
        ensures
            1 <= month <= 12,
            before == days_before_month(year@, month as int),
            before <= day_of_year < before + month_length(year@, month as int),
        decreases 12 - month,
    {
        let length: i64 = if month == 2 {
            if leap { 29 } else { 28 }
        } else if month == 4 || month == 6 || month == 9 || month == 11 {
            30
        } else {
            31
        };
        proof {
            lemma_days_before_month_bounds(year@, month as int);
        }
        if day_of_year < before + length {
            break;
        }
        if month == 12 {
            assert(false);
            break;
        }
        before = before + length;
        month = month + 1;
    }
    (month, before)
}

proof fn lemma_year_placement(total: int, era: int, day_of_era: int, year_in_era: int)
    requires
        total >= 0,
        era == total / 146_097,
        day_of_era == total % 146_097,
        0 <= year_in_era <= 399,
        days_before_year_of_era(year_in_era) <= day_of_era < days_before_year_of_era(year_in_era + 1),
    ensures
        era >= 0,
        days_before_year(400 * era + year_in_era) == 146_097 * era + days_before_year_of_era(
            year_in_era,
        ),
        0 <= day_of_era - days_before_year_of_era(year_in_era) < days_in_year(400 * era + year_in_era),
        total == 146_097 * era + day_of_era,
{
    lemma_era_shift(era, year_in_era);
    lemma_era_shift(era, year_in_era + 1);
    lemma_days_before_next_year(400 * era + year_in_era);
}

/// Finds the calendar date `days_since_epoch` days after 1970-01-01.
#[verifier::spinoff_prover]
#[verifier::rlimit(40)]
fn civil_date(days_since_epoch: i64) -> (date: (i64, i64, i64))
    requires
        0 <= days_since_epoch <= 200_000_000_000_000,
    ensures
        is_valid_date(date.0 as int, date.1 as int, date.2 as int),
        days_from_civil(date.0 as int, date.1 as int, date.2 as int) == days_since_epoch,
{
    let total: i64 = days_since_epoch + 719_528;
    let era: i64 = total / 146_097;
    let day_of_era: i64 = total % 146_097;
    let (year_in_era, start) = year_of_era(day_of_era);
    let year: i64 = era * 400 + year_in_era;
    proof {
        lemma_year_placement(total as int, era as int, day_of_era as int, year_in_era as int);
    }
    let leap: bool = year_in_era % 4 == 0 && (year_in_era % 100 != 0 || year_in_era % 400 == 0);
    assert(leap == is_leap(year as int));
    let day_of_year: i64 = day_of_era - start;
    let (month, before) = month_of_year(Ghost(year as int), leap, day_of_year);
    (year, month, day_of_year - before + 1)
}

/// `YYYY-MM-DDTHH:MM:SS.mmmZ` for the given date and time of day; the year has at
/// least four digits.
pub open spec fn iso8601_text(
    year: int,
    month: int,
    day: int,
    hour: int,
    minute: int,
    second: int,
    millis: int,
) -> Seq<char> {
    spec_padded_decimal(year as nat, 4) + seq!['-'] + spec_padded_decimal(month as nat, 2) + seq!['-']
        + spec_padded_decimal(day as nat, 2) + seq!['T'] + spec_padded_decimal(hour as nat, 2)
        + seq![':'] + spec_padded_decimal(minute as nat, 2) + seq![':']
        + spec_padded_decimal(second as nat, 2) + seq!['.'] + spec_padded_decimal(millis as nat, 3)
        + seq!['Z']
}

/// The UTC timestamp text of an instant `elapsed_secs` seconds and
/// `subsec_millis` milliseconds after the Unix epoch.
pub open spec fn timestamp_text(elapsed_secs: int, subsec_millis: int) -> Seq<char> {
    let days = elapsed_secs / 86_400;
    let seconds = elapsed_secs % 86_400;
    let date = civil_from_days(days);
    iso8601_text(
        date.0,
        date.1,
        date.2,
        seconds / 3_600,
        (seconds % 3_600) / 60,
        seconds % 60,
        subsec_millis,
    )
}

/// The date and clock time that `timestamp_text` shows for `elapsed_secs`
/// are a real date and a time of day, and read back they count exactly
/// `elapsed_secs` seconds after 1970-01-01T00:00:00Z.
pub open spec fn timestamp_reads_back(elapsed_secs: int) -> bool {
    let date = civil_from_days(elapsed_secs / 86_400);
    let seconds = elapsed_secs % 86_400;
    let hour = seconds / 3_600;
    let minute = (seconds % 3_600) / 60;
    let second = seconds % 60;
    &&& is_valid_date(date.0, date.1, date.2)
    &&& 0 <= hour < 24 && 0 <= minute < 60 && 0 <= second < 60
    &&& days_from_civil(date.0, date.1, date.2) * 86_400 + hour * 3_600 + minute * 60 + second
        == elapsed_secs
}

/// Formats an instant, given as the whole seconds and the milliseconds elapsed
/// since the Unix epoch, as an ISO 8601 UTC timestamp with milliseconds.
pub fn format_system_time(elapsed_secs: u64, subsec_millis: u32) -> (text: String)
    requires
        elapsed_secs <= i64::MAX as u64,
        subsec_millis < 1000,
    ensures
        text@ == timestamp_text(elapsed_secs as int, subsec_millis as int),
        timestamp_reads_back(elapsed_secs as int),
{
    let total_seconds: i64 = elapsed_secs as i64;
    let days: i64 = total_seconds / 86_400;
    let seconds: i64 = total_seconds % 86_400;
    let (year, month, day) = civil_date(days);
    proof {
        let chosen = civil_from_days(days as int);
        assert(is_valid_date(year as int, month as int, day as int)
            && days_from_civil(year as int, month as int, day as int) == days as int);
        lemma_days_from_civil_injective(
            chosen.0,
            chosen.1,
            chosen.2,
            year as int,
            month as int,
            day as int,
        );
    }
    assert(timestamp_reads_back(elapsed_secs as int)) by {
        let secs = seconds as int;
        assert(days as int * 86_400 + secs == elapsed_secs as int);
        assert((secs / 3_600) * 3_600 + ((secs % 3_600) / 60) * 60 + secs % 60 == secs);
    }
    let hour: i64 = seconds / 3_600;
    let minute: i64 = (seconds % 3_600) / 60;
    let second: i64 = seconds % 60;
    let mut text = String::new();
    push_padded_decimal(&mut text, year as u64, 4);
    push_char(&mut text, '-');
    push_padded_decimal(&mut text, month as u64, 2);
    push_char(&mut text, '-');
    push_padded_decimal(&mut text, day as u64, 2);
    push_char(&mut text, 'T');
    push_padded_decimal(&mut text, hour as u64, 2);
    push_char(&mut text, ':');
    push_padded_decimal(&mut text, minute as u64, 2);
    push_char(&mut text, ':');
    push_padded_decimal(&mut text, second as u64, 2);
    push_char(&mut text, '.');
    push_padded_decimal(&mut text, subsec_millis as u64, 3);
    push_char(&mut text, 'Z');
    text
}

} // verus!
