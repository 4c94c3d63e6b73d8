//! Calendar dates of the proleptic Gregorian calendar, as the subscription
//! records hold them: validity, order, `YYYY-MM-DD` text and whole months.
use vstd::prelude::*;

use crate::text::{
    lemma_split_after_sep, lemma_split_no_sep,
    all_digits, chars_of, digits_value, lemma_nat_digits_short, lemma_zero_padded, owned,
    parse_i32, parse_u32, parsed_i32, parsed_u32, push_all, split_chars, split_seq, append_str,
    string_from_chars, trim_seq, trim_str, zero_padded, zero_padded_digits,
};

verus! {

/// The earliest year a date can have.
pub const MIN_YEAR: i32 = -262_143;

/// The latest year a date can have.
pub const MAX_YEAR: i32 = 262_142;

/// A day of the calendar.
#[derive(Debug, Clone, Copy, PartialEq, Eq, Structural)]
pub struct CalendarDate {
    pub year: i32,
    pub month: u32,
    pub day: u32,
}

pub open spec fn is_leap_year(y: int) -> bool {
    y % 4 == 0 && (y % 100 != 0 || y % 400 == 0)
}

/// The number of days of a month.
pub open spec fn month_length(y: int, m: int) -> int {
    if m == 2 {
        if is_leap_year(y) {
            29
        } else {
            28
        }
    } else if m == 4 || m == 6 || m == 9 || m == 11 {
        30
    } else {
        31
    }
}

/// A year in range, a month of 1 to 12 and a day of that month.
pub open spec fn valid_ymd(y: int, m: int, d: int) -> bool {
    MIN_YEAR <= y <= MAX_YEAR && 1 <= m <= 12 && 1 <= d <= month_length(y, m)
}

pub open spec fn valid_date(d: CalendarDate) -> bool {
    valid_ymd(d.year as int, d.month as int, d.day as int)
}

/// `a` is an earlier day than `b`.
pub open spec fn date_before(a: CalendarDate, b: CalendarDate) -> bool {
    a.year < b.year || (a.year == b.year && (a.month < b.month || (a.month == b.month && a.day
        < b.day)))
}

fn leap_year(year: i32) -> (r: bool)
    requires
        MIN_YEAR <= year <= MAX_YEAR,
    ensures
        r == is_leap_year(year as int),
{
    let shifted: u32 = (year as i64 + 262_400) as u32;
    assert(shifted % 4 == (year as int) % 4);
    assert(shifted % 100 == (year as int) % 100);
    assert(shifted % 400 == (year as int) % 400);
    shifted % 4 == 0 && (shifted % 100 != 0 || shifted % 400 == 0)
}

/// The number of days of a month of a year.
pub fn days_in_month(year: i32, month: u32) -> (r: u32)
    requires
        MIN_YEAR <= year <= MAX_YEAR,
        1 <= month <= 12,
    ensures
        r == month_length(year as int, month as int),
{
    if month == 2 {
        if leap_year(year) {
            29
        } else {
            28
        }
    } else if month == 4 || month == 6 || month == 9 || month == 11 {
        30
    } else {
        31
    }
}

/// The date of a year, month and day, where there is one.
pub fn date_from_ymd(year: i32, month: u32, day: u32) -> (r: Option<CalendarDate>)
    ensures
        r is Some <==> valid_ymd(year as int, month as int, day as int),
        r matches Some(d) ==> d.year == year && d.month == month && d.day == day,
{
    if year < MIN_YEAR || year > MAX_YEAR || month < 1 || month > 12 {
        return None;
    }
    if day < 1 || day > days_in_month(year, month) {
        return None;
    }
    Some(CalendarDate { year, month, day })
}

/// Whether `a` is an earlier day than `b`.
pub fn is_before(a: CalendarDate, b: CalendarDate) -> (r: bool)
    ensures
        r == date_before(a, b),
{
    a.year < b.year || (a.year == b.year && (a.month < b.month || (a.month == b.month && a.day
        < b.day)))
}

/// The year as `%Y` writes it: four digits at least, with a sign before it
/// outside 0 to 9999.
pub open spec fn year_text(y: int) -> Seq<char> {
    if 0 <= y <= 9999 {
        zero_padded(y as nat, 4)
    } else if y > 9999 {
        seq!['+'] + zero_padded(y as nat, 4)
    } else {
        seq!['-'] + zero_padded((-y) as nat, 4)
    }
}

/// A date as `%Y-%m-%d` writes it.
pub open spec fn date_text(d: CalendarDate) -> Seq<char> {
    year_text(d.year as int) + seq!['-'] + zero_padded(d.month as nat, 2) + seq!['-']
        + zero_padded(d.day as nat, 2)
}

/// Writes a date as `YYYY-MM-DD`.
pub fn format_date(d: CalendarDate) -> (r: String)
    ensures
        r@ == date_text(d),
{
    let mut out: Vec<char> = Vec::new();
    if d.year > 9999 {
        out.push('+');
    } else if d.year < 0 {
        out.push('-');
    }
    let magnitude: u64 = if d.year < 0 {
        (0 - (d.year as i64)) as u64
    } else {
        d.year as u64
    };
    let year = zero_padded_digits(magnitude, 4);
    push_all(&mut out, &year);
    assert(out@ =~= year_text(d.year as int));
    out.push('-');
    let month = zero_padded_digits(d.month as u64, 2);
    push_all(&mut out, &month);
    out.push('-');
    let day = zero_padded_digits(d.day as u64, 2);
    push_all(&mut out, &day);
    assert(out@ =~= date_text(d));
    crate::text::string_from_chars(&out)
}

// ---------------------------------------------------------------------------
// Whole months
// ---------------------------------------------------------------------------

/// The month `months` after (or before, when negative) the date's month,
/// counted from year 0: `year * 12 + month - 1`.
pub open spec fn month_index(d: CalendarDate) -> int {
    d.year * 12 + d.month - 1
}

/// The date `months` whole months away: the same day of the month, or the
/// last day of the month where it is shorter.
pub open spec fn months_later(d: CalendarDate, months: int) -> CalendarDate {
    let index = month_index(d) + months;
    let y = index / 12;
    let m = index % 12 + 1;
    let last = month_length(y, m);
    CalendarDate {
        year: y as i32,
        month: m as u32,
        day: (if d.day > last {
            last
        } else {
            d.day as int
        }) as u32,
    }
}

/// Moves a date by whole months, clamping the day to the month's length.
pub fn add_months_clamped(date: CalendarDate, months: i32) -> (r: CalendarDate)
    requires
        valid_date(date),
        valid_ymd((month_index(date) + months) / 12, (month_index(date) + months) % 12 + 1, 1),
    ensures
        r == months_later(date, months as int),
        valid_date(r),
{
    let index: i64 = date.year as i64 * 12 + date.month as i64 - 1 + months as i64;
    let shifted: i64 = index + 262_400 * 12;
    assert(shifted >= 0);
    let y: i64 = shifted / 12 - 262_400;
    let m: i64 = shifted % 12 + 1;
    assert(y == index / 12);
    assert(m == index % 12 + 1);
    let year = y as i32;
    let month = m as u32;
    let last = days_in_month(year, month);
    let day = if date.day > last {
        last
    } else {
        date.day
    };
    CalendarDate { year, month, day }
}

// ---------------------------------------------------------------------------
// Billing cycles
// ---------------------------------------------------------------------------

/// The billing day of a month: the anchor day within 1 to 31, or the last
/// day of a shorter month.
pub open spec fn anchored(y: int, m: int, anchor: u32) -> CalendarDate {
    let wanted = if anchor < 1 {
        1
    } else if anchor > 31 {
        31
    } else {
        anchor as int
    };
    let last = month_length(y, m);
    CalendarDate {
        year: y as i32,
        month: m as u32,
        day: (if wanted > last {
            last
        } else {
            wanted
        }) as u32,
    }
}

/// The billing day of a month.
pub fn anchored_date(year: i32, month: u32, billing_anchor_day: u32) -> (r: CalendarDate)
    requires
        MIN_YEAR <= year <= MAX_YEAR,
        1 <= month <= 12,
        year == MAX_YEAR ==> month < 12,
    ensures
        r == anchored(year as int, month as int, billing_anchor_day),
        valid_date(r),
{
    let wanted: u32 = if billing_anchor_day < 1 {
        1
    } else if billing_anchor_day > 31 {
        31
    } else {
        billing_anchor_day
    };
    let last = days_in_month(year, month);
    let day = if wanted > last {
        last
    } else {
        wanted
    };
    CalendarDate { year, month, day }
}

/// The start of the billing cycle a day falls in: this month's billing day
/// where the day is on or after it, else the month before's.
pub open spec fn cycle_start(d: CalendarDate, anchor: u32) -> CalendarDate {
    let this_month = anchored(d.year as int, d.month as int, anchor);
    if !date_before(d, this_month) {
        this_month
    } else {
        months_later(this_month, -1)
    }
}

/// A date far enough from the ends of the calendar to move a month either
/// way.
pub open spec fn inner_date(d: CalendarDate) -> bool {
    valid_date(d) && MIN_YEAR < d.year < MAX_YEAR
}

/// The start of the billing cycle that a day falls in.
pub fn billing_cycle_start(anchor_date: CalendarDate, billing_anchor_day: u32) -> (r: CalendarDate)
    requires
        inner_date(anchor_date),
    ensures
        r == cycle_start(anchor_date, billing_anchor_day),
        valid_date(r),
{
    let this_month = anchored_date(anchor_date.year, anchor_date.month, billing_anchor_day);
    if !is_before(anchor_date, this_month) {
        this_month
    } else {
        add_months_clamped(this_month, -1)
    }
}

/// With a billing day of 1 to 28, every month has it, so a day's cycle
/// starts on that billing day, on or before the day, and the next cycle
/// starts after it.
pub proof fn law_billing_cycle_contains_day(d: CalendarDate, anchor: u32)
    requires
        inner_date(d),
        1 <= anchor <= 28,
    ensures
        cycle_start(d, anchor).day == anchor,
        !date_before(d, cycle_start(d, anchor)),
        date_before(d, months_later(cycle_start(d, anchor), 1)),
{
    let this_month = anchored(d.year as int, d.month as int, anchor);
    assert(month_length(d.year as int, d.month as int) >= 28);
    let start = cycle_start(d, anchor);
    if date_before(d, this_month) {
        let prev = months_later(this_month, -1);
        assert(month_length(prev.year as int, prev.month as int) >= 28);
        assert(months_later(prev, 1) == this_month);
    } else {
        let next = months_later(this_month, 1);
        assert(month_length(next.year as int, next.month as int) >= 28);
    }
}

// ---------------------------------------------------------------------------
// Reading `YYYY-MM-DD`
// ---------------------------------------------------------------------------

/// The message for a date field that is no `YYYY-MM-DD` date.
pub open spec fn date_format_message(field: Seq<char>) -> Seq<char> {
    field + " must use YYYY-MM-DD format."@
}

/// The date a text names: three parts between `-`, the first four
/// characters long and none empty, read as a year, a month and a day that
/// make a valid date.
pub open spec fn parsed_date(value: Seq<char>) -> Option<CalendarDate> {
    let parts = split_seq(value, '-');
    if parts.len() != 3 || parts[0].len() != 4 || parts[1].len() == 0 || parts[2].len() == 0 {
        None
    } else {
        match (parsed_i32(parts[0]), parsed_u32(parts[1]), parsed_u32(parts[2])) {
            (Some(y), Some(m), Some(d)) => if valid_ymd(y as int, m as int, d as int) {
                Some(CalendarDate { year: y, month: m, day: d })
            } else {
                None
            },
            _ => None,
        }
    }
}

fn format_error(field_name: &str) -> (r: String)
    ensures
        r@ == date_format_message(field_name@),
{
    let mut out = owned(field_name);
    append_str(&mut out, " must use YYYY-MM-DD format.");
    out
}

/// Reads a `YYYY-MM-DD` date; the error names the field.
pub fn parse_date_field(field_name: &str, value: &str) -> (r: Result<CalendarDate, String>)
    ensures
        match r {
            Ok(d) => parsed_date(value@) == Some(d),
            Err(e) => parsed_date(value@) is None && e@ == date_format_message(field_name@),
        },
{
    let v = chars_of(value);
    let parts = split_chars(&v, '-');
    if parts.len() != 3 || parts[0].len() != 4 || parts[1].len() == 0 || parts[2].len() == 0 {
        return Err(format_error(field_name));
    }
    let year_text = string_from_chars(parts[0].as_slice());
    let month_text = string_from_chars(parts[1].as_slice());
    let day_text = string_from_chars(parts[2].as_slice());
    let year = match parse_i32(year_text.as_str()) {
        Some(y) => y,
        None => {
            return Err(format_error(field_name));
        },
    };
    let month = match parse_u32(month_text.as_str()) {
        Some(m) => m,
        None => {
            return Err(format_error(field_name));
        },
    };
    let day = match parse_u32(day_text.as_str()) {
        Some(d) => d,
        None => {
            return Err(format_error(field_name));
        },
    };
    match date_from_ymd(year, month, day) {
        Some(d) => Ok(d),
        None => Err(format_error(field_name)),
    }
}

proof fn lemma_digits_lack(s: Seq<char>, c: char)
    requires
        all_digits(s),
        !('0' <= c <= '9'),
    ensures
        !s.contains(c),
{
    if s.contains(c) {
        let i = choose|i: int| 0 <= i < s.len() && s[i] == c;
        assert(crate::text::is_digit_ascii(s[i]));
    }
}

/// A valid date of the years 0 to 9999, written as `YYYY-MM-DD`, reads back
/// as the same date.
pub proof fn law_date_text_round_trip(d: CalendarDate)
    requires
        valid_date(d),
        0 <= d.year <= 9999,
    ensures
        parsed_date(date_text(d)) == Some(d),
{
    let y = zero_padded(d.year as nat, 4);
    let m = zero_padded(d.month as nat, 2);
    let dd = zero_padded(d.day as nat, 2);
    lemma_zero_padded(d.year as nat, 4);
    lemma_zero_padded(d.month as nat, 2);
    lemma_zero_padded(d.day as nat, 2);
    lemma_nat_digits_short(d.year as nat);
    lemma_nat_digits_short(d.month as nat);
    lemma_nat_digits_short(d.day as nat);
    lemma_digits_lack(y, '-');
    lemma_digits_lack(m, '-');
    lemma_digits_lack(dd, '-');
    lemma_split_no_sep(y, '-');
    lemma_split_after_sep(y, m, '-');
    lemma_split_after_sep(y + seq!['-'] + m, dd, '-');
    assert(date_text(d) =~= y + seq!['-'] + m + seq!['-'] + dd);
    let parts = split_seq(date_text(d), '-');
    assert(parts =~= seq![y, m, dd]);
    assert(y[0] != '-' && y[0] != '+') by {
        assert(crate::text::is_digit_ascii(y[0]));
    }
    assert(y.skip(0) =~= y);
    assert(m.len() > 0 && m[0] != '+') by {
        assert(crate::text::is_digit_ascii(m[0]));
    }
    assert(dd.len() > 0 && dd[0] != '+') by {
        assert(crate::text::is_digit_ascii(dd[0]));
    }
}

} // verus!
