//! ISO 8601 timestamps (`YYYY-MM-DDThh:mm:ss.mmmZ`) to milliseconds since
//! 1970-01-01T00:00:00Z, with the proleptic Gregorian calendar.
use vstd::prelude::*;

use crate::text::{
    all_digits, char_index_from, chars_of, decimal, is_digit, is_whitespace, lemma_decimal_spells,
    lemma_parse_decimal, parse_u64, parse_u64_exec, split, split_from, split_once, split_once_exec,
    subvec, trim, trim_chars, trim_end, trim_end_char, trim_end_char_chars, trim_start,
};

verus! {

/// The fields that a timestamp names, as read off its text.
pub struct TimestampFields {
    pub year: u64,
    pub month: u64,
    pub day: u64,
    pub hour: u64,
    pub minute: u64,
    pub second: u64,
    pub millis: u64,
}

// ---------------------------------------------------------------------------
// Calendar
// ---------------------------------------------------------------------------

/// Gregorian leap years: divisible by 4 but not by 100, or divisible by 400.
pub open spec fn is_leap(y: int) -> bool {
    (y % 4 == 0 && y % 100 != 0) || y % 400 == 0
}

pub open spec fn year_length(y: int) -> int {
    if is_leap(y) {
        366
    } else {
        365
    }
}

/// Days from 1970-01-01 to January 1st of `year` (none before 1970).
pub open spec fn days_before_year(year: int) -> int
    decreases year - 1970,
{
    if year <= 1970 {
        0
    } else {
        days_before_year(year - 1) + year_length(year - 1)
    }
}

/// The length of month `m` (1..=12) in a common year; 0 for `m == 0`.
pub open spec fn common_month_length(m: int) -> int {
    if m == 1 || m == 3 || m == 5 || m == 7 || m == 8 || m == 10 || m == 12 {
        31
    } else if m == 4 || m == 6 || m == 9 || m == 11 {
        30
    } else if m == 2 {
        28
    } else {
        0
    }
}

/// The length of month `m` of year `y`.
pub open spec fn month_length(m: int, y: int) -> int {
    common_month_length(m) + if m == 2 && is_leap(y) {
        1int
    } else {
        0int
    }
}

/// Days from January 1st of `y` to the first day of month `m`.
pub open spec fn days_before_month(m: int, y: int) -> int
    decreases m,
{
    if m <= 1 {
        0
    } else {
        days_before_month(m - 1, y) + month_length(m - 1, y)
    }
}

/// The milliseconds since the epoch that the fields denote.
pub open spec fn epoch_millis(f: TimestampFields) -> int {
    ((days_before_year(f.year as int) + days_before_month(f.month as int, f.year as int) + f.day
        - 1) * 86400 + f.hour * 3600 + f.minute * 60 + f.second) * 1000 + f.millis
}

/// The fields can be converted: the day is at least 1, the month at most 13
/// (the month table has twelve months), and the result fits in a `u64`.
pub open spec fn convertible(f: TimestampFields) -> bool {
    &&& 1 <= f.day
    &&& f.month <= 13
    &&& epoch_millis(f) <= u64::MAX
}

// ---------------------------------------------------------------------------
// Reading the text
// ---------------------------------------------------------------------------

/// The numbers among `pieces`, in order, skipping pieces that do not parse.
pub open spec fn parsed_numbers(pieces: Seq<Seq<char>>) -> Seq<u64>
    decreases pieces.len(),
{
    if pieces.len() == 0 {
        seq![]
    } else {
        match parse_u64(pieces[0]) {
            Some(v) => seq![v] + parsed_numbers(pieces.drop_first()),
            None => parsed_numbers(pieces.drop_first()),
        }
    }
}

/// The fields of the timestamp `ts`: surrounding whitespace and trailing `Z`s
/// are dropped, the date precedes the first `T`, its numbers are separated
/// by `-`; the time follows, with `:` between its numbers and an optional
/// `.` before the milliseconds (which count 0 when they do not parse).
/// Pieces that are not numbers are skipped; the date and the time must
/// each hold exactly three numbers.
pub open spec fn timestamp_fields(ts: Seq<char>) -> Option<TimestampFields> {
    let core = trim_end_char(trim(ts), 'Z');
    let parts = split_once(core, 'T');
    if parts.len() != 2 {
        None
    } else {
        let date = parsed_numbers(split(parts[0], '-'));
        let time_parts = split_once(parts[1], '.');
        let hms = parsed_numbers(split(time_parts[0], ':'));
        let millis: u64 = if time_parts.len() > 1 {
            match parse_u64(time_parts[1]) {
                Some(v) => v,
                None => 0,
            }
        } else {
            0
        };
        if date.len() != 3 || hms.len() != 3 {
            None
        } else {
            Some(
                TimestampFields {
                    year: date[0],
                    month: date[1],
                    day: date[2],
                    hour: hms[0],
                    minute: hms[1],
                    second: hms[2],
                    millis,
                },
            )
        }
    }
}

/// The timestamp can be converted: it is malformed (and counts 0) or its
/// fields are convertible.
pub open spec fn timestamp_convertible(ts: Seq<char>) -> bool {
    match timestamp_fields(ts) {
        None => true,
        Some(f) => convertible(f),
    }
}

/// The milliseconds since the epoch of `ts`; 0 when it is malformed.
pub open spec fn timestamp_millis(ts: Seq<char>) -> int {
    match timestamp_fields(ts) {
        None => 0,
        Some(f) => epoch_millis(f),
    }
}

// ---------------------------------------------------------------------------
// Lemmas
// ---------------------------------------------------------------------------

proof fn lemma_days_before_year_monotonic(a: int, b: int)
    requires
        a <= b,
    ensures
        days_before_year(a) <= days_before_year(b),
    decreases b - a,
{
    if a < b {
        lemma_days_before_year_monotonic(a, b - 1);
    }
}

proof fn lemma_days_before_month_nonneg(m: int, y: int)
    ensures
        days_before_month(m, y) >= 0,
    decreases m,
{
    if m > 1 {
        lemma_days_before_month_nonneg(m - 1, y);
    }
}

proof fn lemma_parsed_numbers_cons(x: Seq<char>, rest: Seq<Seq<char>>)
    ensures
        parsed_numbers(seq![x] + rest) == match parse_u64(x) {
            Some(v) => seq![v] + parsed_numbers(rest),
            None => parsed_numbers(rest),
        },
{
    let s = seq![x] + rest;
    assert(s[0] == x);
    assert(s.drop_first() =~= rest);
}

/// A date of the calendar from the epoch on.
pub open spec fn is_calendar_date(y: int, m: int, d: int) -> bool {
    &&& y >= 1970
    &&& 1 <= m <= 12
    &&& 1 <= d <= month_length(m, y)
}

/// The number of days from 1970-01-01 to the date.
pub open spec fn day_number(y: int, m: int, d: int) -> int {
    days_before_year(y) + days_before_month(m, y) + d - 1
}

/// The date that follows a calendar date.
pub open spec fn next_date(y: int, m: int, d: int) -> (int, int, int) {
    if d < month_length(m, y) {
        (y, m, d + 1)
    } else if m < 12 {
        (y, m + 1, 1)
    } else {
        (y + 1, 1, 1)
    }
}

/// 1970-01-01 is day 0 of the epoch.
pub proof fn lemma_epoch_origin()
    ensures
        day_number(1970, 1, 1) == 0,
        epoch_millis(
            TimestampFields { year: 1970, month: 1, day: 1, hour: 0, minute: 0, second: 0, millis: 0 },
        ) == 0,
{
}

/// The milliseconds of a timestamp are its day's number of days times a day,
/// plus its hours, minutes, seconds and milliseconds.
pub proof fn lemma_epoch_millis_composition(f: TimestampFields)
    ensures
        epoch_millis(f) == day_number(f.year as int, f.month as int, f.day as int) * 86_400_000
            + f.hour * 3_600_000 + f.minute * 60_000 + f.second * 1000 + f.millis,
{
    let n = day_number(f.year as int, f.month as int, f.day as int);
    assert((n * 86400 + f.hour * 3600 + f.minute * 60 + f.second) * 1000 + f.millis == n
        * 86_400_000 + f.hour * 3_600_000 + f.minute * 60_000 + f.second * 1000 + f.millis)
        by (nonlinear_arith);
}

/// The days before each month of a year, and the length of the year.
proof fn lemma_days_before_months(y: int)
    ensures
        days_before_month(12, y) + month_length(12, y) == year_length(y),
{
    reveal_with_fuel(days_before_month, 13);
}

/// Each calendar date is followed by a calendar date one day later: the
/// conversion counts every day of the Gregorian calendar once, from 1970 on.
pub proof fn lemma_next_date_is_one_day_later(y: int, m: int, d: int)
    requires
        is_calendar_date(y, m, d),
    ensures
        is_calendar_date(next_date(y, m, d).0, next_date(y, m, d).1, next_date(y, m, d).2),
        day_number(next_date(y, m, d).0, next_date(y, m, d).1, next_date(y, m, d).2) == day_number(
            y,
            m,
            d,
        ) + 1,
{
    if d < month_length(m, y) {
    } else if m < 12 {
        assert(days_before_month(m + 1, y) == days_before_month(m, y) + month_length(m, y));
    } else {
        lemma_days_before_months(y);
        assert(days_before_year(y + 1) == days_before_year(y) + year_length(y));
    }
}

/// Month lengths follow the Gregorian calendar: 31 days for January,
/// March, May, July, August, October and December, 30 for April, June,
/// September and November, and 28 for February, 29 in leap years (years
/// divisible by 4 but not by 100, or by 400). So the days before each month
/// are 0, 31, 59, 90, 120, 151, 181, 212, 243, 273, 304, 334, plus one from
/// March on in leap years, and a year has 365 or 366 days.
pub proof fn lemma_gregorian_months(y: int)
    ensures
        ({
            let leap: int = if (y % 4 == 0 && y % 100 != 0) || y % 400 == 0 {
                1
            } else {
                0
            };
            &&& month_length(1, y) == 31
            &&& month_length(2, y) == 28 + leap
            &&& month_length(3, y) == 31
            &&& month_length(4, y) == 30
            &&& month_length(5, y) == 31
            &&& month_length(6, y) == 30
            &&& month_length(7, y) == 31
            &&& month_length(8, y) == 31
            &&& month_length(9, y) == 30
            &&& month_length(10, y) == 31
            &&& month_length(11, y) == 30
            &&& month_length(12, y) == 31
            &&& days_before_month(1, y) == 0
            &&& days_before_month(2, y) == 31
            &&& days_before_month(3, y) == 59 + leap
            &&& days_before_month(4, y) == 90 + leap
            &&& days_before_month(5, y) == 120 + leap
            &&& days_before_month(6, y) == 151 + leap
            &&& days_before_month(7, y) == 181 + leap
            &&& days_before_month(8, y) == 212 + leap
            &&& days_before_month(9, y) == 243 + leap
            &&& days_before_month(10, y) == 273 + leap
            &&& days_before_month(11, y) == 304 + leap
            &&& days_before_month(12, y) == 334 + leap
            &&& days_before_month(13, y) == 365 + leap
            &&& year_length(y) == 365 + leap
        }),
{
    reveal_with_fuel(days_before_month, 13);
}

/// The number of leap years among the years 1..=n.
pub open spec fn leap_years_through(n: int) -> int {
    n / 4 - n / 100 + n / 400
}

proof fn lemma_leap_count_step(y: int)
    requires
        y >= 1,
    ensures
        leap_years_through(y) - leap_years_through(y - 1) == if (y % 4 == 0 && y % 100 != 0) || y
            % 400 == 0 {
            1int
        } else {
            0int
        },
{
    assert(y / 4 - (y - 1) / 4 == if y % 4 == 0 {
        1int
    } else {
        0int
    }) by (nonlinear_arith)
        requires
            y >= 1,
    ;
    assert(y / 100 - (y - 1) / 100 == if y % 100 == 0 {
        1int
    } else {
        0int
    }) by (nonlinear_arith)
        requires
            y >= 1,
    ;
    assert(y / 400 - (y - 1) / 400 == if y % 400 == 0 {
        1int
    } else {
        0int
    }) by (nonlinear_arith)
        requires
            y >= 1,
    ;
    assert(y % 400 == 0 ==> y % 100 == 0 && y % 4 == 0) by (nonlinear_arith);
    assert(y % 100 == 0 ==> y % 4 == 0) by (nonlinear_arith);
}

/// The days before January 1st of year `y` (from 1970 on) are 365 a year
/// plus one for each Gregorian leap year from 1970 to `y - 1`; 477 leap years
/// precede 1970.
pub proof fn lemma_days_before_year_closed_form(y: int)
    requires
        y >= 1970,
    ensures
        days_before_year(y) == 365 * (y - 1970) + leap_years_through(y - 1) - 477,
    decreases y - 1970,
{
    if y > 1970 {
        lemma_days_before_year_closed_form(y - 1);
        lemma_leap_count_step(y - 1);
    }
}

/// One day later at the same time of day is 86 400 000 milliseconds later.
pub proof fn lemma_next_day_millis(f: TimestampFields, g: TimestampFields)
    requires
        is_calendar_date(f.year as int, f.month as int, f.day as int),
        (g.year as int, g.month as int, g.day as int) == next_date(
            f.year as int,
            f.month as int,
            f.day as int,
        ),
        g.hour == f.hour,
        g.minute == f.minute,
        g.second == f.second,
        g.millis == f.millis,
    ensures
        epoch_millis(g) == epoch_millis(f) + 86_400_000,
{
    lemma_next_date_is_one_day_later(f.year as int, f.month as int, f.day as int);
    lemma_epoch_millis_composition(f);
    lemma_epoch_millis_composition(g);
}

/// Within a day, a later time of day gives more milliseconds.
pub proof fn lemma_later_time_of_day(f: TimestampFields, g: TimestampFields)
    requires
        f.year == g.year,
        f.month == g.month,
        f.day == g.day,
        f.minute < 60 && g.minute < 60,
        f.second < 60 && g.second < 60,
        f.millis < 1000 && g.millis < 1000,
        f.hour < g.hour || (f.hour == g.hour && (f.minute < g.minute || (f.minute == g.minute && (
        f.second < g.second || (f.second == g.second && f.millis < g.millis))))),
    ensures
        epoch_millis(f) < epoch_millis(g),
{
    lemma_epoch_millis_composition(f);
    lemma_epoch_millis_composition(g);
}

/// `s` holds no `c`.
pub open spec fn avoids(s: Seq<char>, c: char) -> bool {
    forall|k: int| 0 <= k < s.len() ==> s[k] != c
}

/// The text `YYYY-MM-DDThh:mm:ss.mmmZ` of the fields, each number written in
/// decimal.
pub open spec fn timestamp_text(f: TimestampFields) -> Seq<char> {
    decimal(f.year as nat) + seq!['-'] + decimal(f.month as nat) + seq!['-'] + decimal(
        f.day as nat,
    ) + seq!['T'] + decimal(f.hour as nat) + seq![':'] + decimal(f.minute as nat) + seq![':']
        + decimal(f.second as nat) + seq!['.'] + decimal(f.millis as nat) + seq!['Z']
}

proof fn lemma_digits_avoid(s: Seq<char>)
    requires
        all_digits(s),
    ensures
        avoids(s, '-'),
        avoids(s, 'T'),
        avoids(s, ':'),
        avoids(s, '.'),
        avoids(s, 'Z'),
        forall|k: int| 0 <= k < s.len() ==> !is_whitespace(#[trigger] s[k]),
{
    assert forall|k: int| 0 <= k < s.len() implies !is_whitespace(#[trigger] s[k]) by {
        assert(is_digit(s[k]));
    }
    assert forall|k: int| 0 <= k < s.len() implies s[k] != '-' && s[k] != 'T' && s[k] != ':'
        && s[k] != '.' && s[k] != 'Z' by {
        assert(is_digit(s[k]));
    }
}

proof fn lemma_char_index_scan(s: Seq<char>, c: char, i: int, j: int)
    requires
        0 <= i <= j < s.len(),
        s[j] == c,
        forall|k: int| i <= k < j ==> s[k] != c,
    ensures
        char_index_from(s, c, i) == Some(j),
    decreases j - i,
{
    if i < j {
        lemma_char_index_scan(s, c, i + 1, j);
    }
}

proof fn lemma_split_scan(s: Seq<char>, c: char, start: int, i: int, j: int)
    requires
        0 <= start <= i <= j <= s.len(),
        forall|k: int| i <= k < j ==> s[k] != c,
    ensures
        split_from(s, c, start, i) == split_from(s, c, start, j),
    decreases j - i,
{
    if i < j {
        lemma_split_scan(s, c, start, i + 1, j);
    }
}

/// Three pieces without `c`, joined by `c`, split back into the pieces.
proof fn lemma_split_three(x: Seq<char>, y: Seq<char>, z: Seq<char>, c: char)
    requires
        avoids(x, c),
        avoids(y, c),
        avoids(z, c),
    ensures
        split(x + seq![c] + y + seq![c] + z, c) == seq![x, y, z],
{
    let s = x + seq![c] + y + seq![c] + z;
    let p = x.len() as int;
    let q = p + 1 + y.len();
    assert forall|k: int| 0 <= k < p implies s[k] != c by {
        assert(s[k] == x[k]);
    }
    assert forall|k: int| p + 1 <= k < q implies s[k] != c by {
        assert(s[k] == y[k - p - 1]);
    }
    assert forall|k: int| q + 1 <= k < s.len() implies s[k] != c by {
        assert(s[k] == z[k - q - 1]);
    }
    assert(s[p] == c);
    assert(s[q] == c);
    lemma_split_scan(s, c, 0, 0, p);
    lemma_split_scan(s, c, p + 1, p + 1, q);
    lemma_split_scan(s, c, q + 1, q + 1, s.len() as int);
    assert(s.subrange(0, p) =~= x);
    assert(s.subrange(p + 1, q) =~= y);
    assert(s.subrange(q + 1, s.len() as int) =~= z);
    assert(split_from(s, c, q + 1, s.len() as int) == seq![z]);
    assert(split_from(s, c, p + 1, q) == seq![y] + seq![z]);
    assert(split_from(s, c, 0, p) == seq![x] + (seq![y] + seq![z]));
    assert(seq![x] + (seq![y] + seq![z]) =~= seq![x, y, z]);
}

/// A piece without `c`, then `c`, then anything, splits once into the two.
proof fn lemma_split_once_two(x: Seq<char>, y: Seq<char>, c: char)
    requires
        avoids(x, c),
    ensures
        split_once(x + seq![c] + y, c) == seq![x, y],
{
    let s = x + seq![c] + y;
    let p = x.len() as int;
    assert forall|k: int| 0 <= k < p implies s[k] != c by {
        assert(s[k] == x[k]);
    }
    assert(s[p] == c);
    lemma_char_index_scan(s, c, 0, p);
    assert(s.subrange(0, p) =~= x);
    assert(s.subrange(p + 1, s.len() as int) =~= y);
}

proof fn lemma_parsed_three(x: u64, y: u64, z: u64)
    ensures
        parsed_numbers(seq![decimal(x as nat), decimal(y as nat), decimal(z as nat)]) == seq![
            x,
            y,
            z,
        ],
{
    lemma_parse_decimal(x);
    lemma_parse_decimal(y);
    lemma_parse_decimal(z);
    let a = decimal(x as nat);
    let b = decimal(y as nat);
    let c = decimal(z as nat);
    let e = Seq::<Seq<char>>::empty();
    assert(parsed_numbers(e) == Seq::<u64>::empty());
    lemma_parsed_numbers_cons(c, e);
    lemma_parsed_numbers_cons(b, seq![c] + e);
    lemma_parsed_numbers_cons(a, seq![b] + (seq![c] + e));
    assert(seq![a] + (seq![b] + (seq![c] + e)) =~= seq![a, b, c]);
    assert(seq![x] + (seq![y] + (seq![z] + Seq::<u64>::empty())) =~= seq![x, y, z]);
}

/// Writing the fields as `YYYY-MM-DDThh:mm:ss.mmmZ` and reading the text
/// back gives the same fields, and so the milliseconds of those fields.
pub proof fn lemma_timestamp_text_round_trip(f: TimestampFields)
    ensures
        timestamp_fields(timestamp_text(f)) == Some(f),
        timestamp_millis(timestamp_text(f)) == epoch_millis(f),
{
    let dy = decimal(f.year as nat);
    let dmo = decimal(f.month as nat);
    let dd = decimal(f.day as nat);
    let dh = decimal(f.hour as nat);
    let dmi = decimal(f.minute as nat);
    let ds = decimal(f.second as nat);
    let dms = decimal(f.millis as nat);
    lemma_decimal_spells(f.year as nat);
    lemma_decimal_spells(f.month as nat);
    lemma_decimal_spells(f.day as nat);
    lemma_decimal_spells(f.hour as nat);
    lemma_decimal_spells(f.minute as nat);
    lemma_decimal_spells(f.second as nat);
    lemma_decimal_spells(f.millis as nat);
    lemma_digits_avoid(dy);
    lemma_digits_avoid(dmo);
    lemma_digits_avoid(dd);
    lemma_digits_avoid(dh);
    lemma_digits_avoid(dmi);
    lemma_digits_avoid(ds);
    lemma_digits_avoid(dms);
    let date = dy + seq!['-'] + dmo + seq!['-'] + dd;
    let hms = dh + seq![':'] + dmi + seq![':'] + ds;
    let time = hms + seq!['.'] + dms;
    let core = date + seq!['T'] + time;
    let text = timestamp_text(f);
    assert(text =~= core + seq!['Z']);
    // Nothing to trim.
    assert(!is_whitespace(text[0])) by {
        assert(text[0] == dy[0]);
    }
    assert(trim_start(text) == text);
    assert(text.last() == 'Z');
    assert(trim_end(text) == text);
    // Exactly one trailing Z.
    assert(core.last() == dms.last());
    assert(text.drop_last() =~= core);
    assert(trim_end_char(core, 'Z') == core);
    assert(trim_end_char(text, 'Z') == core);
    // The date avoids T, the hours-minutes-seconds avoid the dot.
    assert(avoids(date, 'T')) by {
        assert forall|k: int| 0 <= k < date.len() implies date[k] != 'T' by {
            if k < dy.len() {
                assert(date[k] == dy[k]);
            } else if k == dy.len() {
            } else if k < dy.len() + 1 + dmo.len() {
                assert(date[k] == dmo[k - dy.len() - 1]);
            } else if k == dy.len() + 1 + dmo.len() {
            } else {
                assert(date[k] == dd[k - dy.len() - 2 - dmo.len()]);
            }
        }
    }
    assert(avoids(hms, '.')) by {
        assert forall|k: int| 0 <= k < hms.len() implies hms[k] != '.' by {
            if k < dh.len() {
                assert(hms[k] == dh[k]);
            } else if k == dh.len() {
            } else if k < dh.len() + 1 + dmi.len() {
                assert(hms[k] == dmi[k - dh.len() - 1]);
            } else if k == dh.len() + 1 + dmi.len() {
            } else {
                assert(hms[k] == ds[k - dh.len() - 2 - dmi.len()]);
            }
        }
    }
    lemma_split_once_two(date, time, 'T');
    lemma_split_once_two(hms, dms, '.');
    lemma_split_three(dy, dmo, dd, '-');
    lemma_split_three(dh, dmi, ds, ':');
    lemma_parsed_three(f.year, f.month, f.day);
    lemma_parsed_three(f.hour, f.minute, f.second);
    lemma_parse_decimal(f.millis);
}

// ---------------------------------------------------------------------------
// Executable functions
// ---------------------------------------------------------------------------

/// The numbers among the pieces of `s` between occurrences of `c`.
pub fn split_numbers(s: &Vec<char>, c: char) -> (r: Vec<u64>)
    ensures
        r@ == parsed_numbers(split(s@, c)),
{
    let mut r: Vec<u64> = Vec::new();
    let mut start: usize = 0;
    let mut i: usize = 0;
    assert(r@ + parsed_numbers(split_from(s@, c, 0, 0)) =~= parsed_numbers(split(s@, c)));
    while i < s.len()
        invariant
            start <= i <= s.len(),
            r@ + parsed_numbers(split_from(s@, c, start as int, i as int)) == parsed_numbers(
                split(s@, c),
            ),
        decreases s.len() - i,
    {
        if s[i] == c {
            let piece = subvec(s, start, i);
            let parsed = parse_u64_exec(&piece);
            let ghost rest = split_from(s@, c, i + 1, i + 1);
            proof {
                lemma_parsed_numbers_cons(piece@, rest);
            }
            match parsed {
                Some(v) => {
                    let ghost before = r@;
                    r.push(v);
                    assert(r@ + parsed_numbers(rest) =~= before + (seq![v] + parsed_numbers(
                        rest,
                    )));
                },
                None => {},
            }
            start = i + 1;
        }
        i = i + 1;
    }
    let piece = subvec(s, start, s.len());
    let parsed = parse_u64_exec(&piece);
    proof {
        lemma_parsed_numbers_cons(piece@, Seq::empty());
        assert(split_from(s@, c, start as int, i as int) == seq![piece@]);
        assert(seq![piece@] =~= seq![piece@] + Seq::<Seq<char>>::empty());
        assert(parsed_numbers(Seq::<Seq<char>>::empty()) == Seq::<u64>::empty());
    }
    match parsed {
        Some(v) => {
            let ghost before = r@;
            r.push(v);
            assert(r@ =~= before + (seq![v] + Seq::<u64>::empty()));
        },
        None => {
            assert(r@ =~= r@ + Seq::<u64>::empty());
        },
    }
    r
}

/// Whether `y` is a Gregorian leap year.
pub fn is_leap_year(y: u64) -> (b: bool)
    ensures
        b == is_leap(y as int),
{
    (y % 4 == 0 && y % 100 != 0) || y % 400 == 0
}

/// The length of month `m` (1..=12) of year `y`.
fn month_length_exec(m: u64, y: u64) -> (n: u64)
    requires
        1 <= m <= 12,
    ensures
        n == month_length(m as int, y as int),
{
    let base: u64 = if m == 1 || m == 3 || m == 5 || m == 7 || m == 8 || m == 10 || m == 12 {
        31
    } else if m == 4 || m == 6 || m == 9 || m == 11 {
        30
    } else {
        28
    };
    if m == 2 && is_leap_year(y) {
        base + 1
    } else {
        base
    }
}

/// The milliseconds since the epoch of the fields, or `None` when they are
/// not convertible.
pub fn fields_to_millis(
    year: u64,
    month: u64,
    day: u64,
    hour: u64,
    minute: u64,
    second: u64,
    millis: u64,
) -> (r: Option<u128>)
    ensures
        ({
            let f = TimestampFields { year, month, day, hour, minute, second, millis };
            match r {
                Some(v) => convertible(f) && v == epoch_millis(f),
                None => !convertible(f),
            }
        }),
{
    let ghost f = TimestampFields { year, month, day, hour, minute, second, millis };
    // Past this many days no time of day fits in a u64 of milliseconds.
    let day_limit: u64 = u64::MAX / 86_400_000;
    let mut days: u64 = 0;
    let mut y: u64 = 1970;
    while y < year
        invariant
            1970 <= y,
            y <= year || year < 1970,
            year < 1970 ==> y == 1970,
            days == days_before_year(y as int),
            days <= day_limit,
            day_limit == u64::MAX / 86_400_000,
            f == (TimestampFields { year, month, day, hour, minute, second, millis }),
        decreases year - y,
    {
        let len: u64 = if is_leap_year(y) {
            366
        } else {
            365
        };
        days = days + len;
        y = y + 1;
        if days > day_limit {
            proof {
                lemma_days_before_year_monotonic(y as int, year as int);
                lemma_days_before_month_nonneg(month as int, year as int);
                if convertible(f) {
                    let big_d = days_before_year(year as int) + days_before_month(
                        month as int,
                        year as int,
                    ) + day - 1;
                    let rest = hour * 3600 + minute * 60 + second;
                    assert(epoch_millis(f) == (big_d * 86400 + rest) * 1000 + millis);
                    assert(epoch_millis(f) >= big_d * 86400000) by (nonlinear_arith)
                        requires
                            epoch_millis(f) == (big_d * 86400 + rest) * 1000 + millis,
                            rest >= 0,
                            millis >= 0,
                    ;
                    assert(big_d * 86400000 > u64::MAX) by (nonlinear_arith)
                        requires
                            big_d >= days,
                            days > u64::MAX / 86_400_000,
                    ;
                }
            }
            return None;
        }
    }
    assert(days == days_before_year(year as int));
    if month > 13 || day == 0 {
        return None;
    }
    let mut month_days: u64 = 0;
    let mut m: u64 = 1;
    while m < month
        invariant
            1 <= m,
            m <= month || month == 0,
            month == 0 ==> m == 1,
            month <= 13,
            month_days == days_before_month(m as int, year as int),
            month_days <= 31 * m,
        decreases month - m,
    {
        month_days = month_days + month_length_exec(m, year);
        m = m + 1;
    }
    assert(month_days == days_before_month(month as int, year as int));
    let total_days: u128 = days as u128 + month_days as u128 + (day - 1) as u128;
    let total: u128 = (total_days * 86400 + hour as u128 * 3600 + minute as u128 * 60
        + second as u128) * 1000 + millis as u128;
    if total > u64::MAX as u128 {
        None
    } else {
        Some(total)
    }
}

/// The milliseconds since the epoch of the timestamp `ts`, 0 when it is
/// malformed, or `None` when its fields are not convertible.
pub fn try_iso_ts_to_epoch(ts: &str) -> (r: Option<u128>)
    ensures
        match r {
            Some(v) => timestamp_convertible(ts@) && v == timestamp_millis(ts@),
            None => !timestamp_convertible(ts@),
        },
{
    let trimmed = trim_chars(&chars_of(ts));
    let core = trim_end_char_chars(&trimmed, 'Z');
    let parts = split_once_exec(&core, 'T');
    if parts.len() != 2 {
        return Some(0);
    }
    let date = split_numbers(&parts[0], '-');
    let time_parts = split_once_exec(&parts[1], '.');
    let hms = split_numbers(&time_parts[0], ':');
    let millis: u64 = if time_parts.len() > 1 {
        match parse_u64_exec(&time_parts[1]) {
            Some(v) => v,
            None => 0,
        }
    } else {
        0
    };
    if date.len() != 3 || hms.len() != 3 {
        return Some(0);
    }
    fields_to_millis(date[0], date[1], date[2], hms[0], hms[1], hms[2], millis)
}

/// Converts an ISO 8601 timestamp (e.g. `2026-03-16T04:52:11.745Z`) to
/// milliseconds since the epoch; a malformed timestamp counts 0.
pub fn iso_ts_to_epoch(ts: &str) -> (r: u128)
    requires
        timestamp_convertible(ts@),
    ensures
        r == timestamp_millis(ts@),
{
    match try_iso_ts_to_epoch(ts) {
        Some(v) => v,
        None => 0,
    }
}

} // verus!
