//! Civil (proleptic Gregorian) date-time values, the model for the
//! timestamps that stream file names encode.
//!
//! A `CivilDateTime` holds a calendar date and a time of day as plain
//! integers; no time zone is attached. Arithmetic and formatting on these
//! values are verified against a seconds-since-origin model
//! (`total_seconds`). Only the conversion to a Unix epoch timestamp, which
//! depends on the machine's local time zone, is delegated to an outside
//! crate.

use vstd::prelude::*;

verus! {

/// A calendar date with a time of day, second precision, no time zone.
#[derive(Clone, Copy, PartialEq, Eq, Structural, Debug)]
pub struct CivilDateTime {
    pub year: u32,
    pub month: u32,
    pub day: u32,
    pub hour: u32,
    pub minute: u32,
    pub second: u32,
}

pub open spec fn is_leap_year(y: int) -> bool {
    (y % 4 == 0 && y % 100 != 0) || y % 400 == 0
}

pub open spec fn days_in_year(y: int) -> int {
    if is_leap_year(y) {
        366
    } else {
        365
    }
}

pub open spec fn days_in_month(y: int, m: int) -> int {
    if m == 2 {
        if is_leap_year(y) {
            29
        } else {
            28
        }
    } else if m == 4 || m == 6 || m == 9 || m == 11 {
        30
    } else {
        31
    }
}

/// Days in year `y` that lie before the first day of month `m`.
pub open spec fn days_before_month(y: int, m: int) -> int
    decreases m,
{
    if m <= 1 {
        0
    } else {
        days_before_month(y, m - 1) + days_in_month(y, m - 1)
    }
}

/// Days lying before the first day of year `y`, counted from year 0.
pub open spec fn days_before_year(y: int) -> int
    decreases y,
{
    if y <= 0 {
        0
    } else {
        days_before_year(y - 1) + days_in_year(y - 1)
    }
}

impl CivilDateTime {
    /// A well-formed value: a real calendar date in years 0 through 9999
    /// and a real time of day.
    pub open spec fn wf(self) -> bool {
        self.year <= 9999 && 1 <= self.month <= 12 && 1 <= self.day && self.day as int
            <= days_in_month(self.year as int, self.month as int) && self.hour <= 23 && self.minute
            <= 59 && self.second <= 59
    }

    /// Days from 0000-01-01 to this date.
    pub open spec fn day_number(self) -> int {
        days_before_year(self.year as int) + days_before_month(self.year as int, self.month as int)
            + (self.day - 1)
    }

    pub open spec fn second_of_day(self) -> int {
        self.hour * 3600 + self.minute * 60 + self.second
    }

    /// Seconds from 0000-01-01 00:00:00 to this instant: the model over
    /// which date arithmetic is specified.
    pub open spec fn total_seconds(self) -> int {
        self.day_number() * 86400 + self.second_of_day()
    }
}

/// The largest well-formed value.
pub open spec fn max_civil() -> CivilDateTime {
    CivilDateTime { year: 9999, month: 12, day: 31, hour: 23, minute: 59, second: 59 }
}

proof fn lemma_days_before_year_bound(y: int)
    requires
        0 <= y,
    ensures
        365 * y <= days_before_year(y) <= 366 * y,
    decreases y,
{
    if y > 0 {
        lemma_days_before_year_bound(y - 1);
    }
}

proof fn lemma_days_before_month_bound(y: int, m: int)
    requires
        1 <= m <= 13,
    ensures
        0 <= days_before_month(y, m) <= 31 * (m - 1),
    decreases m,
{
    if m > 1 {
        lemma_days_before_month_bound(y, m - 1);
    }
}

/// The twelve months of year `y` together hold exactly `days_in_year(y)`
/// days.
proof fn lemma_months_fill_year(y: int)
    ensures
        days_before_month(y, 13) == days_in_year(y),
{
    reveal_with_fuel(days_before_month, 14);
}

fn is_leap_year_exec(y: u32) -> (r: bool)
    ensures
        r == is_leap_year(y as int),
{
    (y % 4 == 0 && y % 100 != 0) || y % 400 == 0
}

fn days_in_year_exec(y: u32) -> (r: u32)
    ensures
        r as int == days_in_year(y as int),
{
    if is_leap_year_exec(y) {
        366
    } else {
        365
    }
}

pub fn days_in_month_exec(y: u32, m: u32) -> (r: u32)
    requires
        1 <= m <= 12,
    ensures
        r as int == days_in_month(y as int, m as int),
{
    if m == 2 {
        if is_leap_year_exec(y) {
            29
        } else {
            28
        }
    } else if m == 4 || m == 6 || m == 9 || m == 11 {
        30
    } else {
        31
    }
}

/// Days from 0000-01-01 to the date of `dt`.
fn day_number_of(dt: &CivilDateTime) -> (n: u64)
    requires
        dt.wf(),
    ensures
        n as int == dt.day_number(),
{
    let mut acc: u64 = 0;
    let mut y: u32 = 0;
    while y < dt.year
        invariant
            y <= dt.year <= 9999,
            acc as int == days_before_year(y as int),
            acc <= 366 * (y as u64),
        decreases dt.year - y,
    {
        acc = acc + days_in_year_exec(y) as u64;
        y = y + 1;
    }
    let mut macc: u64 = 0;
    let mut m: u32 = 1;
    while m < dt.month
        invariant
            dt.wf(),
            1 <= m <= dt.month,
            macc as int == days_before_month(dt.year as int, m as int),
            macc <= 31 * (m as u64),
        decreases dt.month - m,
    {
        macc = macc + days_in_month_exec(dt.year, m) as u64;
        m = m + 1;
    }
    proof {
        lemma_days_before_year_bound(dt.year as int);
    }
    acc + macc + (dt.day as u64 - 1)
}

/// The date `n` days after 0000-01-01, as (year, month, day).
fn civil_from_day_number(n: u64) -> (r: (u32, u32, u32))
    requires
        n as int <= max_civil().day_number(),
    ensures
        ({
            let (y, m, d) = r;
            &&& y <= 9999
            &&& 1 <= m <= 12
            &&& 1 <= d as int <= days_in_month(y as int, m as int)
            &&& days_before_year(y as int) + days_before_month(y as int, m as int) + (d - 1)
                == n as int
        }),
{
    proof {
        reveal_with_fuel(days_before_month, 13);
        assert(days_before_month(9999int, 12) == 334);
        assert(days_in_year(9999int) == 365);
        lemma_days_before_year_bound(9999);
    }
    let mut y: u32 = 0;
    let mut acc: u64 = 0;
    while acc + days_in_year_exec(y) as u64 <= n
        invariant
            y <= 9999,
            acc as int == days_before_year(y as int),
            acc <= n,
            n as int <= max_civil().day_number(),
            n < 3700000,
            days_before_month(9999int, 12) == 334,
            days_in_year(9999int) == 365,
        decreases 9999 - y,
    {
        proof {
            if y == 9999 {
                assert(days_before_year(9999int) + 365 <= n as int);
                assert(n as int <= days_before_year(9999int) + 334 + 30);
                assert(false);
            }
        }
        acc = acc + days_in_year_exec(y) as u64;
        y = y + 1;
    }
    let ghost rem0: int = n as int - acc as int;
    proof {
        lemma_months_fill_year(y as int);
        assert(rem0 < days_in_year(y as int));
    }
    let mut m: u32 = 1;
    let mut rem: u64 = n - acc;
    while rem >= days_in_month_exec(y, m) as u64
        invariant
            1 <= m <= 12,
            days_before_month(y as int, m as int) + rem as int == rem0,
            rem0 < days_in_year(y as int),
            days_before_month(y as int, 13) == days_in_year(y as int),
            0 <= rem,
        decreases 12 - m,
    {
        proof {
            if m == 12 {
                assert(days_before_month(y as int, 13) == days_before_month(y as int, 12)
                    + days_in_month(y as int, 12));
                assert(false);
            }
        }
        rem = rem - days_in_month_exec(y, m) as u64;
        m = m + 1;
    }
    (y, m, rem as u32 + 1)
}

/// `dt` moved forward by `secs` seconds, or `None` when the result would
/// lie beyond year 9999.
pub fn checked_add_seconds(dt: &CivilDateTime, secs: u64) -> (r: Option<CivilDateTime>)
    requires
        dt.wf(),
    ensures
        match r {
            Some(ndt) => ndt.wf() && ndt.total_seconds() == dt.total_seconds() + secs
                && dt.total_seconds() + secs <= max_civil().total_seconds(),
            None => dt.total_seconds() + secs > max_civil().total_seconds(),
        },
        dt.total_seconds() + secs <= max_civil().total_seconds() ==> r is Some,
{
    let dn = day_number_of(dt);
    proof {
        lemma_days_before_year_bound(dt.year as int);
        lemma_days_before_month_bound(dt.year as int, dt.month as int);
    }
    let sod: u64 = dt.hour as u64 * 3600 + dt.minute as u64 * 60 + dt.second as u64;
    let base: u64 = dn * 86400 + sod;
    let max = CivilDateTime { year: 9999, month: 12, day: 31, hour: 23, minute: 59, second: 59 };
    proof {
        assert(days_in_month(9999int, 12) == 31);
        lemma_days_before_year_bound(9999);
        lemma_days_before_month_bound(9999, 12);
    }
    let max_dn = day_number_of(&max);
    let max_total: u64 = max_dn * 86400 + 86399;
    if secs > max_total {
        return None;
    }
    let total: u64 = base + secs;
    if total > max_total {
        return None;
    }
    let n: u64 = total / 86400;
    let sod2: u64 = total % 86400;
    proof {
        assert(total as int == 86400 * (n as int) + sod2 as int && sod2 < 86400) by (nonlinear_arith)
            requires
                n as int == total as int / 86400,
                sod2 as int == total as int % 86400,
        ;
        assert(n as int <= max_civil().day_number()) by (nonlinear_arith)
            requires
                total as int <= max_civil().day_number() * 86400 + 86399,
                total as int == 86400 * (n as int) + sod2 as int,
                0 <= sod2 < 86400,
        ;
    }
    let (y, m, d) = civil_from_day_number(n);
    let hour: u32 = (sod2 / 3600) as u32;
    let rest: u64 = sod2 % 3600;
    let minute: u32 = (rest / 60) as u32;
    let second: u32 = (rest % 60) as u32;
    proof {
        assert(sod2 as int == 3600 * (hour as int) + rest as int && rest < 3600 && hour < 24)
            by (nonlinear_arith)
            requires
                hour as int == sod2 as int / 3600,
                rest as int == sod2 as int % 3600,
                0 <= sod2 < 86400,
        ;
        assert(rest as int == 60 * (minute as int) + second as int && second < 60 && minute < 60)
            by (nonlinear_arith)
            requires
                minute as int == rest as int / 60,
                second as int == rest as int % 60,
                0 <= rest < 3600,
        ;
    }
    let ndt = CivilDateTime { year: y, month: m, day: d, hour, minute, second };
    Some(ndt)
}

proof fn lemma_dby_mono(a: int, b: int)
    requires
        a <= b,
    ensures
        days_before_year(a) <= days_before_year(b),
    decreases b - a,
{
    if a < b {
        lemma_dby_mono(a, b - 1);
    }
}

proof fn lemma_dbm_mono(y: int, m: int, m2: int)
    requires
        1 <= m < m2 <= 13,
    ensures
        days_before_month(y, m) + days_in_month(y, m) <= days_before_month(y, m2),
    decreases m2 - m,
{
    if m + 1 < m2 {
        lemma_dbm_mono(y, m + 1, m2);
        lemma_days_before_month_bound(y, m + 1);
    }
}

/// A well-formed date's position within its year lies below the year's
/// length.
proof fn lemma_day_within_year(dt: CivilDateTime)
    requires
        dt.wf(),
    ensures
        0 <= days_before_month(dt.year as int, dt.month as int) + (dt.day - 1) < days_in_year(
            dt.year as int,
        ),
{
    lemma_days_before_month_bound(dt.year as int, dt.month as int);
    lemma_dbm_mono(dt.year as int, dt.month as int, 13);
    lemma_months_fill_year(dt.year as int);
}

/// `total_seconds` identifies a well-formed value: no two well-formed
/// date-times share a seconds count, so a contract stating a result's
/// count states the result.
pub proof fn lemma_total_seconds_injective(a: CivilDateTime, b: CivilDateTime)
    requires
        a.wf(),
        b.wf(),
        a.total_seconds() == b.total_seconds(),
    ensures
        a == b,
{
    assert(0 <= a.second_of_day() < 86400);
    assert(0 <= b.second_of_day() < 86400);
    assert(a.day_number() == b.day_number() && a.second_of_day() == b.second_of_day())
        by (nonlinear_arith)
        requires
            a.day_number() * 86400 + a.second_of_day() == b.day_number() * 86400
                + b.second_of_day(),
            0 <= a.second_of_day() < 86400,
            0 <= b.second_of_day() < 86400,
    ;
    lemma_day_within_year(a);
    lemma_day_within_year(b);
    if a.year < b.year {
        lemma_dby_mono(a.year as int + 1, b.year as int);
        assert(false);
    }
    if b.year < a.year {
        lemma_dby_mono(b.year as int + 1, a.year as int);
        assert(false);
    }
    if a.month < b.month {
        lemma_dbm_mono(a.year as int, a.month as int, b.month as int);
        assert(false);
    }
    if b.month < a.month {
        lemma_dbm_mono(a.year as int, b.month as int, a.month as int);
        assert(false);
    }
}

pub open spec fn digit_char(d: int) -> char {
    if d == 0 {
        '0'
    } else if d == 1 {
        '1'
    } else if d == 2 {
        '2'
    } else if d == 3 {
        '3'
    } else if d == 4 {
        '4'
    } else if d == 5 {
        '5'
    } else if d == 6 {
        '6'
    } else if d == 7 {
        '7'
    } else if d == 8 {
        '8'
    } else {
        '9'
    }
}

pub open spec fn two_digit_chars(n: int) -> Seq<char> {
    seq![digit_char(n / 10), digit_char(n % 10)]
}

pub open spec fn four_digit_chars(n: int) -> Seq<char> {
    seq![
        digit_char(n / 1000),
        digit_char((n / 100) % 10),
        digit_char((n / 10) % 10),
        digit_char(n % 10),
    ]
}

/// The decimal digits of a non-negative number, no padding.
pub open spec fn dec_chars(n: int) -> Seq<char>
    decreases n,
{
    if n < 10 {
        seq![digit_char(n)]
    } else {
        dec_chars(n / 10) + seq![digit_char(n % 10)]
    }
}

/// The `YYYY-MM-DD` rendering of the date of `dt`.
pub open spec fn date_base_chars(dt: CivilDateTime) -> Seq<char> {
    four_digit_chars(dt.year as int) + seq!['-'] + two_digit_chars(dt.month as int) + seq!['-']
        + two_digit_chars(dt.day as int)
}

/// The `YYYY-MM-DD HH:MM:SS` rendering of `dt`.
pub open spec fn full_base_chars(dt: CivilDateTime) -> Seq<char> {
    date_base_chars(dt) + seq![' '] + two_digit_chars(dt.hour as int) + seq![':']
        + two_digit_chars(dt.minute as int) + seq![':'] + two_digit_chars(dt.second as int)
}

pub(crate) fn append_digit(s: &mut String, d: u32)
    requires
        d < 10,
    ensures
        final(s)@ == old(s)@ + seq![digit_char(d as int)],
{
    match d {
        0 => {
            proof {
                reveal_strlit("0");
            }
            s.append("0");
        },
        1 => {
            proof {
                reveal_strlit("1");
            }
            s.append("1");
        },
        2 => {
            proof {
                reveal_strlit("2");
            }
            s.append("2");
        },
        3 => {
            proof {
                reveal_strlit("3");
            }
            s.append("3");
        },
        4 => {
            proof {
                reveal_strlit("4");
            }
            s.append("4");
        },
        5 => {
            proof {
                reveal_strlit("5");
            }
            s.append("5");
        },
        6 => {
            proof {
                reveal_strlit("6");
            }
            s.append("6");
        },
        7 => {
            proof {
                reveal_strlit("7");
            }
            s.append("7");
        },
        8 => {
            proof {
                reveal_strlit("8");
            }
            s.append("8");
        },
        _ => {
            proof {
                reveal_strlit("9");
            }
            s.append("9");
        },
    }
    proof {
        assert(final(s)@ =~= old(s)@ + seq![digit_char(d as int)]);
    }
}

fn append_two(s: &mut String, n: u32)
    requires
        n < 100,
    ensures
        final(s)@ == old(s)@ + two_digit_chars(n as int),
{
    append_digit(s, n / 10);
    append_digit(s, n % 10);
    proof {
        assert(final(s)@ =~= old(s)@ + two_digit_chars(n as int));
    }
}

fn append_four(s: &mut String, n: u32)
    requires
        n < 10000,
    ensures
        final(s)@ == old(s)@ + four_digit_chars(n as int),
{
    append_digit(s, n / 1000);
    append_digit(s, (n / 100) % 10);
    append_digit(s, (n / 10) % 10);
    append_digit(s, n % 10);
    proof {
        assert(final(s)@ =~= old(s)@ + four_digit_chars(n as int));
    }
}

/// The decimal digits of `n`, appended to `s`.
pub fn append_decimal(s: &mut String, n: u64)
    ensures
        final(s)@ == old(s)@ + dec_chars(n as int),
    decreases n,
{
    if n < 10 {
        append_digit(s, n as u32);
    } else {
        append_decimal(s, n / 10);
        append_digit(s, (n % 10) as u32);
        proof {
            assert(final(s)@ =~= old(s)@ + dec_chars(n as int));
        }
    }
}

/// Renders the date of `dt` as `YYYY-MM-DD`.
pub fn format_date_base(dt: &CivilDateTime) -> (r: String)
    requires
        dt.wf(),
    ensures
        r@ == date_base_chars(*dt),
{
    let mut s = String::new();
    append_four(&mut s, dt.year);
    proof {
        reveal_strlit("-");
    }
    s.append("-");
    append_two(&mut s, dt.month);
    s.append("-");
    append_two(&mut s, dt.day);
    proof {
        assert(s@ =~= date_base_chars(*dt));
    }
    s
}

/// Renders `dt` as `YYYY-MM-DD HH:MM:SS`.
pub fn format_full_base(dt: &CivilDateTime) -> (r: String)
    requires
        dt.wf(),
    ensures
        r@ == full_base_chars(*dt),
{
    let mut s = format_date_base(dt);
    proof {
        reveal_strlit(" ");
        reveal_strlit(":");
    }
    s.append(" ");
    append_two(&mut s, dt.hour);
    s.append(":");
    append_two(&mut s, dt.minute);
    s.append(":");
    append_two(&mut s, dt.second);
    proof {
        assert(s@ =~= full_base_chars(*dt));
    }
    s
}

} // verus!
