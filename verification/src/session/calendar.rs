//! The Gregorian calendar, and timestamps in it.

use vstd::prelude::*;
use vstd::string::*;
use crate::text::{
    decimal_padded, decimal_text, digit, is_digit, lemma_decimal_reads_back, zero_padded,
};

verus! {

/// Tells whether a year has a 29th of February.
pub open spec fn is_leap(year: nat) -> bool {
    year % 4 == 0 && (year % 100 != 0 || year % 400 == 0)
}

/// The number of days of a year.
pub open spec fn days_in_year(year: nat) -> nat {
    if is_leap(year) {
        366
    } else {
        365
    }
}

/// The number of days of a month.
pub open spec fn days_in_month(year: nat, month: nat) -> nat {
    if month == 2 {
        if is_leap(year) {
            29
        } else {
            28
        }
    } else if month == 4 || month == 6 || month == 9 || month == 11 {
        30
    } else {
        31
    }
}

/// The number of days from the start of year 0 to the start of a year.
pub open spec fn days_before_year(year: nat) -> nat
    decreases year,
{
    if year == 0 {
        0
    } else {
        days_before_year((year - 1) as nat) + days_in_year((year - 1) as nat)
    }
}

/// The number of days from the start of a year to the start of a month in it.
pub open spec fn days_before_month(year: nat, month: nat) -> nat
    decreases month,
{
    if month <= 1 {
        0
    } else {
        days_before_month(year, (month - 1) as nat) + days_in_month(year, (month - 1) as nat)
    }
}

/// Tells whether there is such a date.
pub open spec fn is_date(year: nat, month: nat, day: nat) -> bool {
    1 <= month <= 12 && 1 <= day <= days_in_month(year, month)
}

/// The number of days from the start of year 0 to a date.
pub open spec fn day_of_era(year: nat, month: nat, day: nat) -> int {
    days_before_year(year) + days_before_month(year, month) + day - 1
}

/// The number of days from 1970-01-01 to a date.
pub open spec fn day_number(year: nat, month: nat, day: nat) -> int {
    day_of_era(year, month, day) - day_of_era(1970, 1, 1)
}

/// The date that is a number of days after 1970-01-01.
pub open spec fn date_of(days: nat) -> (nat, nat, nat) {
    choose|date: (nat, nat, nat)|
        is_date(date.0, date.1, date.2) && #[trigger] day_number(date.0, date.1, date.2) == days
}

/// The start of a year, without recursion: one leap day in four years, but for
/// three in four hundred.
proof fn lemma_days_before_year(year: nat)
    ensures
        days_before_year(year) + (if is_leap(year) {
            1nat
        } else {
            0nat
        }) == 365 * year + year / 4 - year / 100 + year / 400 + 1,
    decreases year,
{
    if year > 0 {
        lemma_days_before_year((year - 1) as nat);
        assert(year / 4 == (year - 1) / 4 + (if year % 4 == 0 {
            1int
        } else {
            0int
        }));
        assert(year / 100 == (year - 1) / 100 + (if year % 100 == 0 {
            1int
        } else {
            0int
        }));
        assert(year / 400 == (year - 1) / 400 + (if year % 400 == 0 {
            1int
        } else {
            0int
        }));
        assert(year % 100 == 0 ==> year % 4 == 0);
        assert(year % 400 == 0 ==> year % 100 == 0);
    }
}

/// The start of a month, without recursion.
proof fn lemma_days_before_month(year: nat, month: nat)
    requires
        1 <= month <= 12,
    ensures
        month == 1 ==> days_before_month(year, month) == 0,
        month == 2 ==> days_before_month(year, month) == 31,
        month >= 3 ==> days_before_month(year, month) == 59 + (if is_leap(year) {
            1nat
        } else {
            0nat
        }) + (153 * (month - 3) + 2) / 5,
    decreases month,
{
    if month > 1 {
        lemma_days_before_month(year, (month - 1) as nat);
    }
}

/// The years of a four-hundred-year era, counted from the first of March.
proof fn lemma_year_of_era(doe: int, yoe: int)
    requires
        0 <= doe < 146097,
        yoe == (doe - doe / 1460 + doe / 36524 - doe / 146096) / 365,
    ensures
        0 <= yoe < 400,
        365 * yoe + yoe / 4 - yoe / 100 <= doe,
        yoe < 399 ==> doe < 365 * (yoe + 1) + (yoe + 1) / 4 - (yoe + 1) / 100,
{
    let b = doe / 36524;
    assert(0 <= b <= 4);
    if b == 4 {
        assert(doe == 146096);
    } else {
        assert(doe / 146096 == 0);
        assert(100 * b <= yoe < 100 * (b + 1));
        assert(yoe / 100 == b);
    }
}

/// The months of a year that starts on the first of March.
proof fn lemma_month_of_year(doy: int, mp: int, day: int)
    requires
        0 <= doy <= 365,
        mp == (5 * doy + 2) / 153,
        day == doy - (153 * mp + 2) / 5 + 1,
    ensures
        0 <= mp <= 11,
        1 <= day <= 31,
        (mp == 1 || mp == 3 || mp == 6 || mp == 8) ==> day <= 30,
        mp == 11 ==> day <= 29,
        mp == 11 && day == 29 ==> doy == 365,
        mp >= 10 ==> (153 * mp + 2) / 5 == 306 + 31 * (mp - 10),
{
    assert(0 <= mp <= 11);
    if mp == 0 {
    } else if mp == 1 {
    } else if mp == 2 {
    } else if mp == 3 {
    } else if mp == 4 {
    } else if mp == 5 {
    } else if mp == 6 {
    } else if mp == 7 {
    } else if mp == 8 {
    } else if mp == 9 {
    } else if mp == 10 {
    } else {
    }
}

/// The first of March in year `yoe` of era `era`, counted from the first of
/// January in year 0.
proof fn lemma_march_year(era: int, yoe: int, year: nat)
    requires
        0 <= era,
        0 <= yoe < 400,
        year == yoe + era * 400,
    ensures
        days_before_year(year) + (if is_leap(year) {
            1int
        } else {
            0int
        }) == era * 146097 + 365 * yoe + yoe / 4 - yoe / 100 + 1,
{
    lemma_days_before_year(year);
    assert(year / 4 == 100 * era + yoe / 4);
    assert(year / 100 == 4 * era + yoe / 100);
    assert(year / 400 == era);
}

/// A year from March to March has 366 days only where the next year is a leap year.
proof fn lemma_long_year(era: int, yoe: int, year: nat, doy: int)
    requires
        0 <= era,
        0 <= yoe < 400,
        year == yoe + era * 400,
        yoe < 399 ==> doy < 365 + ((yoe + 1) / 4 - yoe / 4) - ((yoe + 1) / 100 - yoe / 100),
        yoe == 399 ==> doy <= 365,
    ensures
        doy <= 365,
        doy == 365 ==> is_leap(year + 1),
{
    let next = year + 1;
    assert((yoe + 1) / 4 == yoe / 4 + (if (yoe + 1) % 4 == 0 {
        1int
    } else {
        0int
    }));
    assert((yoe + 1) / 100 == yoe / 100 + (if (yoe + 1) % 100 == 0 {
        1int
    } else {
        0int
    }));
    assert(next % 4 == (yoe + 1) % 4);
    assert(next % 100 == (yoe + 1) % 100);
    if yoe == 399 {
        assert(next == 400 * (era + 1));
        assert(next % 400 == 0);
    }
}

/// A year starts where the year before ends.
proof fn lemma_next_year(year: nat)
    ensures
        days_before_year(year + 1) == days_before_year(year) + days_in_year(year),
{
}

/// The date that the conversion arrives at is the right one.
proof fn lemma_civil(days: int, era: int, yoe: int, doy: int, mp: int, day: int)
    requires
        0 <= days,
        0 <= era,
        0 <= yoe < 400,
        0 <= doy,
        yoe < 399 ==> doy < 365 + ((yoe + 1) / 4 - yoe / 4) - ((yoe + 1) / 100 - yoe / 100),
        yoe == 399 ==> doy <= 365,
        days + 719468 == era * 146097 + 365 * yoe + yoe / 4 - yoe / 100 + doy,
        mp == (5 * doy + 2) / 153,
        day == doy - (153 * mp + 2) / 5 + 1,
    ensures
        0 <= mp <= 11,
        1 <= day <= 31,
        ({
            let month = (if mp < 10 {
                mp + 3
            } else {
                mp - 9
            }) as nat;
            let year = (yoe + era * 400 + if mp < 10 {
                0int
            } else {
                1int
            }) as nat;
            is_date(year, month, day as nat) && day_number(year, month, day as nat) == days
        }),
{
    let y = (yoe + era * 400) as nat;
    assert(y >= 0) by (nonlinear_arith)
        requires
            0 <= era,
            0 <= yoe,
            y == yoe + era * 400,
    ;
    lemma_long_year(era, yoe, y, doy);
    lemma_month_of_year(doy, mp, day);
    lemma_march_year(era, yoe, y);
    lemma_next_year(y);
    lemma_days_before_year(1970);
    assert(days_before_year(1970) == 719528);
    lemma_days_before_month(1970, 1);
    if mp < 10 {
        lemma_days_before_month(y, (mp + 3) as nat);
    } else {
        lemma_days_before_month(y + 1, (mp - 9) as nat);
    }
}

/// Later dates have larger numbers.
proof fn lemma_years_in_order(a: nat, b: nat)
    requires
        a < b,
    ensures
        days_before_year(a) + days_in_year(a) <= days_before_year(b),
    decreases b - a,
{
    if a + 1 < b {
        lemma_years_in_order(a, (b - 1) as nat);
    }
}

proof fn lemma_months_in_order(year: nat, a: nat, b: nat)
    requires
        1 <= a < b,
    ensures
        days_before_month(year, a) + days_in_month(year, a) <= days_before_month(year, b),
    decreases b - a,
{
    if a + 1 < b {
        lemma_months_in_order(year, a, (b - 1) as nat);
    }
}

proof fn lemma_date_within_year(year: nat, month: nat, day: nat)
    requires
        is_date(year, month, day),
    ensures
        1 <= days_before_month(year, month) + day <= days_in_year(year),
{
    lemma_days_before_month(year, month);
}

/// Tells whether one date comes before another.
pub open spec fn is_before(a: (nat, nat, nat), b: (nat, nat, nat)) -> bool {
    a.0 < b.0 || (a.0 == b.0 && (a.1 < b.1 || (a.1 == b.1 && a.2 < b.2)))
}

/// Dates are numbered in their order, so that a number stands for one date only.
pub proof fn law_dates_are_numbered_in_order(a: (nat, nat, nat), b: (nat, nat, nat))
    requires
        is_date(a.0, a.1, a.2),
        is_date(b.0, b.1, b.2),
    ensures
        is_before(a, b) <==> day_number(a.0, a.1, a.2) < day_number(b.0, b.1, b.2),
        a == b <==> day_number(a.0, a.1, a.2) == day_number(b.0, b.1, b.2),
{
    lemma_date_within_year(a.0, a.1, a.2);
    lemma_date_within_year(b.0, b.1, b.2);
    if a.0 < b.0 {
        lemma_years_in_order(a.0, b.0);
    } else if b.0 < a.0 {
        lemma_years_in_order(b.0, a.0);
    } else if a.1 < b.1 {
        lemma_months_in_order(a.0, a.1, b.1);
    } else if b.1 < a.1 {
        lemma_months_in_order(a.0, b.1, a.1);
    }
}

/// Converts a number of days since 1970-01-01 to a year, a month and a day.
pub fn days_to_ymd(days: u64) -> (r: (u64, u64, u64))
    ensures
        is_date(r.0 as nat, r.1 as nat, r.2 as nat),
        day_number(r.0 as nat, r.1 as nat, r.2 as nat) == days,
        (r.0 as nat, r.1 as nat, r.2 as nat) == date_of(days as nat),
{
    let z: u128 = days as u128 + 719468;
    let era: u128 = z / 146097;
    let doe: u128 = z % 146097;
    let yoe: u128 = (doe - doe / 1460 + doe / 36524 - doe / 146096) / 365;
    proof {
        lemma_year_of_era(doe as int, yoe as int);
    }
    let y: u128 = yoe + era * 400;
    let doy: u128 = doe - (365 * yoe + yoe / 4 - yoe / 100);
    let mp: u128 = (5 * doy + 2) / 153;
    let start: u128 = (153 * mp + 2) / 5;
    proof {
        lemma_civil(
            days as int,
            era as int,
            yoe as int,
            doy as int,
            mp as int,
            doy - (153 * mp + 2) / 5 + 1,
        );
    }
    let day: u128 = doy - start + 1;
    let month: u128 = if mp < 10 {
        mp + 3
    } else {
        mp - 9
    };
    let year: u128 = if month <= 2 {
        y + 1
    } else {
        y
    };
    proof {
        let date = (year as nat, month as nat, day as nat);
        assert(is_date(date.0, date.1, date.2) && day_number(date.0, date.1, date.2) == days);
        law_dates_are_numbered_in_order(date, date_of(days as nat));
    }
    (year as u64, month as u64, day as u64)
}

/// Every day from 1970-01-01 on has a date, and only one.
pub proof fn law_every_day_has_a_date(days: nat)
    ensures
        is_date(date_of(days).0, date_of(days).1, date_of(days).2),
        day_number(date_of(days).0, date_of(days).1, date_of(days).2) == days,
{
    let z = days + 719468;
    let era = z as int / 146097;
    let doe = z as int % 146097;
    let yoe = (doe - doe / 1460 + doe / 36524 - doe / 146096) / 365;
    lemma_year_of_era(doe, yoe);
    let doy = doe - (365 * yoe + yoe / 4 - yoe / 100);
    let mp = (5 * doy + 2) / 153;
    let day = doy - (153 * mp + 2) / 5 + 1;
    lemma_civil(days as int, era, yoe, doy, mp, day);
    let month = (if mp < 10 {
        mp + 3
    } else {
        mp - 9
    }) as nat;
    let year = (yoe + era * 400 + if mp < 10 {
        0int
    } else {
        1int
    }) as nat;
    let date = (year, month, day as nat);
    assert(is_date(date.0, date.1, date.2) && day_number(date.0, date.1, date.2) == days);
}

/// A number in decimal with leading zeros.
pub open spec fn padded(n: nat, width: nat) -> Seq<char> {
    zero_padded(decimal_text(n), width)
}

/// A moment, given in seconds since the start of 1970 in UTC, as
/// `YYYYMMDDTHHMMSS`.
pub open spec fn timestamp_text(secs: nat) -> Seq<char> {
    let date = date_of(secs / 86400);
    let time = secs % 86400;
    padded(date.0, 4) + padded(date.1, 2) + padded(date.2, 2) + "T"@ + padded(time / 3600, 2)
        + padded((time % 3600) / 60, 2) + padded(time % 60, 2)
}

/// Writes a moment, given in seconds since the start of 1970 in UTC, as
/// `YYYYMMDDTHHMMSS`, which is safe in a file name.
pub fn format_utc_timestamp(epoch_secs: u64) -> (r: String)
    ensures
        r@ == timestamp_text(epoch_secs as nat),
{
    let (year, month, day) = days_to_ymd(epoch_secs / 86400);
    let time: u64 = epoch_secs % 86400;
    let mut out = decimal_padded(year, 4);
    out.append(decimal_padded(month, 2).as_str());
    out.append(decimal_padded(day, 2).as_str());
    out.append("T");
    out.append(decimal_padded(time / 3600, 2).as_str());
    out.append(decimal_padded((time % 3600) / 60, 2).as_str());
    out.append(decimal_padded(time % 60, 2).as_str());
    proof {
        assert(out@ =~= timestamp_text(epoch_secs as nat));
    }
    out
}

/// A moment that may not be known, as `YYYYMMDDTHHMMSS` or `unknown`.
pub open spec fn moment_text(secs: Option<u64>) -> Seq<char> {
    match secs {
        Some(secs) => timestamp_text(secs as nat),
        None => "unknown"@,
    }
}

/// Writes a moment that may not be known, because the clock stands before 1970.
pub fn format_moment(epoch_secs: Option<u64>) -> (r: String)
    ensures
        r@ == moment_text(epoch_secs),
{
    match epoch_secs {
        Some(secs) => format_utc_timestamp(secs),
        None => "unknown".to_owned(),
    }
}

/// Every character of a text is a decimal digit.
pub open spec fn all_digits(s: Seq<char>) -> bool {
    forall|i: int| 0 <= i < s.len() ==> is_digit(#[trigger] s[i])
}

proof fn lemma_padded(n: nat, width: nat)
    requires
        (width == 2 && n < 100) || (width == 4 && n < 10000),
    ensures
        padded(n, width).len() == width,
        all_digits(padded(n, width)),
{
    lemma_decimal_reads_back(n);
    reveal_with_fuel(decimal_text, 5);
    let s = decimal_text(n);
    assert(s.len() <= width);
    let p = padded(n, width);
    assert forall|i: int| 0 <= i < p.len() implies is_digit(#[trigger] p[i]) by {
        if i >= width - s.len() {
            assert(p[i] == s[i - (width - s.len())]);
        }
    }
}

/// The years of the moments before the year 10000 have at most four digits.
proof fn lemma_four_digit_year(secs: nat)
    requires
        secs < 253_402_300_800,
    ensures
        date_of(secs / 86400).0 <= 9999,
{
    law_every_day_has_a_date(secs / 86400);
    lemma_days_before_year(10000);
    lemma_days_before_year(1970);
    lemma_days_before_month(10000, 1);
    lemma_days_before_month(1970, 1);
    assert(day_number(10000, 1, 1) == 2932897);
    law_dates_are_numbered_in_order(date_of(secs / 86400), (10000, 1, 1));
}

/// Up to the year 9999, which ends 253402300800 seconds after the start of 1970, a
/// timestamp has fifteen characters: digits, with a `T` between the date and the time.
pub proof fn law_timestamp_shape(secs: nat)
    requires
        secs < 253_402_300_800,
    ensures
        timestamp_text(secs).len() == 15,
        timestamp_text(secs)[8] == 'T',
        forall|i: int| 0 <= i < 15 && i != 8 ==> is_digit(#[trigger] timestamp_text(secs)[i]),
{
    lemma_four_digit_year(secs);
    let date = date_of(secs / 86400);
    let time = secs % 86400;
    law_every_day_has_a_date(secs / 86400);
    reveal_strlit("T");
    let a = padded(date.0, 4);
    let b = padded(date.1, 2);
    let c = padded(date.2, 2);
    let d = padded(time / 3600, 2);
    let e = padded((time % 3600) / 60, 2);
    let f = padded(time % 60, 2);
    lemma_padded(date.0, 4);
    lemma_padded(date.1, 2);
    lemma_padded(date.2, 2);
    lemma_padded(time / 3600, 2);
    lemma_padded((time % 3600) / 60, 2);
    lemma_padded(time % 60, 2);
    let t = timestamp_text(secs);
    assert(t =~= a + b + c + seq!['T'] + d + e + f);
    assert forall|i: int| 0 <= i < 15 && i != 8 implies is_digit(#[trigger] t[i]) by {
        if i < 4 {
            assert(t[i] == a[i]);
        } else if i < 6 {
            assert(t[i] == b[i - 4]);
        } else if i < 8 {
            assert(t[i] == c[i - 6]);
        } else if i < 11 {
            assert(t[i] == d[i - 9]);
        } else if i < 13 {
            assert(t[i] == e[i - 11]);
        } else {
            assert(t[i] == f[i - 13]);
        }
    }
}

/// Tells whether two texts are the same up to a place, and the first then has the smaller
/// character or no more characters at all.
pub open spec fn parts_at(a: Seq<char>, b: Seq<char>, i: int) -> bool {
    &&& 0 <= i <= a.len()
    &&& i < b.len()
    &&& forall|j: int| 0 <= j < i ==> #[trigger] a[j] == b[j]
    &&& i < a.len() ==> (a[i] as nat) < (b[i] as nat)
}

/// Tells whether one text sorts before another, character by character.
pub open spec fn sorts_before(a: Seq<char>, b: Seq<char>) -> bool {
    exists|i: int| #[trigger] parts_at(a, b, i)
}

/// The digits of a padded number.
proof fn lemma_padded_digits(n: nat, width: nat)
    requires
        (width == 2 && n < 100) || (width == 4 && n < 10000),
    ensures
        width == 2 ==> padded(n, width) == seq![digit(n / 10), digit(n % 10)],
        width == 4 ==> padded(n, width) == seq![
            digit(n / 1000),
            digit(n / 100 % 10),
            digit(n / 10 % 10),
            digit(n % 10),
        ],
{
    lemma_padded(n, width);
    reveal_with_fuel(decimal_text, 5);
    assert(digit(0) == '0');
    if n < 10 {
        assert(decimal_text(n) =~= seq![digit(n)]);
    } else if n < 100 {
        assert(decimal_text(n) =~= seq![digit(n / 10), digit(n % 10)]);
    } else if n < 1000 {
        assert(n / 10 / 10 == n / 100);
        assert(decimal_text(n) =~= seq![digit(n / 100), digit(n / 10 % 10), digit(n % 10)]);
    } else {
        assert(n / 10 / 10 == n / 100);
        assert(n / 10 / 10 / 10 == n / 1000);
        assert(decimal_text(n) =~= seq![
            digit(n / 1000),
            digit(n / 100 % 10),
            digit(n / 10 % 10),
            digit(n % 10),
        ]);
    }
    if width == 2 {
        assert(padded(n, width) =~= seq![digit(n / 10), digit(n % 10)]);
    } else {
        assert(padded(n, width) =~= seq![
            digit(n / 1000),
            digit(n / 100 % 10),
            digit(n / 10 % 10),
            digit(n % 10),
        ]);
    }
}

proof fn lemma_digits_in_order(c: nat, d: nat)
    requires
        c < d < 10,
    ensures
        (digit(c) as nat) < (digit(d) as nat),
{
}

/// A number is the sum of its digits, each at its place.
proof fn lemma_digit_places(n: nat)
    requires
        n < 10000,
    ensures
        n == 1000 * (n / 1000) + 100 * (n / 100 % 10) + 10 * (n / 10 % 10) + n % 10,
        n / 1000 < 10,
{
    assert(n == 10 * (n / 10) + n % 10);
    let tens = n / 10;
    assert(tens / 10 == n / 100);
    assert(tens == 10 * (tens / 10) + tens % 10);
    let hundreds = n / 100;
    assert(hundreds / 10 == n / 1000);
    assert(hundreds == 10 * (hundreds / 10) + hundreds % 10);
}

/// The larger of two numbers has the larger digit where they first differ.
proof fn lemma_first_difference(n: nat, m: nat)
    requires
        n < m < 10000,
    ensures
        n / 1000 < m / 1000 || (n / 1000 == m / 1000 && (n / 100 % 10 < m / 100 % 10 || (n / 100
            % 10 == m / 100 % 10 && (n / 10 % 10 < m / 10 % 10 || (n / 10 % 10 == m / 10 % 10 && n
            % 10 < m % 10))))),
{
    lemma_digit_places(n);
    lemma_digit_places(m);
    lemma_digits_compare(
        (n / 1000) as int,
        (n / 100 % 10) as int,
        (n / 10 % 10) as int,
        (n % 10) as int,
        (m / 1000) as int,
        (m / 100 % 10) as int,
        (m / 10 % 10) as int,
        (m % 10) as int,
    );
}

proof fn lemma_digits_compare(
    a: int,
    b: int,
    c: int,
    d: int,
    w: int,
    x: int,
    y: int,
    z: int,
)
    requires
        0 <= a < 10 && 0 <= b < 10 && 0 <= c < 10 && 0 <= d < 10,
        0 <= w < 10 && 0 <= x < 10 && 0 <= y < 10 && 0 <= z < 10,
        1000 * a + 100 * b + 10 * c + d < 1000 * w + 100 * x + 10 * y + z,
    ensures
        a < w || (a == w && (b < x || (b == x && (c < y || (c == y && d < z))))),
{
}

/// Padded numbers part where the larger one has the larger digit.
proof fn lemma_padded_in_order(n: nat, m: nat, width: nat) -> (i: int)
    requires
        n < m,
        (width == 2 && m < 100) || (width == 4 && m < 10000),
    ensures
        padded(n, width).len() == width,
        padded(m, width).len() == width,
        i < width,
        parts_at(padded(n, width), padded(m, width), i),
{
    lemma_padded_digits(n, width);
    lemma_padded_digits(m, width);
    if width == 2 {
        let (n0, n1) = (n / 10, n % 10);
        let (m0, m1) = (m / 10, m % 10);
        if n0 < m0 {
            lemma_digits_in_order(n0, m0);
            0
        } else {
            lemma_digits_in_order(n1, m1);
            1
        }
    } else {
        lemma_first_difference(n, m);
        let (n0, n1, n2, n3) = (n / 1000, n / 100 % 10, n / 10 % 10, n % 10);
        let (m0, m1, m2, m3) = (m / 1000, m / 100 % 10, m / 10 % 10, m % 10);
        lemma_digits_part(seq![n0, n1, n2, n3], seq![m0, m1, m2, m3])
    }
}

/// The texts of two lists of four digits part where the lists do.
proof fn lemma_digits_part(a: Seq<nat>, b: Seq<nat>) -> (i: int)
    requires
        a.len() == 4,
        b.len() == 4,
        forall|j: int| 0 <= j < 4 ==> #[trigger] a[j] < 10,
        forall|j: int| 0 <= j < 4 ==> #[trigger] b[j] < 10,
        a[0] < b[0] || (a[0] == b[0] && (a[1] < b[1] || (a[1] == b[1] && (a[2] < b[2] || (a[2]
            == b[2] && a[3] < b[3]))))),
    ensures
        i < 4,
        parts_at(
            seq![digit(a[0]), digit(a[1]), digit(a[2]), digit(a[3])],
            seq![digit(b[0]), digit(b[1]), digit(b[2]), digit(b[3])],
            i,
        ),
{
    let i = if a[0] < b[0] {
        0int
    } else if a[1] < b[1] {
        1int
    } else if a[2] < b[2] {
        2int
    } else {
        3int
    };
    lemma_digits_in_order(a[i], b[i]);
    i
}

/// Texts whose middles part do so at the same place, where they start alike.
proof fn lemma_middles_part(
    start: Seq<char>,
    a: Seq<char>,
    b: Seq<char>,
    a_rest: Seq<char>,
    b_rest: Seq<char>,
    i: int,
)
    requires
        a.len() == b.len(),
        i < a.len(),
        parts_at(a, b, i),
    ensures
        parts_at(start + a + a_rest, start + b + b_rest, start.len() + i),
{
    let x = start + a + a_rest;
    let y = start + b + b_rest;
    let n = start.len() as int;
    assert(x[n + i] == a[i]);
    assert(y[n + i] == b[i]);
    assert forall|j: int| 0 <= j < n + i implies #[trigger] x[j] == y[j] by {
        if j < n {
            assert(x[j] == start[j]);
            assert(y[j] == start[j]);
        } else {
            assert(x[j] == a[j - n]);
            assert(y[j] == b[j - n]);
        }
    }
}

proof fn lemma_starts_part(
    a: Seq<char>,
    b: Seq<char>,
    a_rest: Seq<char>,
    b_rest: Seq<char>,
    i: int,
)
    requires
        a.len() == b.len(),
        i < a.len(),
        parts_at(a, b, i),
    ensures
        parts_at(a + a_rest, b + b_rest, i),
{
    let none = Seq::<char>::empty();
    lemma_middles_part(none, a, b, a_rest, b_rest, i);
    assert(none + a + a_rest =~= a + a_rest);
    assert(none + b + b_rest =~= b + b_rest);
}

proof fn lemma_ends_part(start: Seq<char>, a: Seq<char>, b: Seq<char>, i: int)
    requires
        a.len() == b.len(),
        i < a.len(),
        parts_at(a, b, i),
    ensures
        parts_at(start + a, start + b, start.len() + i),
{
    let none = Seq::<char>::empty();
    lemma_middles_part(start, a, b, none, none, i);
    assert(start + a + none =~= start + a);
    assert(start + b + none =~= start + b);
}

/// A date as it stands in a timestamp.
spec fn date_text(date: (nat, nat, nat)) -> Seq<char> {
    padded(date.0, 4) + padded(date.1, 2) + padded(date.2, 2)
}

/// A time of day as it stands in a timestamp.
spec fn time_text(time: nat) -> Seq<char> {
    padded(time / 3600, 2) + padded((time % 3600) / 60, 2) + padded(time % 60, 2)
}

proof fn lemma_dates_in_order(a: (nat, nat, nat), b: (nat, nat, nat)) -> (i: int)
    requires
        is_date(a.0, a.1, a.2),
        is_date(b.0, b.1, b.2),
        is_before(a, b),
        b.0 <= 9999,
    ensures
        date_text(a).len() == date_text(b).len(),
        i < date_text(a).len(),
        parts_at(date_text(a), date_text(b), i),
{
    let (y1, m1, d1) = (padded(a.0, 4), padded(a.1, 2), padded(a.2, 2));
    let (y2, m2, d2) = (padded(b.0, 4), padded(b.1, 2), padded(b.2, 2));
    lemma_padded(a.0, 4);
    lemma_padded(a.1, 2);
    lemma_padded(a.2, 2);
    lemma_padded(b.0, 4);
    lemma_padded(b.1, 2);
    lemma_padded(b.2, 2);
    if a.0 < b.0 {
        let i = lemma_padded_in_order(a.0, b.0, 4);
        lemma_starts_part(y1, y2, m1 + d1, m2 + d2, i);
        assert(date_text(a) =~= y1 + (m1 + d1));
        assert(date_text(b) =~= y2 + (m2 + d2));
        i
    } else if a.1 < b.1 {
        let i = lemma_padded_in_order(a.1, b.1, 2);
        lemma_middles_part(y1, m1, m2, d1, d2, i);
        4 + i
    } else {
        let i = lemma_padded_in_order(a.2, b.2, 2);
        lemma_ends_part(y1 + m1, d1, d2, i);
        6 + i
    }
}

proof fn lemma_times_in_order(a: nat, b: nat) -> (i: int)
    requires
        a < b < 86400,
    ensures
        time_text(a).len() == time_text(b).len(),
        i < time_text(a).len(),
        parts_at(time_text(a), time_text(b), i),
{
    let (h1, m1, s1) = (padded(a / 3600, 2), padded((a % 3600) / 60, 2), padded(a % 60, 2));
    let (h2, m2, s2) = (padded(b / 3600, 2), padded((b % 3600) / 60, 2), padded(b % 60, 2));
    lemma_padded(a / 3600, 2);
    lemma_padded((a % 3600) / 60, 2);
    lemma_padded(a % 60, 2);
    lemma_padded(b / 3600, 2);
    lemma_padded((b % 3600) / 60, 2);
    lemma_padded(b % 60, 2);
    if a / 3600 < b / 3600 {
        let i = lemma_padded_in_order(a / 3600, b / 3600, 2);
        lemma_starts_part(h1, h2, m1 + s1, m2 + s2, i);
        assert(time_text(a) =~= h1 + (m1 + s1));
        assert(time_text(b) =~= h2 + (m2 + s2));
        i
    } else if (a % 3600) / 60 < (b % 3600) / 60 {
        let i = lemma_padded_in_order((a % 3600) / 60, (b % 3600) / 60, 2);
        lemma_middles_part(h1, m1, m2, s1, s2, i);
        2 + i
    } else {
        let i = lemma_padded_in_order(a % 60, b % 60, 2);
        lemma_ends_part(h1 + m1, s1, s2, i);
        4 + i
    }
}

proof fn lemma_timestamp_parts(secs: nat)
    ensures
        timestamp_text(secs) == date_text(date_of(secs / 86400)) + ("T"@ + time_text(secs % 86400)),
{
    assert(timestamp_text(secs) =~= date_text(date_of(secs / 86400)) + ("T"@ + time_text(
        secs % 86400,
    )));
}

/// Up to the year 9999, which ends 253402300800 seconds after the start of 1970, a later
/// moment has the timestamp that sorts later.
pub proof fn law_timestamps_sort_by_moment(earlier: nat, later: nat)
    requires
        earlier < later < 253_402_300_800,
    ensures
        sorts_before(timestamp_text(earlier), timestamp_text(later)),
{
    lemma_four_digit_year(later);
    let (d1, d2) = (date_of(earlier / 86400), date_of(later / 86400));
    let (t1, t2) = (time_text(earlier % 86400), time_text(later % 86400));
    law_every_day_has_a_date(earlier / 86400);
    law_every_day_has_a_date(later / 86400);
    lemma_timestamp_parts(earlier);
    lemma_timestamp_parts(later);
    if earlier / 86400 < later / 86400 {
        law_dates_are_numbered_in_order(d1, d2);
        let i = lemma_dates_in_order(d1, d2);
        lemma_starts_part(date_text(d1), date_text(d2), "T"@ + t1, "T"@ + t2, i);
    } else {
        assert(earlier % 86400 < later % 86400);
        let i = lemma_times_in_order(earlier % 86400, later % 86400);
        lemma_ends_part(date_text(d1) + "T"@, t1, t2, i);
        assert(date_text(d1) + ("T"@ + t1) =~= date_text(d1) + "T"@ + t1);
        assert(date_text(d1) + ("T"@ + t2) =~= date_text(d1) + "T"@ + t2);
    }
}

/// The days are numbered one after the other from the first of January 1970: within a
/// month, from the last day of a month to the next month, and from the last day of a year
/// to the next year. A month has 31 days, but for four that have 30 and February, which
/// has 28 and in a leap year 29.
pub proof fn law_days_follow_each_other(year: nat, month: nat, day: nat)
    requires
        1 <= month <= 12,
        day >= 1,
    ensures
        day_number(1970, 1, 1) == 0,
        day_number(year, month, day + 1) == day_number(year, month, day) + 1,
        ({
            let last: nat = if month == 2 {
                if (year % 4 == 0 && year % 100 != 0) || year % 400 == 0 {
                    29
                } else {
                    28
                }
            } else if month == 4 || month == 6 || month == 9 || month == 11 {
                30
            } else {
                31
            };
            &&& is_date(year, month, day) <==> day <= last
            &&& month < 12 ==> day_number(year, month + 1, 1) == day_number(year, month, last) + 1
            &&& month == 12 ==> day_number(year + 1, 1, 1) == day_number(year, month, last) + 1
        }),
{
    lemma_next_year(year);
    lemma_days_before_month(year, 12);
    reveal_with_fuel(days_before_month, 13);
}

/// A timestamp reads back as the moment that it was made from: its date is the day that
/// the moment falls on, and its time is what has passed of that day, in hours, minutes
/// and seconds. All of it is in UTC, so that no zone moves it.
pub proof fn law_timestamp_reads_back(secs: u64, r: String)
    requires
        call_ensures(format_utc_timestamp, (secs,), r),
    ensures
        exists|date: (nat, nat, nat), time: (nat, nat, nat)|
            {
                &&& is_date(date.0, date.1, date.2)
                &&& time.0 < 24 && time.1 < 60 && time.2 < 60
                &&& day_number(date.0, date.1, date.2) * 86400 + time.0 * 3600 + time.1 * 60
                    + time.2 == secs
                &&& r@ == #[trigger] stamp(date, time)
            },
{
    let all = secs as nat;
    law_every_day_has_a_date(all / 86400);
    let date = date_of(all / 86400);
    let day = all % 86400;
    let time = (day / 3600, (day % 3600) / 60, day % 60);
    assert(r@ =~= stamp(date, time));
}

/// A date and a time of day as `YYYYMMDDTHHMMSS`.
pub open spec fn stamp(date: (nat, nat, nat), time: (nat, nat, nat)) -> Seq<char> {
    zero_padded(decimal_text(date.0), 4) + zero_padded(decimal_text(date.1), 2) + zero_padded(
        decimal_text(date.2),
        2,
    ) + "T"@ + zero_padded(decimal_text(time.0), 2) + zero_padded(decimal_text(time.1), 2)
        + zero_padded(decimal_text(time.2), 2)
}

/// A moment that is known is written as its timestamp, and one that is not as `unknown`.
pub proof fn law_moment_is_a_timestamp(secs: u64)
    ensures
        forall|a: String, b: String|
            #![trigger call_ensures(format_moment, (Some(secs),), a), call_ensures(
                format_utc_timestamp,
                (secs,),
                b,
            )]
            call_ensures(format_moment, (Some(secs),), a) && call_ensures(
                format_utc_timestamp,
                (secs,),
                b,
            ) ==> a@ == b@,
        forall|a: String| #[trigger] call_ensures(format_moment, (None::<u64>,), a) ==> a@
            == "unknown"@,
{
}

} // verus!
