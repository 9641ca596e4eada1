//! The proleptic Gregorian calendar, and the conversion from a count of days since
//! 1970-01-01 to a civil date.

use vstd::prelude::*;
use vstd::arithmetic::div_mod::lemma_fundamental_div_mod_converse;

verus! {

/// Whether `y` is a leap year.
pub open spec fn is_leap(y: int) -> bool {
    y % 4 == 0 && (y % 100 != 0 || y % 400 == 0)
}

/// How many days month `m` of year `y` has.
pub open spec fn days_in_month(y: int, m: int) -> int {
    if m == 2 {
        if is_leap(y) {
            29
        } else {
            28
        }
    } else if m == 4 || m == 6 || m == 9 || m == 11 {
        30
    } else {
        31
    }
}

/// How many leap years there are from year 1 to year `y - 1`, counted so that the
/// difference between two years is right for any two years.
pub open spec fn leaps_before(y: int) -> int {
    (y - 1) / 4 - (y - 1) / 100 + (y - 1) / 400
}

/// Days from 1970-01-01 to the first of January of year `y`.
pub open spec fn days_before_year(y: int) -> int {
    365 * (y - 1970) + leaps_before(y) - leaps_before(1970)
}

/// Days from the first of January of year `y` to the first of month `m`.
pub open spec fn days_before_month(y: int, m: int) -> int {
    let common: int = if m == 1 {
        0
    } else if m == 2 {
        31
    } else if m == 3 {
        59
    } else if m == 4 {
        90
    } else if m == 5 {
        120
    } else if m == 6 {
        151
    } else if m == 7 {
        181
    } else if m == 8 {
        212
    } else if m == 9 {
        243
    } else if m == 10 {
        273
    } else if m == 11 {
        304
    } else {
        334
    };
    if m > 2 && is_leap(y) {
        common + 1
    } else {
        common
    }
}

/// Whether `(y, m, d)` names a day of the calendar.
pub open spec fn is_date(y: int, m: int, d: int) -> bool {
    1 <= m <= 12 && 1 <= d <= days_in_month(y, m)
}

/// Days from 1970-01-01 to the date `y-m-d`.
pub open spec fn days_since_epoch(y: int, m: int, d: int) -> int {
    days_before_year(y) + days_before_month(y, m) + d - 1
}

/// Days from the start of a 400-year era (the first of March of its year 0) to the first of
/// March of its year `k`.
pub open spec fn era_year_start(k: int) -> int {
    365 * k + k / 4 - k / 100
}

/// Whether the year that starts on the first of March of year `k` of an era holds a 29th of
/// February.
pub open spec fn era_year_has_leap_day(k: int) -> bool {
    (k + 1) % 4 == 0 && ((k + 1) % 100 != 0 || (k + 1) % 400 == 0)
}

/// The year of an era that day `doe` of the era falls in, as the civil algorithm computes it,
/// is the one whose span holds that day.
#[verifier::spinoff_prover]
proof fn lemma_year_of_era(doe: int)
    requires
        0 <= doe <= 146096,
    ensures
        ({
            let yoe = (doe - doe / 1460 + doe / 36524 - doe / 146096) / 365;
            &&& 0 <= yoe <= 399
            &&& era_year_start(yoe) <= doe
            &&& doe < era_year_start(yoe) + 365 + (if era_year_has_leap_day(yoe) {
                1int
            } else {
                0
            })
        }),
{
}

/// The month (counted from March, so 0 is March and 11 is February) and the day of the month
/// for day `doy` of a year that starts on the first of March.
proof fn lemma_month_of_year(doy: int)
    requires
        0 <= doy <= 365,
    ensures
        ({
            let mp = (5 * doy + 2) / 153;
            let d = doy - (153 * mp + 2) / 5 + 1;
            &&& 0 <= mp <= 11
            &&& 1 <= d
            &&& mp < 11 ==> d <= (153 * (mp + 1) + 2) / 5 - (153 * mp + 2) / 5
            &&& mp == 11 ==> d == doy - 336
        }),
{
}

/// The year count of the calendar agrees with the era count: the first of March of year
/// `k` of era `era` is `era * 146097 + era_year_start(k)` days after the first of March of
/// year 0, which is 719468 days before 1970-01-01.
#[verifier::spinoff_prover]
proof fn lemma_era_years(era: int, k: int)
    requires
        0 <= k <= 399,
    ensures
        days_before_year(era * 400 + k) + 59 + (if is_leap(era * 400 + k) {
            1int
        } else {
            0
        }) == era * 146097 + era_year_start(k) - 719468,
{
    let y = era * 400 + k;
    lemma_fundamental_div_mod_converse(y - 1, 4, era * 100 + (k - 1) / 4, (k - 1) % 4);
    lemma_fundamental_div_mod_converse(y - 1, 100, era * 4 + (k - 1) / 100, (k - 1) % 100);
    lemma_fundamental_div_mod_converse(y - 1, 400, era + (k - 1) / 400, (k - 1) % 400);
    lemma_fundamental_div_mod_converse(y, 4, era * 100 + k / 4, k % 4);
    lemma_fundamental_div_mod_converse(y, 100, era * 4 + k / 100, k % 100);
    lemma_fundamental_div_mod_converse(y, 400, era, k);
}

/// Day `doy` of March-based year `big_y`, when it falls in March to December, is day
/// `days_before_year(big_y) + 59 + leap + doy` after the epoch, and a date.
proof fn lemma_march_to_december(big_y: int, doy: int)
    requires
        0 <= doy <= 365,
        (5 * doy + 2) / 153 < 10,
    ensures
        ({
            let mp = (5 * doy + 2) / 153;
            let d = doy - (153 * mp + 2) / 5 + 1;
            &&& is_date(big_y, mp + 3, d)
            &&& days_since_epoch(big_y, mp + 3, d) == days_before_year(big_y) + 59 + (if is_leap(
                big_y,
            ) {
                1int
            } else {
                0
            }) + doy
        }),
{
    lemma_month_of_year(doy);
}

/// Day `doy` of March-based year `big_y`, when it falls in January or February, belongs to
/// the civil year `big_y + 1`.
proof fn lemma_january_and_february(big_y: int, doy: int)
    requires
        0 <= doy <= 365,
        (5 * doy + 2) / 153 >= 10,
        doy == 365 ==> is_leap(big_y + 1),
        days_before_year(big_y + 1) == days_before_year(big_y) + 365 + (if is_leap(big_y) {
            1int
        } else {
            0
        }),
    ensures
        ({
            let mp = (5 * doy + 2) / 153;
            let d = doy - (153 * mp + 2) / 5 + 1;
            &&& is_date(big_y + 1, mp - 9, d)
            &&& days_since_epoch(big_y + 1, mp - 9, d) == days_before_year(big_y) + 59 + (
            if is_leap(big_y) {
                1int
            } else {
                0
            }) + doy
        }),
{
    lemma_month_of_year(doy);
}

/// Consecutive years differ by the length of the first of them.
proof fn lemma_next_year(y: int)
    ensures
        days_before_year(y + 1) == days_before_year(y) + 365 + (if is_leap(y) {
            1int
        } else {
            0
        }),
{
    assert(y % 4 == 0 ==> y / 4 == (y - 1) / 4 + 1);
    assert(y % 4 != 0 ==> y / 4 == (y - 1) / 4);
    assert(y % 100 == 0 ==> y / 100 == (y - 1) / 100 + 1);
    assert(y % 100 != 0 ==> y / 100 == (y - 1) / 100);
    assert(y % 400 == 0 ==> y / 400 == (y - 1) / 400 + 1);
    assert(y % 400 != 0 ==> y / 400 == (y - 1) / 400);
}

/// The civil date of day `z - 719468` since 1970-01-01, computed as `civil_from_days` does,
/// is a date and is that many days after the epoch, before the epoch as well as after it.
#[verifier::spinoff_prover]
#[verifier::rlimit(40)]
proof fn lemma_civil(z: int)
    ensures
        ({
            let era = z / 146097;
            let doe = z - era * 146097;
            let yoe = (doe - doe / 1460 + doe / 36524 - doe / 146096) / 365;
            let doy = doe - (365 * yoe + yoe / 4 - yoe / 100);
            let mp = (5 * doy + 2) / 153;
            let d = doy - (153 * mp + 2) / 5 + 1;
            let m = if mp < 10 {
                mp + 3
            } else {
                mp - 9
            };
            let y = if m <= 2 {
                yoe + era * 400 + 1
            } else {
                yoe + era * 400
            };
            &&& 0 <= yoe <= 399
            &&& 0 <= doy <= 365
            &&& is_date(y, m, d)
            &&& days_since_epoch(y, m, d) == z - 719468
        }),
{
    let era = z / 146097;
    let doe = z - era * 146097;
    assert(0 <= doe < 146097);
    lemma_year_of_era(doe);
    let yoe = (doe - doe / 1460 + doe / 36524 - doe / 146096) / 365;
    let doy = doe - (365 * yoe + yoe / 4 - yoe / 100);
    assert(0 <= doy <= 365);
    lemma_era_years(era, yoe);
    let big_y = yoe + era * 400;
    assert(era * 400 + yoe == big_y);
    let mp = (5 * doy + 2) / 153;
    if mp < 10 {
        lemma_march_to_december(big_y, doy);
    } else {
        assert(era_year_has_leap_day(yoe) == is_leap(big_y + 1)) by {
            assert((big_y + 1) % 4 == (yoe + 1) % 4);
            assert((big_y + 1) % 100 == (yoe + 1) % 100);
            assert((big_y + 1) % 400 == (yoe + 1) % 400);
        }
        lemma_next_year(big_y);
        lemma_january_and_february(big_y, doy);
    }
}

/// Later years start later: year `b` starts at least `365 * (b - a)` days after year `a`.
proof fn lemma_years_increase(a: int, b: int)
    requires
        a <= b,
    ensures
        days_before_year(a) + 365 * (b - a) <= days_before_year(b),
    decreases b - a,
{
    if a < b {
        lemma_years_increase(a, b - 1);
        lemma_next_year(b - 1);
    }
}

/// A date falls inside its own year.
proof fn lemma_date_in_year(y: int, m: int, d: int)
    requires
        is_date(y, m, d),
    ensures
        days_before_year(y) <= days_since_epoch(y, m, d) < days_before_year(y + 1),
{
    lemma_next_year(y);
}

/// Within one year, a later month or a later day of the same month is a later day count.
proof fn lemma_dates_in_a_year_differ(y: int, m1: int, d1: int, m2: int, d2: int)
    requires
        is_date(y, m1, d1),
        is_date(y, m2, d2),
        (m1, d1) != (m2, d2),
    ensures
        days_since_epoch(y, m1, d1) != days_since_epoch(y, m2, d2),
{
}

/// Each count of days since the epoch names exactly one date.
pub proof fn lemma_one_date_per_day(y1: int, m1: int, d1: int, y2: int, m2: int, d2: int)
    requires
        is_date(y1, m1, d1),
        is_date(y2, m2, d2),
        days_since_epoch(y1, m1, d1) == days_since_epoch(y2, m2, d2),
    ensures
        y1 == y2 && m1 == m2 && d1 == d2,
{
    lemma_date_in_year(y1, m1, d1);
    lemma_date_in_year(y2, m2, d2);
    if y1 < y2 {
        lemma_years_increase(y1 + 1, y2);
    } else if y2 < y1 {
        lemma_years_increase(y2 + 1, y1);
    } else if (m1, d1) != (m2, d2) {
        lemma_dates_in_a_year_differ(y1, m1, d1, m2, d2);
    }
}

/// The date `days` days after 1970-01-01, as `(year, month, day)`.
pub open spec fn civil_date(days: int) -> (int, int, int) {
    choose|t: (int, int, int)| is_date(t.0, t.1, t.2) && days_since_epoch(t.0, t.1, t.2) == days
}

/// The civil date `days` days after 1970-01-01, as `(year, month, day)`.
///
/// Howard Hinnant's era-based `civil_from_days`: the days are counted in 400-year eras that
/// start on the first of March, so that the leap day falls at the end of each year.
pub fn civil_from_days(days: i64) -> (r: (i64, i64, i64))
    requires
        days <= i64::MAX - 719_468,
    ensures
        is_date(r.0 as int, r.1 as int, r.2 as int),
        days_since_epoch(r.0 as int, r.1 as int, r.2 as int) == days,
        (r.0 as int, r.1 as int, r.2 as int) == civil_date(days as int),
        days >= 0 ==> r.0 >= 1970,
{
    let z = days + 719_468;
    // Rounds the era down for days before the start of era 0 as well.
    let era = if z >= 0 {
        z
    } else {
        z - 146_096
    } / 146_097;
    assert(era as int == (z as int) / 146097);
    let day_of_era = z - era * 146_097;
    let year_of_era = (day_of_era - day_of_era / 1460 + day_of_era / 36_524 - day_of_era
        / 146_096) / 365;
    proof {
        lemma_civil(z as int);
    }
    let year = year_of_era + era * 400;
    let day_of_year = day_of_era - (365 * year_of_era + year_of_era / 4 - year_of_era / 100);
    let month_position = (5 * day_of_year + 2) / 153;
    let day = day_of_year - (153 * month_position + 2) / 5 + 1;
    let month = if month_position < 10 {
        month_position + 3
    } else {
        month_position - 9
    };
    let civil_year = if month <= 2 {
        year + 1
    } else {
        year
    };
    proof {
        let t = (civil_year as int, month as int, day as int);
        let c = civil_date(days as int);
        assert(is_date(t.0, t.1, t.2) && days_since_epoch(t.0, t.1, t.2) == days);
        lemma_one_date_per_day(t.0, t.1, t.2, c.0, c.1, c.2);
        if days >= 0 && civil_year < 1970 {
            lemma_date_in_year(t.0, t.1, t.2);
            lemma_years_increase(t.0 + 1, 1970);
        }
    }
    (civil_year, month, day)
}

} // verus!
