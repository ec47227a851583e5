//! The proleptic Gregorian calendar in UTC, and the breakdown of epoch seconds
//! into calendar fields.

use vstd::prelude::*;

verus! {

/// A calendar date.
pub struct Civil {
    pub year: int,
    pub month: int,
    pub day: int,
}

/// A leap year of the Gregorian calendar.
pub open spec fn leap(year: int) -> bool {
    year % 4 == 0 && (year % 100 != 0 || year % 400 == 0)
}

/// The number of days of a month.
pub open spec fn month_len(year: int, month: int) -> int {
    if month == 2 {
        if leap(year) { 29 } else { 28 }
    } else if month == 4 || month == 6 || month == 9 || month == 11 {
        30
    } else {
        31
    }
}

/// The number of days of a year.
pub open spec fn year_len(year: int) -> int {
    if leap(year) { 366 } else { 365 }
}

/// A date that exists.
pub open spec fn valid_date(c: Civil) -> bool {
    &&& 1 <= c.month <= 12
    &&& 1 <= c.day <= month_len(c.year, c.month)
}

/// The days of `year` before the first of `month`.
pub open spec fn days_before_month(year: int, month: int) -> int
    decreases month,
{
    if month <= 1 {
        0
    } else {
        days_before_month(year, month - 1) + month_len(year, month - 1)
    }
}

/// The days from the first of January of the year 1 to that of `year`.
pub open spec fn days_before_year(year: int) -> int {
    let y = year - 1;
    365 * y + y / 4 - y / 100 + y / 400
}

/// The days from 1970-01-01 to a date.
pub open spec fn day_number(c: Civil) -> int {
    days_before_year(c.year) + days_before_month(c.year, c.month) + c.day - 1
        - days_before_year(1970)
}

/// The date that lies `days` days after 1970-01-01.
pub open spec fn civil_of(days: int) -> Civil {
    choose|c: Civil| valid_date(c) && #[trigger] day_number(c) == days
}

/// The weekday `days` days after 1970-01-01, a Thursday. 0 is Sunday.
pub open spec fn weekday_of(days: int) -> int {
    (days + 4) % 7
}

/// The days before each month, written out.
proof fn lemma_months(year: int)
    ensures
        ({
            let l: int = if leap(year) { 1 } else { 0 };
            &&& days_before_month(year, 1) == 0
            &&& days_before_month(year, 2) == 31
            &&& days_before_month(year, 3) == 59 + l
            &&& days_before_month(year, 4) == 90 + l
            &&& days_before_month(year, 5) == 120 + l
            &&& days_before_month(year, 6) == 151 + l
            &&& days_before_month(year, 7) == 181 + l
            &&& days_before_month(year, 8) == 212 + l
            &&& days_before_month(year, 9) == 243 + l
            &&& days_before_month(year, 10) == 273 + l
            &&& days_before_month(year, 11) == 304 + l
            &&& days_before_month(year, 12) == 334 + l
        }),
{
    reveal_with_fuel(days_before_month, 13);
}

/// A year is as long as the step between two first days of January.
pub proof fn lemma_year_step(year: int)
    ensures
        days_before_year(year + 1) == days_before_year(year) + year_len(year),
{
}

proof fn lemma_years_grow(a: int, b: int)
    requires
        a < b,
    ensures
        days_before_year(a) + year_len(a) <= days_before_year(b),
    decreases b - a,
{
    lemma_year_step(a);
    if a + 1 < b {
        lemma_years_grow(a + 1, b);
    }
}

proof fn lemma_ordinal(c: Civil)
    requires
        valid_date(c),
    ensures
        0 <= days_before_month(c.year, c.month) + c.day - 1 < year_len(c.year),
{
    lemma_months(c.year);
}

/// Two dates with one day number are the same date.
pub proof fn lemma_day_number_injective(a: Civil, b: Civil)
    requires
        valid_date(a),
        valid_date(b),
        day_number(a) == day_number(b),
    ensures
        a == b,
{
    lemma_ordinal(a);
    lemma_ordinal(b);
    if a.year < b.year {
        lemma_years_grow(a.year, b.year);
    } else if b.year < a.year {
        lemma_years_grow(b.year, a.year);
    }
    lemma_months(a.year);
}

/// `a / b` rounded down.
pub fn floor_div(a: i64, b: i64) -> (r: i64)
    requires
        b > 0,
    ensures
        r == a as int / b as int,
{
    if a >= 0 {
        a / b
    } else {
        let c: i64 = -(a + 1);
        let q: i64 = c / b;
        let ghost m = c as int % b as int;
        proof {
            assert(c as int == b * q + m) by {
                vstd::arithmetic::div_mod::lemma_fundamental_div_mod(c as int, b as int);
            }
            assert(a as int == b * (-q - 1) + (b - 1 - m)) by (nonlinear_arith)
                requires
                    c as int == b * q + m,
                    c == -(a + 1),
            ;
            assert(0 <= m < b);
            vstd::arithmetic::div_mod::lemma_fundamental_div_mod_converse(
                a as int,
                b as int,
                -q - 1,
                b - 1 - m,
            );
            assert(0 <= q <= c) by (nonlinear_arith)
                requires
                    q == c as int / b as int,
                    c >= 0,
                    b > 0,
            ;
        }
        -q - 1
    }
}

/// The remainder of `a` by `b` that is not negative.
pub fn floor_rem(a: i64, b: i64) -> (r: i64)
    requires
        b > 0,
    ensures
        r == a as int % b as int,
{
    if a >= 0 {
        a % b
    } else {
        let c: i64 = -(a + 1);
        let m: i64 = c % b;
        proof {
            let q = c as int / b as int;
            vstd::arithmetic::div_mod::lemma_fundamental_div_mod(c as int, b as int);
            assert(a as int == (-q - 1) * b + (b - 1 - m)) by (nonlinear_arith)
                requires
                    c as int == b * q + m,
                    c == -(a + 1),
            ;
            vstd::arithmetic::div_mod::lemma_fundamental_div_mod_converse(
                a as int,
                b as int,
                -q - 1,
                b - 1 - m,
            );
        }
        b - 1 - m
    }
}

/// Within an era of 400 years that starts on a first of March, the day `doe`
/// lies in the year `yoe` that the quotient gives.
proof fn lemma_year_of_era(doe: int, yoe: int)
    requires
        0 <= doe <= 146_096,
        yoe == (doe - doe / 1460 + doe / 36_524 - doe / 146_096) / 365,
    ensures
        0 <= yoe <= 399,
        365 * yoe + yoe / 4 - yoe / 100 <= doe,
        yoe < 399 ==> doe < 365 * (yoe + 1) + (yoe + 1) / 4 - (yoe + 1) / 100,
{
    let q2 = doe / 36_524;
    let b = yoe / 100;
    assert(0 <= q2 <= 4);
    assert(0 <= doe / 146_096 <= 1);
    assert(0 <= yoe <= 399);
    assert(0 <= b <= 3);
}

/// The first of January after the year `yoe` of an era of 400 years.
proof fn lemma_era(era: int, yoe: int)
    requires
        0 <= yoe <= 399,
    ensures
        days_before_year(yoe + era * 400 + 1) == 365 * yoe + yoe / 4 - yoe / 100 + 146_097 * era,
{
    let y = yoe + era * 400;
    assert(y / 4 == yoe / 4 + 100 * era);
    assert(y / 100 == yoe / 100 + 4 * era);
    assert(y / 400 == era);
}

/// The month and the day of the month of the day `doy` of a year that starts
/// on the first of March of `y`.
proof fn lemma_month_of_year(y: int, doy: int, mp: int, c: Civil)
    requires
        0 <= doy <= 365,
        doy == 365 ==> leap(y + 1),
        mp == (5 * doy + 2) / 153,
        c.day == doy - (153 * mp + 2) / 5 + 1,
        c.month == (if mp < 10 { mp + 3 } else { mp - 9 }),
        c.year == (if c.month <= 2 { y + 1 } else { y }),
    ensures
        valid_date(c),
        day_number(c) == days_before_year(y + 1) - 306 + doy - days_before_year(1970),
{
    lemma_months(y);
    lemma_months(y + 1);
    lemma_year_step(y);
    assert(0 <= mp <= 11);
    let e = days_before_year(y + 1);
    let e0 = days_before_year(y);
    assert(e == e0 + year_len(y));
    if mp == 0 {
    } else if mp == 1 {
    } else if mp == 2 {
    } else if mp == 3 {
    } else if mp == 4 {
    } else if mp == 5 {
    } else if mp == 6 {
    } else if mp == 7 {
    } else if mp == 8 {
    } else if mp == 9 {
    } else if mp == 10 {
    } else {
        assert(mp == 11);
    }
}

/// Leap years repeat every 400 years.
pub proof fn lemma_leap_period(era: int, year: int)
    ensures
        leap(year + era * 400) == leap(year),
{
    let full = year + era * 400;
    assert(full % 4 == year % 4);
    assert(full % 100 == year % 100);
    assert(full % 400 == year % 400);
}

/// When a quotient by 4 or by 100 grows from one year to the next.
proof fn lemma_carries(year: int)
    ensures
        (year + 1) / 4 - year / 4 == (if (year + 1) % 4 == 0 { 1int } else { 0 }),
        (year + 1) / 100 - year / 100 == (if (year + 1) % 100 == 0 { 1int } else { 0 }),
{
}

/// The last day of a year that starts in March is the leap day of the next.
proof fn lemma_leap_day(era: int, yoe: int, doe: int)
    requires
        0 <= yoe <= 399,
        0 <= doe <= 146_096,
        doe - (365 * yoe + yoe / 4 - yoe / 100) >= 365,
        yoe < 399 ==> doe < 365 * (yoe + 1) + (yoe + 1) / 4 - (yoe + 1) / 100,
    ensures
        leap(yoe + era * 400 + 1),
{
    let y = yoe + 1;
    lemma_leap_period(era, y);
    lemma_carries(yoe);
    if yoe == 399 {
        assert(leap(400));
    }
}

/// The date that lies `days` days after 1970-01-01, as year, month and day.
/// The era, the year of the era, the day of the year and the month are counted
/// from the first of March, so that a leap day comes last.
pub fn civil_from_days(days: i64) -> (r: (i64, u8, u8))
    requires
        -200_000_000_000_000 <= days <= 200_000_000_000_000,
    ensures
        valid_date(Civil { year: r.0 as int, month: r.1 as int, day: r.2 as int }),
        day_number(Civil { year: r.0 as int, month: r.1 as int, day: r.2 as int }) == days,
        civil_of(days as int) == (Civil { year: r.0 as int, month: r.1 as int, day: r.2 as int }),
{
    let z: i64 = days + 719_468;
    let era: i64 = floor_div(z, 146_097);
    let doe: i64 = z - era * 146_097;
    assert(0 <= doe <= 146_096);
    let yoe: i64 = (doe - doe / 1460 + doe / 36_524 - doe / 146_096) / 365;
    proof {
        lemma_year_of_era(doe as int, yoe as int);
    }
    let y: i64 = yoe + era * 400;
    let doy: i64 = doe - (365 * yoe + yoe / 4 - yoe / 100);
    assert(0 <= doy <= 365);
    let mp: i64 = (5 * doy + 2) / 153;
    assert(0 <= mp <= 11);
    let d: i64 = doy - (153 * mp + 2) / 5 + 1;
    let m: i64 = if mp < 10 {
        mp + 3
    } else {
        mp - 9
    };
    let year: i64 = if m <= 2 {
        y + 1
    } else {
        y
    };
    proof {
        let c = Civil { year: year as int, month: m as int, day: d as int };
        if doy == 365 {
            lemma_leap_day(era as int, yoe as int, doe as int);
        }
        lemma_month_of_year(y as int, doy as int, mp as int, c);
        lemma_era(era as int, yoe as int);
        assert(days_before_year(1970) == 719_162);
        assert(day_number(c) == days);
        lemma_day_number_injective(c, civil_of(days as int));
    }
    (year, m as u8, d as u8)
}

// ---- laws --------------------------------------------------------------------------

/// Days are counted from the first of January 1970, and each date is one day after the one
/// before it: within a month, from its last day to the first of the next, and from the last of
/// December to the first of January. A date has one number and a number one date.
pub proof fn dates_follow_one_another(c: Civil)
    requires
        1 <= c.month <= 12,
        1 <= c.day,
        c.day <= (if c.month == 2 {
            if c.year % 4 == 0 && (c.year % 100 != 0 || c.year % 400 == 0) {
                29int
            } else {
                28
            }
        } else if c.month == 4 || c.month == 6 || c.month == 9 || c.month == 11 {
            30
        } else {
            31
        }),
    ensures
        valid_date(c),
        civil_of(day_number(c)) == c,
        day_number(Civil { year: 1970, month: 1, day: 1 }) == 0,
        c.day < month_len(c.year, c.month) ==> day_number(Civil { day: c.day + 1, ..c })
            == day_number(c) + 1,
        c.day == month_len(c.year, c.month) && c.month < 12 ==> day_number(
            (Civil { year: c.year, month: c.month + 1, day: 1 }),
        ) == day_number(c) + 1,
        c.day == 31 && c.month == 12 ==> day_number(
            (Civil { year: c.year + 1, month: 1, day: 1 }),
        ) == day_number(c) + 1,
        month_len(c.year, 12) == 31,
{
    lemma_months(c.year);
    lemma_months(c.year + 1);
    lemma_months(1970);
    lemma_year_step(c.year);
    assert(valid_date(c) && day_number(c) == day_number(c));
    lemma_day_number_injective(civil_of(day_number(c)), c);
}

/// Every day has a date.
pub proof fn days_have_dates(days: int)
    ensures
        valid_date(civil_of(days)),
        day_number(civil_of(days)) == days,
{
    let z = days + 719_468;
    let era = z / 146_097;
    let doe = z % 146_097;
    let yoe = (doe - doe / 1460 + doe / 36_524 - doe / 146_096) / 365;
    lemma_year_of_era(doe, yoe);
    let y = yoe + era * 400;
    let doy = doe - (365 * yoe + yoe / 4 - yoe / 100);
    let mp = (5 * doy + 2) / 153;
    let month = if mp < 10 {
        mp + 3
    } else {
        mp - 9
    };
    let c = Civil {
        year: if month <= 2 {
            y + 1
        } else {
            y
        },
        month,
        day: doy - (153 * mp + 2) / 5 + 1,
    };
    if doy == 365 {
        lemma_leap_day(era, yoe, doe);
    }
    lemma_month_of_year(y, doy, mp, c);
    lemma_era(era, yoe);
    assert(days_before_year(1970) == 719_162);
    assert(valid_date(c) && day_number(c) == days);
}

} // verus!
