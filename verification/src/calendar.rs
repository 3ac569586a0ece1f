//! Month-calendar arithmetic and layout.
//!
//! The month length follows the Gregorian leap rule; the weekday of a
//! month's first day follows Zeller's congruence for the proleptic
//! Gregorian calendar, renumbered so that 0 is Sunday; and the month
//! grid places the day numbers into seven-column weeks, blanks before
//! the first day and after the last.

use vstd::prelude::*;

use vstd::arithmetic::div_mod::lemma_hoist_over_denominator;
use vstd::arithmetic::div_mod::lemma_mod_multiples_vanish;

verus! {

/// The Gregorian leap-year rule.
pub open spec fn is_leap_year(y: int) -> bool {
    y % 4 == 0 && (y % 100 != 0 || y % 400 == 0)
}

/// The leap rule repeats every 400 years.
proof fn lemma_leap_period(y: int, k: int)
    ensures
        is_leap_year(y + 400 * k) == is_leap_year(y),
{
    lemma_mod_multiples_vanish(100 * k, y, 4);
    lemma_mod_multiples_vanish(4 * k, y, 100);
    lemma_mod_multiples_vanish(k, y, 400);
    assert(4 * (100 * k) + y == y + 400 * k);
    assert(100 * (4 * k) + y == y + 400 * k);
    assert(400 * k + y == y + 400 * k);
}

/// `year` moved `k` whole Gregorian cycles of 400 years.
pub open spec fn cycle_shift(year: int, k: int) -> int {
    year + 400 * k
}

/// A year in the same place of the 400-year Gregorian cycle as
/// `year`, but at least 1, so that machine arithmetic on it stays in
/// the nonnegative range.
fn cycle_year(year: i32) -> (y: i64)
    ensures
        1 <= y <= i32::MAX,
        exists|k: int| y as int == #[trigger] cycle_shift(year as int, k),
{
    if year >= 1 {
        let y = year as i64;
        proof {
            assert(y as int == cycle_shift(year as int, 0));
        }
        y
    } else {
        let n: u64 = (-(year as i64)) as u64;
        let q: u64 = n / 400;
        let y: i64 = year as i64 + 400 * (q as i64 + 1);
        proof {
            assert(y as int == cycle_shift(year as int, q as int + 1));
        }
        y
    }
}

/// How many days month `m` of year `y` has.
pub open spec fn spec_days_in_month(y: int, m: int) -> int {
    if m == 2 {
        if is_leap_year(y) {
            29
        } else {
            28
        }
    } else if m == 4 || m == 6 || m == 9 || m == 11 {
        30
    } else {
        31
    }
}

/// The number of days in the given month, for any year of the
/// proleptic Gregorian calendar.
pub fn days_in_month(year: i32, month: u32) -> (r: u32)
    requires
        1 <= month <= 12,
    ensures
        r == spec_days_in_month(year as int, month as int),
{
    let y = cycle_year(year);
    let yu = y as u64;
    let leap = yu % 4 == 0 && (yu % 100 != 0 || yu % 400 == 0);
    proof {
        let k = choose|k: int| y as int == #[trigger] cycle_shift(year as int, k);
        lemma_leap_period(year as int, k);
        assert(leap == is_leap_year(year as int));
    }
    if month == 2 {
        if leap {
            29
        } else {
            28
        }
    } else if month == 4 || month == 6 || month == 9 || month == 11 {
        30
    } else {
        31
    }
}

/// Zeller's congruence for the first of month `m`, year `y`, with the
/// result renumbered so that 0 is Sunday and 6 is Saturday.
pub open spec fn spec_first_weekday(y: int, m: int) -> int {
    let mm = if m <= 2 {
        m + 12
    } else {
        m
    };
    let yy = if m <= 2 {
        y - 1
    } else {
        y
    };
    let k = yy % 100;
    let j = yy / 100;
    let h = (1 + (13 * (mm + 1)) / 5 + k + k / 4 + j / 4 + 5 * j) % 7;
    (h + 6) % 7
}

/// The congruence repeats every 400 years: the cycle shifts the
/// century terms by a multiple of seven days.
proof fn lemma_weekday_period(y: int, m: int, k: int)
    requires
        1 <= m <= 12,
    ensures
        spec_first_weekday(y + 400 * k, m) == spec_first_weekday(y, m),
{
    let mm = if m <= 2 {
        m + 12
    } else {
        m
    };
    let yy = if m <= 2 {
        y - 1
    } else {
        y
    };
    let yy2 = yy + 400 * k;
    assert(if m <= 2 {
        (y + 400 * k) - 1
    } else {
        y + 400 * k
    } == yy2);
    lemma_mod_multiples_vanish(4 * k, yy, 100);
    assert(100 * (4 * k) + yy == yy2);
    assert(yy2 % 100 == yy % 100);
    lemma_hoist_over_denominator(yy, 4 * k, 100);
    assert(yy + (4 * k) * 100 == yy2);
    assert(yy2 / 100 == yy / 100 + 4 * k);
    let kk = yy % 100;
    let j1 = yy / 100;
    let j2 = yy2 / 100;
    lemma_hoist_over_denominator(j1, k, 4);
    assert(j1 + k * 4 == j1 + 4 * k);
    assert(j2 / 4 == j1 / 4 + k);
    let s1 = 1 + (13 * (mm + 1)) / 5 + kk + kk / 4 + j1 / 4 + 5 * j1;
    let s2 = 1 + (13 * (mm + 1)) / 5 + kk + kk / 4 + j2 / 4 + 5 * j2;
    assert(s2 == s1 + 21 * k);
    lemma_mod_multiples_vanish(3 * k, s1, 7);
    assert(7 * (3 * k) + s1 == s2);
    assert(s2 % 7 == s1 % 7);
}

/// The weekday of the first day of the month, 0 for Sunday through 6
/// for Saturday, for any year of the proleptic Gregorian calendar.
pub fn first_day_of_month(year: i32, month: u32) -> (r: u32)
    requires
        1 <= month <= 12,
    ensures
        r == spec_first_weekday(year as int, month as int),
        r < 7,
{
    let y = cycle_year(year);
    proof {
        let k = choose|k: int| y as int == #[trigger] cycle_shift(year as int, k);
        lemma_weekday_period(year as int, month as int, k);
    }
    let mm: u64 = if month <= 2 {
        month as u64 + 12
    } else {
        month as u64
    };
    let yy: u64 = if month <= 2 {
        (y - 1) as u64
    } else {
        y as u64
    };
    let k: u64 = yy % 100;
    let j: u64 = yy / 100;
    let h: u64 = (1 + (13 * (mm + 1)) / 5 + k + k / 4 + j / 4 + 5 * j) % 7;
    ((h + 6) % 7) as u32
}

/// The English name of month `m`.
pub fn month_name(month: u32) -> (r: String)
    requires
        1 <= month <= 12,
    ensures
        month == 1 ==> r@ == "January"@,
        month == 2 ==> r@ == "February"@,
        month == 3 ==> r@ == "March"@,
        month == 4 ==> r@ == "April"@,
        month == 5 ==> r@ == "May"@,
        month == 6 ==> r@ == "June"@,
        month == 7 ==> r@ == "July"@,
        month == 8 ==> r@ == "August"@,
        month == 9 ==> r@ == "September"@,
        month == 10 ==> r@ == "October"@,
        month == 11 ==> r@ == "November"@,
        month == 12 ==> r@ == "December"@,
{
    if month == 1 {
        String::from_str("January")
    } else if month == 2 {
        String::from_str("February")
    } else if month == 3 {
        String::from_str("March")
    } else if month == 4 {
        String::from_str("April")
    } else if month == 5 {
        String::from_str("May")
    } else if month == 6 {
        String::from_str("June")
    } else if month == 7 {
        String::from_str("July")
    } else if month == 8 {
        String::from_str("August")
    } else if month == 9 {
        String::from_str("September")
    } else if month == 10 {
        String::from_str("October")
    } else if month == 11 {
        String::from_str("November")
    } else {
        String::from_str("December")
    }
}

/// What stands in column `c` of week `w` of a month grid: 0 for a
/// blank cell, else the day number.
pub open spec fn spec_cell(first: int, days: int, pos: int) -> int {
    if pos < first || pos >= first + days {
        0
    } else {
        pos - first + 1
    }
}

/// Lays the days 1 ..= `days` of a month out into weeks of seven
/// cells, 0 marking a blank: `first` blanks lead, the days follow in
/// order, and blanks pad the final week.
#[verifier::loop_isolation(false)]
pub fn month_weeks(days: u32, first: u32) -> (r: Vec<Vec<u32>>)
    requires
        1 <= days <= 31,
        first < 7,
    ensures
        r@.len() == (first + days + 6) / 7,
        forall|w: int, c: int|
            0 <= w < r@.len() && 0 <= c < 7 ==> #[trigger] r@[w]@[c] == spec_cell(
                first as int,
                days as int,
                7 * w + c,
            ),
        forall|w: int| 0 <= w < r@.len() ==> (#[trigger] r@[w])@.len() == 7,
{
    let total: u32 = first + days;
    let weeks: u32 = (total + 6) / 7;
    let mut r: Vec<Vec<u32>> = Vec::new();
    let mut w: u32 = 0;
    while w < weeks
        invariant
            w <= weeks,
            r@.len() == w,
            forall|w2: int, c: int|
                0 <= w2 < w && 0 <= c < 7 ==> #[trigger] r@[w2]@[c] == spec_cell(
                    first as int,
                    days as int,
                    7 * w2 + c,
                ),
            forall|w2: int| 0 <= w2 < w ==> (#[trigger] r@[w2])@.len() == 7,
        decreases weeks - w,
    {
        let mut week: Vec<u32> = Vec::new();
        let mut c: u32 = 0;
        while c < 7
            invariant
                c <= 7,
                w < weeks,
                week@.len() == c,
                forall|c2: int|
                    0 <= c2 < c ==> #[trigger] week@[c2] == spec_cell(
                        first as int,
                        days as int,
                        7 * (w as int) + c2,
                    ),
            decreases 7 - c,
        {
            let pos: u32 = 7 * w + c;
            let cell: u32 = if pos < first || pos >= first + days {
                0
            } else {
                pos - first + 1
            };
            week.push(cell);
            c += 1;
        }
        r.push(week);
        w += 1;
    }
    r
}

} // verus!
