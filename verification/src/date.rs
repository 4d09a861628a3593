//! Calendar dates of the form `year.month.day`, on a calendar without leap
//! years, under one of two conventions for writing the year.

use vstd::prelude::*;
use crate::digits::{
    accumulate,
    all_digits,
    is_digit,
    lemma_run_end,
    lemma_run_end_is,
    run_end,
    scan_digits,
};

verus! {

/// The number of years by which a year is written shifted up under
/// [`Era::Offset`].
pub const ERA_OFFSET: i64 = 5000;

/// How a date's year is written.
#[derive(Clone, Copy, Debug, PartialEq, Eq, Hash, Structural)]
pub enum Era {
    /// The year is written as it is; a year before the epoch carries a
    /// leading minus sign.
    Negative,
    /// The year is written with [`ERA_OFFSET`] added, so that it never needs
    /// a sign; a leading minus sign is malformed.
    Offset,
}

/// A day on the calendar: every year has 365 days.
#[derive(Clone, Copy, Debug, PartialEq, Eq, PartialOrd, Ord, Hash, Structural)]
pub struct Date {
    pub year: i16,
    pub month: u8,
    pub day: u8,
}

/// The number of days of a month, February always having 28.
pub open spec fn days_in_month(month: int) -> int {
    if month == 2 {
        28
    } else if month == 4 || month == 6 || month == 9 || month == 11 {
        30
    } else {
        31
    }
}

/// Whether the calendar has a day `day` in month `month`.
pub open spec fn on_calendar(month: int, day: int) -> bool {
    1 <= month <= 12 && 1 <= day <= days_in_month(month)
}

/// The year that the digits `written` stand for under a convention, given
/// whether a minus sign came before them; `None` where the convention does
/// not allow the sign.
pub open spec fn year_in_era(era: Era, minus: bool, written: int) -> Option<int> {
    match era {
        Era::Negative => Some(
            if minus {
                -written
            } else {
                written
            },
        ),
        Era::Offset => if minus {
            None
        } else {
            Some(written - ERA_OFFSET)
        },
    }
}

/// The date that a token spells, if it is well formed: an optional minus
/// sign and three runs of one or more digits with a point between each two,
/// nothing before, between or after them, the year within sixteen bits once
/// the era's convention is applied, and the day on the calendar.
pub open spec fn date_of(s: Seq<u8>, era: Era) -> Option<Date> {
    let minus = s.len() > 0 && s[0] == 45;
    let start: int = if minus {
        1
    } else {
        0
    };
    let year_end = run_end(s, start);
    let month_end = run_end(s, year_end + 1);
    let day_end = run_end(s, month_end + 1);
    if start < year_end < s.len() && s[year_end] == 46 && year_end + 1 < month_end < s.len()
        && s[month_end] == 46 && month_end + 1 < day_end && day_end == s.len() {
        let year = year_in_era(era, minus, accumulate(0, s.subrange(start, year_end)) as int);
        let month = accumulate(0, s.subrange(year_end + 1, month_end));
        let day = accumulate(0, s.subrange(month_end + 1, day_end));
        if year is Some && i16::MIN <= year->0 <= i16::MAX && on_calendar(
            month as int,
            day as int,
        ) {
            Some(Date { year: year->0 as i16, month: month as u8, day: day as u8 })
        } else {
            None
        }
    } else {
        None
    }
}

/// Asks the calendar of `jomini::common::Date::from_ymd_opt` whether the day
/// exists. That function accepts a month from 1 to 12 and a day from 1 to
/// the length of the month, with 28 days in every February, whatever the
/// year.
#[verifier::external_body]
fn calendar_has(year: i16, month: u8, day: u8) -> (r: bool)
    ensures
        r == on_calendar(month as int, day as int),
{
    jomini::common::Date::from_ymd_opt(year, month, day).is_some()
}

impl Date {
    /// Whether the day is on the calendar.
    pub open spec fn wf(self) -> bool {
        on_calendar(self.month as int, self.day as int)
    }

    /// The days in lexicographic order of year, month and day.
    pub open spec fn before(self, other: Date) -> bool {
        self.year < other.year || (self.year == other.year && (self.month < other.month || (
        self.month == other.month && self.day < other.day)))
    }

    /// The date with these parts, if the calendar has it.
    pub fn from_ymd(year: i16, month: u8, day: u8) -> (r: Option<Date>)
        ensures
            r == (if on_calendar(month as int, day as int) {
                Some(Date { year, month, day })
            } else {
                None
            }),
    {
        if calendar_has(year, month, day) {
            Some(Date { year, month, day })
        } else {
            None
        }
    }

    /// Whether this date comes strictly before `other`.
    pub fn is_before(&self, other: &Date) -> (r: bool)
        ensures
            r == self.before(*other),
    {
        self.year < other.year || (self.year == other.year && (self.month < other.month || (
        self.month == other.month && self.day < other.day)))
    }
}

/// Reads a scalar token as a date under the given convention; `None` when
/// the token is malformed or names no day of the calendar.
pub fn parse_date(raw: &[u8], era: Era) -> (r: Option<Date>)
    ensures
        r == date_of(raw@, era),
        r is Some ==> r->0.wf(),
{
    let minus: bool = raw.len() > 0 && raw[0] == 45;
    let start: usize = if minus { 1 } else { 0 };
    let (year_end, written) = scan_digits(raw, start, 0, 100_000);
    if year_end == start || year_end >= raw.len() || raw[year_end] != 46 {
        return None;
    }
    let (month_end, month) = scan_digits(raw, year_end + 1, 0, 100);
    if month_end == year_end + 1 || month_end >= raw.len() || raw[month_end] != 46 {
        return None;
    }
    let (day_end, day) = scan_digits(raw, month_end + 1, 0, 100);
    if day_end == month_end + 1 || day_end != raw.len() {
        return None;
    }
    let written: i64 = written as i64;
    let year: i64 = match era {
        Era::Negative => if minus { -written } else { written },
        Era::Offset => {
            if minus {
                return None;
            }
            written - ERA_OFFSET
        },
    };
    if year < -32768 || year > 32767 || month >= 100 || day >= 100 {
        return None;
    }
    Date::from_ymd(year as i16, month as u8, day as u8)
}

/// The number of points in a token.
pub open spec fn points(s: Seq<u8>) -> nat
    decreases s.len(),
{
    if s.len() == 0 {
        0
    } else {
        points(s.drop_last()) + if s.last() == 46 {
            1nat
        } else {
            0nat
        }
    }
}

/// The points of two runs of bytes laid end to end are those of the one and
/// those of the other.
proof fn lemma_points_concat(a: Seq<u8>, b: Seq<u8>)
    ensures
        points(a + b) == points(a) + points(b),
    decreases b.len(),
{
    if b.len() == 0 {
        assert(a + b =~= a);
    } else {
        lemma_points_concat(a, b.drop_last());
        assert((a + b).drop_last() =~= a + b.drop_last());
        assert((a + b).last() == b.last());
    }
}

/// A run of digits holds no point.
proof fn lemma_digits_hold_no_point(s: Seq<u8>)
    requires
        all_digits(s),
    ensures
        points(s) == 0,
    decreases s.len(),
{
    if s.len() > 0 {
        assert(is_digit(s[s.len() - 1]));
        assert forall|i: int| 0 <= i < s.drop_last().len() implies is_digit(
            #[trigger] s.drop_last()[i],
        ) by {
            assert(s.drop_last()[i] == s[i]);
        }
        lemma_digits_hold_no_point(s.drop_last());
    }
}

/// The token written with the given digits for year, month and day, with or
/// without a minus sign in front.
pub open spec fn date_token(minus: bool, year: Seq<u8>, month: Seq<u8>, day: Seq<u8>) -> Seq<u8> {
    (if minus {
        seq![45u8]
    } else {
        Seq::<u8>::empty()
    }) + year + seq![46u8] + month + seq![46u8] + day
}

/// A token of three runs of digits with a point between each two is read as
/// the date with exactly those parts when the year fits and the calendar
/// has the day, and as no date otherwise. Under [`Era::Negative`] the year
/// is the one written, negated after a minus sign; under [`Era::Offset`] it
/// is the one written less [`ERA_OFFSET`], and a minus sign is malformed.
pub proof fn law_date_has_its_parts(minus: bool, year: Seq<u8>, month: Seq<u8>, day: Seq<u8>)
    requires
        year.len() > 0 && all_digits(year),
        month.len() > 0 && all_digits(month),
        day.len() > 0 && all_digits(day),
    ensures
        ({
            let token = date_token(minus, year, month, day);
            let written = accumulate(0, year) as int;
            let plain = if minus {
                -written
            } else {
                written
            };
            let m = accumulate(0, month) as int;
            let d = accumulate(0, day) as int;
            &&& date_of(token, Era::Negative) == (if i16::MIN <= plain <= i16::MAX && on_calendar(
                m,
                d,
            ) {
                Some(Date { year: plain as i16, month: m as u8, day: d as u8 })
            } else {
                None
            })
            &&& date_of(token, Era::Offset) == (if !minus && i16::MIN <= written - ERA_OFFSET
                <= i16::MAX && on_calendar(m, d) {
                Some(Date { year: (written - ERA_OFFSET) as i16, month: m as u8, day: d as u8 })
            } else {
                None
            })
        }),
{
    let token = date_token(minus, year, month, day);
    let start: int = if minus {
        1
    } else {
        0
    };
    let year_end = start + year.len();
    let month_end = year_end + 1 + month.len();
    let day_end = month_end + 1 + day.len();
    assert(token.len() == day_end);
    assert(token.len() > 0 && (token[0] == 45) == minus) by {
        if !minus {
            assert(token[0] == year[0]);
            assert(is_digit(year[0]));
        }
    }
    assert forall|i: int| start <= i < year_end implies is_digit(#[trigger] token[i]) by {
        assert(token[i] == year[i - start]);
    }
    assert(token[year_end] == 46);
    assert forall|i: int| year_end + 1 <= i < month_end implies is_digit(#[trigger] token[i]) by {
        assert(token[i] == month[i - year_end - 1]);
    }
    assert(token[month_end] == 46);
    assert forall|i: int| month_end + 1 <= i < day_end implies is_digit(#[trigger] token[i]) by {
        assert(token[i] == day[i - month_end - 1]);
    }
    lemma_run_end_is(token, start, year_end);
    lemma_run_end_is(token, year_end + 1, month_end);
    lemma_run_end_is(token, month_end + 1, day_end);
    assert(token.subrange(start, year_end) =~= year);
    assert(token.subrange(year_end + 1, month_end) =~= month);
    assert(token.subrange(month_end + 1, day_end) =~= day);
}

/// Only a token with exactly two points, and so with three parts, is read
/// as a date.
pub proof fn law_date_has_three_parts(s: Seq<u8>, era: Era)
    ensures
        date_of(s, era) is Some ==> points(s) == 2,
{
    if date_of(s, era) is Some {
        let start: int = if s.len() > 0 && s[0] == 45 {
            1
        } else {
            0
        };
        let year_end = run_end(s, start);
        let month_end = run_end(s, year_end + 1);
        let day_end = run_end(s, month_end + 1);
        lemma_run_end(s, start);
        lemma_run_end(s, year_end + 1);
        lemma_run_end(s, month_end + 1);
        let sign = s.subrange(0, start);
        let year = s.subrange(start, year_end);
        let month = s.subrange(year_end + 1, month_end);
        let day = s.subrange(month_end + 1, day_end);
        let point = seq![46u8];
        assert(s =~= sign + year + point + month + point + day);
        lemma_points_concat(sign + year + point + month + point, day);
        lemma_points_concat(sign + year + point + month, point);
        lemma_points_concat(sign + year + point, month);
        lemma_points_concat(sign + year, point);
        lemma_points_concat(sign, year);
        lemma_digits_hold_no_point(year);
        lemma_digits_hold_no_point(month);
        lemma_digits_hold_no_point(day);
        assert(points(point) == 1) by {
            assert(point.drop_last() =~= Seq::<u8>::empty());
            reveal_with_fuel(points, 2);
        }
        assert(points(sign) == 0) by {
            if start == 1 {
                assert(sign.drop_last() =~= Seq::<u8>::empty());
                reveal_with_fuel(points, 2);
            }
        }
    }
}

/// The order of dates is a strict total order: no date is before itself,
/// of two different dates exactly one is before the other, and before
/// carries over from one date to the next.
pub proof fn law_dates_are_totally_ordered(a: Date, b: Date, c: Date)
    ensures
        !a.before(a),
        a == b || a.before(b) || b.before(a),
        !(a.before(b) && b.before(a)),
        a.before(b) && b.before(c) ==> a.before(c),
{
}

} // verus!
