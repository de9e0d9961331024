//! The proleptic Gregorian calendar and the civil (wall-clock) datetimes
//! that jiff computes from git's unix timestamps.
//!
//! A [`Civil`] value is a calendar date plus a time of day. Its meaning
//! is given by [`Civil::local_seconds`]: the number of seconds since
//! 1970-01-01 00:00:00 on the same wall clock. Converting between an
//! instant and the wall clock in a fixed UTC offset, and calendar
//! arithmetic, are done by jiff; the wrappers at the end of this file
//! state what jiff computes in terms of these definitions.

use vstd::prelude::*;

verus! {

/// Leap years of the proleptic Gregorian calendar.
pub open spec fn is_leap_year(y: int) -> bool {
    (y % 4 == 0 && y % 100 != 0) || y % 400 == 0
}

/// The number of days in month `m` (1..=12) of year `y`.
pub open spec fn days_in_month(y: int, m: int) -> int {
    if m == 2 {
        if is_leap_year(y) { 29 } else { 28 }
    } else if m == 4 || m == 6 || m == 9 || m == 11 {
        30
    } else {
        31
    }
}

/// The number of days of year `y` before the first of month `m`.
pub open spec fn days_before_month(y: int, m: int) -> int {
    let l: int = if is_leap_year(y) { 1 } else { 0 };
    if m <= 1 { 0 }
    else if m == 2 { 31 }
    else if m == 3 { 59 + l }
    else if m == 4 { 90 + l }
    else if m == 5 { 120 + l }
    else if m == 6 { 151 + l }
    else if m == 7 { 181 + l }
    else if m == 8 { 212 + l }
    else if m == 9 { 243 + l }
    else if m == 10 { 273 + l }
    else if m == 11 { 304 + l }
    else { 334 + l }
}

/// The number of days in year `y`.
pub open spec fn days_in_year(y: int) -> int {
    if is_leap_year(y) { 366 } else { 365 }
}

/// The number of days from 0000-01-01 to the first day of year `y`
/// (negative for years before 0).
pub open spec fn days_before_year(y: int) -> int {
    365 * y + (y + 3) / 4 - (y + 99) / 100 + (y + 399) / 400
}

/// `days_before_year(1970)`: the day number of the unix epoch.
pub open spec fn unix_epoch_offset() -> int {
    719528
}

/// The number of days from 1970-01-01 to the date `y-m-d`.
pub open spec fn unix_epoch_day(y: int, m: int, d: int) -> int {
    days_before_year(y) + days_before_month(y, m) + d - 1 - unix_epoch_offset()
}

/// A civil datetime: a date and a time of day, with no time zone.
#[derive(Clone, Copy, Debug, PartialEq, Eq, Structural)]
pub struct Civil {
    pub year: i16,
    pub month: i8,
    pub day: i8,
    pub hour: i8,
    pub minute: i8,
    pub second: i8,
}

impl Civil {
    /// A valid datetime in jiff's supported range of years.
    pub open spec fn wf(self) -> bool {
        &&& -9999 <= self.year <= 9999
        &&& 1 <= self.month <= 12
        &&& 1 <= self.day <= days_in_month(self.year as int, self.month as int)
        &&& 0 <= self.hour <= 23
        &&& 0 <= self.minute <= 59
        &&& 0 <= self.second <= 59
    }

    /// Days since 1970-01-01.
    pub open spec fn day_number(self) -> int {
        unix_epoch_day(self.year as int, self.month as int, self.day as int)
    }

    /// Seconds since midnight.
    pub open spec fn time_of_day(self) -> int {
        self.hour * 3600 + self.minute * 60 + self.second
    }

    /// Seconds since 1970-01-01 00:00:00 on the same wall clock.
    pub open spec fn local_seconds(self) -> int {
        self.day_number() * 86400 + self.time_of_day()
    }
}

/// The datetime whose wall clock is `local` seconds after the epoch.
pub open spec fn civil_at(local: int) -> Civil {
    choose|c: Civil| c.wf() && c.local_seconds() == local
}

/// The earliest datetime jiff represents, -9999-01-01 00:00:00.
pub open spec fn civil_min() -> Civil {
    Civil { year: -9999i16, month: 1i8, day: 1i8, hour: 0i8, minute: 0i8, second: 0i8 }
}

/// The latest datetime jiff represents, 9999-12-31 23:59:59.
pub open spec fn civil_max() -> Civil {
    Civil { year: 9999i16, month: 12i8, day: 31i8, hour: 23i8, minute: 59i8, second: 59i8 }
}

/// Whether a wall clock `local` seconds after the epoch is representable.
pub open spec fn in_civil_range(local: int) -> bool {
    civil_min().local_seconds() <= local <= civil_max().local_seconds()
}

/// jiff's range of unix timestamps (`Timestamp::MIN..=Timestamp::MAX`).
pub open spec fn timestamp_in_range(s: int) -> bool {
    -377705023201 <= s <= 253402207200
}

/// jiff's range of UTC offsets, `-25:59:59..=25:59:59`.
pub open spec fn offset_in_range(o: int) -> bool {
    -93599 <= o <= 93599
}

/// Adding `months` calendar months to `c`, the day clamped to the end of
/// the resulting month; `None` past jiff's range of years.
#[verifier::opaque]
pub open spec fn add_months(c: Civil, months: int) -> Option<Civil> {
    let total = c.year * 12 + (c.month - 1) + months;
    let y = total / 12;
    let m = total % 12 + 1;
    if -9999 <= y <= 9999 {
        let dim = days_in_month(y, m);
        Some(
            Civil {
                year: y as i16,
                month: m as i8,
                day: (if c.day <= dim { c.day as int } else { dim }) as i8,
                hour: c.hour,
                minute: c.minute,
                second: c.second,
            },
        )
    } else {
        None
    }
}

/// The result of [`add_months`] is a valid datetime.
pub proof fn lemma_add_months_wf(c: Civil, months: int)
    requires
        c.wf(),
    ensures
        add_months(c, months).is_some() ==> add_months(c, months).unwrap().wf(),
{
    reveal(add_months);
}

/// Adding no months changes nothing.
pub proof fn lemma_add_months_zero(c: Civil)
    requires
        c.wf(),
    ensures
        add_months(c, 0) == Some(c),
{
    reveal(add_months);
    let total = c.year * 12 + (c.month - 1) + 0;
    assert(total / 12 == c.year && total % 12 == c.month - 1) by (nonlinear_arith)
        requires
            total == c.year * 12 + (c.month - 1),
            0 <= c.month - 1 < 12,
    ;
}

proof fn lemma_div_step_4(y: int)
    ensures
        (y + 4) / 4 == (y + 3) / 4 + if y % 4 == 0 { 1int } else { 0int },
{
}

proof fn lemma_div_step_100(y: int)
    ensures
        (y + 100) / 100 == (y + 99) / 100 + if y % 100 == 0 { 1int } else { 0int },
{
}

proof fn lemma_div_step_400(y: int)
    ensures
        (y + 400) / 400 == (y + 399) / 400 + if y % 400 == 0 { 1int } else { 0int },
{
}

pub proof fn lemma_year_step(y: int)
    ensures
        days_before_year(y + 1) == days_before_year(y) + days_in_year(y),
{
    lemma_div_step_4(y);
    lemma_div_step_100(y);
    lemma_div_step_400(y);
    assert(y % 400 == 0 ==> y % 100 == 0 && y % 4 == 0);
    assert(y % 100 == 0 ==> y % 4 == 0);
}

proof fn lemma_years_apart(a: int, b: int)
    requires
        a < b,
    ensures
        days_before_year(a) + days_in_year(a) <= days_before_year(b),
    decreases b - a,
{
    lemma_year_step(a);
    if a + 1 < b {
        lemma_years_apart(a + 1, b);
        lemma_year_step(a + 1);
    }
}

proof fn lemma_day_of_year(y: int, m: int, d: int)
    requires
        1 <= m <= 12,
        1 <= d <= days_in_month(y, m),
    ensures
        0 <= days_before_month(y, m) + d - 1 < days_in_year(y),
{
}

proof fn lemma_months_apart(y: int, m1: int, m2: int)
    requires
        1 <= m1 < m2 <= 12,
    ensures
        days_before_month(y, m1) + days_in_month(y, m1) <= days_before_month(y, m2),
{
}

/// Equal wall clocks split into equal days and equal times of day.
proof fn lemma_same_day(c1: Civil, c2: Civil)
    requires
        c1.wf(),
        c2.wf(),
        c1.local_seconds() == c2.local_seconds(),
    ensures
        c1.day_number() == c2.day_number(),
        c1.time_of_day() == c2.time_of_day(),
{
    let d1 = c1.day_number();
    let d2 = c2.day_number();
    let t1 = c1.time_of_day();
    let t2 = c2.time_of_day();
    assert(0 <= t1 < 86400);
    assert(0 <= t2 < 86400);
    assert(d1 == d2 && t1 == t2) by (nonlinear_arith)
        requires
            d1 * 86400 + t1 == d2 * 86400 + t2,
            0 <= t1 < 86400,
            0 <= t2 < 86400,
    ;
}

/// Valid dates with the same day number are the same date.
proof fn lemma_same_date(y1: int, m1: int, dd1: int, y2: int, m2: int, dd2: int)
    requires
        -9999 <= y1 <= 9999,
        -9999 <= y2 <= 9999,
        1 <= m1 <= 12,
        1 <= m2 <= 12,
        1 <= dd1 <= days_in_month(y1, m1),
        1 <= dd2 <= days_in_month(y2, m2),
        unix_epoch_day(y1, m1, dd1) == unix_epoch_day(y2, m2, dd2),
    ensures
        y1 == y2,
        m1 == m2,
        dd1 == dd2,
{
    lemma_day_of_year(y1, m1, dd1);
    lemma_day_of_year(y2, m2, dd2);
    if y1 < y2 {
        lemma_years_apart(y1, y2);
    } else if y2 < y1 {
        lemma_years_apart(y2, y1);
    }
    assert(y1 == y2);
    if m1 < m2 {
        lemma_months_apart(y1, m1, m2);
    } else if m2 < m1 {
        lemma_months_apart(y1, m2, m1);
    }
}

/// Two valid datetimes with the same wall clock are the same datetime.
pub proof fn lemma_civil_unique(c1: Civil, c2: Civil)
    requires
        c1.wf(),
        c2.wf(),
        c1.local_seconds() == c2.local_seconds(),
    ensures
        c1 == c2,
{
    lemma_same_day(c1, c2);
    lemma_same_date(
        c1.year as int,
        c1.month as int,
        c1.day as int,
        c2.year as int,
        c2.month as int,
        c2.day as int,
    );
}

/// A valid datetime is the one [`civil_at`] names for its wall clock.
pub proof fn lemma_civil_at(c: Civil)
    requires
        c.wf(),
    ensures
        civil_at(c.local_seconds()) == c,
{
    let l = c.local_seconds();
    let w = civil_at(l);
    assert(w.wf() && w.local_seconds() == l);
    lemma_civil_unique(w, c);
}

proof fn lemma_find_year(d: int, y: int) -> (r: int)
    requires
        -9999 <= y <= 9999,
        days_before_year(y) <= d < days_before_year(10000),
    ensures
        y <= r <= 9999,
        days_before_year(r) <= d < days_before_year(r) + days_in_year(r),
    decreases 9999 - y,
{
    lemma_year_step(y);
    if d < days_before_year(y + 1) {
        y
    } else {
        lemma_find_year(d, y + 1)
    }
}

/// The month of year `y` that holds day `doy` (0-based) of that year.
spec fn month_of(y: int, doy: int) -> int {
    if doy < days_before_month(y, 2) { 1 }
    else if doy < days_before_month(y, 3) { 2 }
    else if doy < days_before_month(y, 4) { 3 }
    else if doy < days_before_month(y, 5) { 4 }
    else if doy < days_before_month(y, 6) { 5 }
    else if doy < days_before_month(y, 7) { 6 }
    else if doy < days_before_month(y, 8) { 7 }
    else if doy < days_before_month(y, 9) { 8 }
    else if doy < days_before_month(y, 10) { 9 }
    else if doy < days_before_month(y, 11) { 10 }
    else if doy < days_before_month(y, 12) { 11 }
    else { 12 }
}

/// Every wall clock in jiff's range is the wall clock of a valid
/// datetime, so [`civil_at`] names a valid datetime there.
pub proof fn lemma_civil_exists(local: int)
    requires
        in_civil_range(local),
    ensures
        civil_at(local).wf(),
        civil_at(local).local_seconds() == local,
{
    let d = local / 86400;
    let t = local % 86400;
    assert(d * 86400 + t == local && 0 <= t < 86400) by (nonlinear_arith)
        requires d == local / 86400, t == local % 86400;
    let min_day = civil_min().day_number();
    let max_day = civil_max().day_number();
    assert(civil_min().local_seconds() == min_day * 86400);
    assert(min_day <= d <= max_day) by (nonlinear_arith)
        requires
            d * 86400 + t == local,
            0 <= t < 86400,
            min_day * 86400 <= local <= max_day * 86400 + 86399,
    ;
    let dd = d + unix_epoch_offset();
    lemma_year_step(9999);
    let y = lemma_find_year(dd, -9999);
    let doy = dd - days_before_year(y);
    let m = month_of(y, doy);
    let c = Civil {
        year: y as i16,
        month: m as i8,
        day: (doy - days_before_month(y, m) + 1) as i8,
        hour: (t / 3600) as i8,
        minute: ((t % 3600) / 60) as i8,
        second: (t % 60) as i8,
    };
    assert(c.time_of_day() == t);
    assert(c.wf());
    assert(c.day_number() == d);
    assert(c.local_seconds() == local);
    lemma_civil_at(c);
}

/// An instant and an offset in jiff's ranges give a wall clock in range.
pub proof fn lemma_instant_in_civil_range(seconds: int, offset: int)
    requires
        timestamp_in_range(seconds),
        offset_in_range(offset),
    ensures
        in_civil_range(seconds + offset),
{
    assert(civil_min().local_seconds() == -377705116800);
    assert(civil_max().local_seconds() == 253402300799);
}

/// jiff's `Offset::to_datetime`: the wall clock of the instant `seconds`
/// (seconds since the epoch, UTC) in the UTC offset `offset` (seconds east
/// of UTC). The `Timestamp` and `Offset` arguments are built with
/// `Timestamp::from_second` and `Offset::from_seconds`, which fail outside
/// jiff's ranges; the wrapper then returns `None`. The contract claims
/// that the result is a valid datetime whose wall clock is
/// `seconds + offset` seconds after the epoch, as jiff documents
/// (`civil-time - offset = UTC`).
#[verifier::external_body]
pub fn civil_from_instant(seconds: i64, offset: i32) -> (r: Option<Civil>)
    ensures
        r.is_some() == (timestamp_in_range(seconds as int) && offset_in_range(offset as int)),
        r matches Some(c) ==> c.wf() && c.local_seconds() == seconds + offset,
{
    let ts = jiff::Timestamp::from_second(seconds).ok()?;
    let d = jiff::tz::Offset::from_seconds(offset).ok()?.to_datetime(ts);
    Some(Civil { year: d.year(), month: d.month(), day: d.day(), hour: d.hour(), minute: d.minute(), second: d.second() })
}

/// jiff's `Offset::to_timestamp`: the instant whose wall clock in the UTC
/// offset `offset` is `c`, in seconds since the epoch. The `DateTime`
/// argument is built with `DateTime::new` (which accepts every valid
/// datetime) and the offset with `Offset::from_seconds`. The contract
/// claims `None` exactly when the offset or the resulting instant is
/// outside jiff's ranges, and otherwise `local_seconds(c) - offset`.
#[verifier::external_body]
pub fn instant_from_civil(c: Civil, offset: i32) -> (r: Option<i64>)
    requires
        c.wf(),
    ensures
        r.is_some() == (offset_in_range(offset as int) && timestamp_in_range(
            c.local_seconds() - offset,
        )),
        r matches Some(s) ==> s == c.local_seconds() - offset,
{
    let d = jiff::civil::DateTime::new(c.year, c.month, c.day, c.hour, c.minute, c.second, 0)
        .ok()?;
    let off = jiff::tz::Offset::from_seconds(offset).ok()?;
    match off.to_timestamp(d) {
        Ok(ts) => Some(ts.as_second()),
        Err(_) => None,
    }
}

/// The bounds that jiff's `Span` setters accept (they panic beyond them).
pub open spec fn span_in_bounds(years: int, months: int, days: int, hours: int, minutes: int) -> bool {
    &&& -19998 <= years <= 19998
    &&& -239976 <= months <= 239976
    &&& -7304484 <= days <= 7304484
    &&& -175307616 <= hours <= 175307616
    &&& -10518456960 <= minutes <= 10518456960
}

/// jiff's `DateTime::checked_add` with a `Span` of at most one non-zero
/// unit, built with the `Span` setters. The contract claims what jiff's
/// source shows: years and months are calendar months (the day clamped
/// to the end of the resulting month, `None` past year 9999 or before
/// -9999); days, hours and minutes move the wall clock by a fixed number
/// of seconds (`None` when that leaves jiff's datetime range).
#[verifier::external_body]
pub fn civil_checked_add(c: Civil, years: i64, months: i64, days: i64, hours: i64, minutes: i64) -> (r: Option<Civil>)
    requires
        c.wf(),
        span_in_bounds(years as int, months as int, days as int, hours as int, minutes as int),
        (years != 0) as int + (months != 0) as int + (days != 0) as int + (hours != 0) as int
            + (minutes != 0) as int <= 1,
    ensures
        years != 0 || months != 0 ==> r == add_months(c, 12 * years + months),
        years == 0 && months == 0 ==> r.is_some() == in_civil_range(
            c.local_seconds() + days * 86400 + hours * 3600 + minutes * 60,
        ),
        years == 0 && months == 0 && r.is_some() ==> r.unwrap().wf() && r.unwrap().local_seconds()
            == c.local_seconds() + days * 86400 + hours * 3600 + minutes * 60,
{
    let d = jiff::civil::DateTime::new(c.year, c.month, c.day, c.hour, c.minute, c.second, 0).ok()?;
    let span = jiff::Span::new().years(years).months(months).days(days).hours(hours).minutes(minutes);
    let n = d.checked_add(span).ok()?;
    Some(Civil { year: n.year(), month: n.month(), day: n.day(), hour: n.hour(), minute: n.minute(), second: n.second() })
}

} // verus!
