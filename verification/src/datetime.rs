//! Timestamp math for editing commit dates.
//!
//! Git stores each date as unix `seconds` plus a fixed UTC `offset`
//! (seconds east of UTC), kept here as a [`Stamp`]. The editor always
//! shows and edits the *wall-clock* time in the commit's own offset
//! ([`wall_clock`]). Incrementing a field keeps the offset (and the
//! sub-minute seconds) intact; only [`Component::Offset`] changes the
//! offset, and it does so while holding the displayed wall clock fixed.

use vstd::prelude::*;
use crate::calendar::{
    add_months, civil_at, civil_checked_add, civil_from_instant, days_in_month, in_civil_range,
    instant_from_civil, lemma_civil_exists, lemma_instant_in_civil_range, lemma_add_months_wf, lemma_add_months_zero, lemma_civil_at, lemma_civil_unique, offset_in_range, span_in_bounds, timestamp_in_range, Civil,
};
use crate::text::{
    chars_of, decimal, parse_signed, parse_signed_chars, push_char, push_padded, split_all,
    split_chars, split_once, split_once_chars, string_of, trim, trim_chars, views, zero_pad, all_digits,
    lemma_padded, lemma_parse_digits, lemma_split_none, lemma_split_once_at, lemma_trim_noop,
};

verus! {

/// A git timestamp: unix seconds plus a fixed UTC offset in seconds
/// east of UTC.
#[derive(Clone, Copy, Debug, PartialEq, Eq, Structural)]
pub struct Stamp {
    pub seconds: i64,
    pub offset: i32,
}

/// The editable field of a displayed timestamp.
#[derive(Clone, Copy, Debug, PartialEq, Eq, Structural)]
pub enum Component {
    Year,
    Month,
    Day,
    Hour,
    Minute,
    Offset,
}

/// One step of the offset field, in seconds (15 minutes): fine enough to
/// reach every real-world offset, including the :30 and :45 ones.
pub const OFFSET_STEP_SECONDS: i32 = 900;

/// The largest offset a bump produces, +/-18:00 in seconds.
pub const MAX_OFFSET_SECONDS: i64 = 64800;

/// Failed to parse a user-typed `YYYY-MM-DD HH:MM` timestamp; holds the
/// offending (trimmed) text, or nothing when a number was missing or
/// malformed.
#[derive(Debug, Clone, PartialEq, Eq)]
pub struct ParseTimeError(pub String);

impl ParseTimeError {
    /// The error message shown to the user.
    pub fn message(&self) -> (m: String)
        ensures
            m@ == parse_error_message(self.0@),
    {
        let mut m = String::from_str("invalid date/time (expected YYYY-MM-DD HH:MM): ");
        m.append(self.0.as_str());
        m
    }
}

/// The message of a [`ParseTimeError`] holding `text`.
pub open spec fn parse_error_message(text: Seq<char>) -> Seq<char> {
    "invalid date/time (expected YYYY-MM-DD HH:MM): "@ + text
}

impl Stamp {
    pub fn new(seconds: i64, offset: i32) -> (s: Self)
        ensures
            s.seconds == seconds,
            s.offset == offset,
    {
        Stamp { seconds, offset }
    }
}

/// The wall clock of a stamp: its instant seen in its offset. An instant
/// outside jiff's range is read as the unix epoch, and an offset outside
/// jiff's range as UTC (real commits never hit either).
pub open spec fn wall_clock(s: Stamp) -> Civil {
    let secs = if timestamp_in_range(s.seconds as int) { s.seconds as int } else { 0 };
    let off = if offset_in_range(s.offset as int) { s.offset as int } else { 0 };
    civil_at(secs + off)
}

/// The instant (unix seconds) whose wall clock in `offset` is `c`, when
/// jiff can represent it.
pub open spec fn instant_of(c: Civil, offset: int) -> Option<int> {
    if offset_in_range(offset) && timestamp_in_range(c.local_seconds() - offset) {
        Some(c.local_seconds() - offset)
    } else {
        None
    }
}

/// The wall-clock civil datetime in the stamp's own offset.
fn to_civil(stamp: Stamp) -> (c: Civil)
    ensures
        c == wall_clock(stamp),
        c.wf(),
{
    let first = civil_from_instant(stamp.seconds, stamp.offset);
    let c = match first {
        Some(c) => c,
        None => match civil_from_instant(stamp.seconds, 0) {
            Some(c) => c,
            None => match civil_from_instant(0, stamp.offset) {
                Some(c) => c,
                None => civil_from_instant(0, 0).unwrap(),
            },
        },
    };
    proof {
        lemma_civil_at(c);
    }
    c
}

/// Reinterpret a civil wall clock under `offset`, yielding unix seconds.
fn seconds_at(dt: Civil, offset: i32) -> (r: Option<i64>)
    requires
        dt.wf(),
    ensures
        r.is_some() == instant_of(dt, offset as int).is_some(),
        r.is_some() ==> r.unwrap() == instant_of(dt, offset as int).unwrap(),
{
    instant_from_civil(dt, offset)
}

/// The `(year, month, day, hour, minute)` parts shown to the user.
pub fn parts(stamp: Stamp) -> (r: (i16, i8, i8, i8, i8))
    ensures
        r == (
            wall_clock(stamp).year,
            wall_clock(stamp).month,
            wall_clock(stamp).day,
            wall_clock(stamp).hour,
            wall_clock(stamp).minute,
        ),
{
    let dt = to_civil(stamp);
    (dt.year, dt.month, dt.day, dt.hour, dt.minute)
}

/// `v` in decimal, zero-padded to `width` characters including a leading
/// `-` for negative values (Rust's `{:0width}`).
pub open spec fn signed_padded(v: int, width: nat) -> Seq<char> {
    if v < 0 {
        seq!['-'] + zero_pad(decimal((-v) as nat), (width - 1) as nat)
    } else {
        zero_pad(decimal(v as nat), width)
    }
}

/// `YYYY-MM-DD HH:MM` for a civil datetime.
pub open spec fn format_civil(c: Civil) -> Seq<char> {
    signed_padded(c.year as int, 4) + seq!['-'] + zero_pad(decimal(c.month as nat), 2) + seq!['-']
        + zero_pad(decimal(c.day as nat), 2) + seq![' '] + zero_pad(decimal(c.hour as nat), 2)
        + seq![':'] + zero_pad(decimal(c.minute as nat), 2)
}

/// `+HH:MM` / `-HH:MM` for an offset in seconds (seconds dropped).
pub open spec fn offset_text(offset: int) -> Seq<char> {
    let a: nat = if offset < 0 { (-offset) as nat } else { offset as nat };
    seq![if offset < 0 { '-' } else { '+' }] + zero_pad(decimal(a / 3600), 2) + seq![':']
        + zero_pad(decimal((a % 3600) / 60), 2)
}

/// Format the wall clock as `YYYY-MM-DD HH:MM` in the stamp's offset.
pub fn format(stamp: Stamp) -> (r: String)
    ensures
        r@ == format_civil(wall_clock(stamp)),
{
    let c = to_civil(stamp);
    let mut out = String::new();
    if c.year < 0 {
        push_char(&mut out, '-');
        push_padded(&mut out, (-(c.year as i64)) as u64, 3);
    } else {
        push_padded(&mut out, c.year as u64, 4);
    }
    push_char(&mut out, '-');
    push_padded(&mut out, c.month as u64, 2);
    push_char(&mut out, '-');
    push_padded(&mut out, c.day as u64, 2);
    push_char(&mut out, ' ');
    push_padded(&mut out, c.hour as u64, 2);
    push_char(&mut out, ':');
    push_padded(&mut out, c.minute as u64, 2);
    assert(out@ =~= format_civil(c));
    out
}

/// Format the offset as `+HH:MM` / `-HH:MM`.
pub fn format_offset(stamp: Stamp) -> (r: String)
    ensures
        r@ == offset_text(stamp.offset as int),
{
    let secs = stamp.offset;
    let sign = if secs < 0 { '-' } else { '+' };
    let abs: u64 = if secs < 0 { (-(secs as i64)) as u64 } else { secs as u64 };
    let h = abs / 3600;
    let m = (abs % 3600) / 60;
    let mut out = String::new();
    push_char(&mut out, sign);
    push_padded(&mut out, h, 2);
    push_char(&mut out, ':');
    push_padded(&mut out, m, 2);
    assert(out@ =~= offset_text(stamp.offset as int));
    out
}

/// The date and time parts of a trimmed entry, split at the first space
/// or else at the first `T`.
pub open spec fn date_time_split(t: Seq<char>) -> Option<(Seq<char>, Seq<char>)> {
    match split_once(t, ' ') {
        Some(p) => Some(p),
        None => split_once(t, 'T'),
    }
}

/// The `i`-th piece of `pieces` read as a signed integer in `lo..=hi`,
/// `None` when there is no such piece or it does not parse.
pub open spec fn nth_num(pieces: Seq<Seq<char>>, i: int, lo: int, hi: int) -> Option<int> {
    if i < pieces.len() { parse_signed(pieces[i], lo, hi) } else { None }
}

/// What `parse_in_offset(text, offset)` returns: the stamp, or the text
/// that the error carries.
pub open spec fn parse_spec(text: Seq<char>, offset: int) -> Result<Stamp, Seq<char>> {
    let t = trim(text);
    match date_time_split(t) {
        None => Err(t),
        Some((date, time)) => {
            let dp = split_all(date, '-');
            let tp = split_all(trim(time), ':');
            let year = nth_num(dp, 0, -32768, 32767);
            let month = nth_num(dp, 1, -128, 127);
            let day = nth_num(dp, 2, -128, 127);
            let hour = nth_num(tp, 0, -128, 127);
            let minute = nth_num(tp, 1, -128, 127);
            if year.is_none() || month.is_none() || day.is_none() {
                Err(Seq::empty())
            } else if dp.len() > 3 {
                Err(t)
            } else if hour.is_none() || minute.is_none() {
                Err(Seq::empty())
            } else if tp.len() >= 3 && parse_signed(tp[2], -128, 127).is_none() {
                Err(t)
            } else if tp.len() > 3 {
                Err(t)
            } else {
                let c = Civil {
                    year: year.unwrap() as i16,
                    month: month.unwrap() as i8,
                    day: day.unwrap() as i8,
                    hour: hour.unwrap() as i8,
                    minute: minute.unwrap() as i8,
                    second: 0,
                };
                if !c.wf() {
                    Err(t)
                } else {
                    match instant_of(c, offset) {
                        Some(s) => Ok(Stamp { seconds: s as i64, offset: offset as i32 }),
                        None => Err(t),
                    }
                }
            }
        },
    }
}

/// The abstract value of a parse result: the stamp or the error's text.
pub open spec fn parse_result_view(r: Result<Stamp, ParseTimeError>) -> Result<Stamp, Seq<char>> {
    match r {
        Ok(s) => Ok(s),
        Err(e) => Err(e.0@),
    }
}

/// Whether `y-m-d h:mi:s` is a datetime that jiff's `DateTime::new`
/// accepts.
fn civil_valid(c: Civil) -> (b: bool)
    ensures
        b == c.wf(),
{
    if c.year < -9999 || c.year > 9999 || c.month < 1 || c.month > 12 || c.day < 1 {
        return false;
    }
    let y = c.year as i64;
    let leap = (y % 4 == 0 && y % 100 != 0) || y % 400 == 0;
    let dim: i8 = if c.month == 2 {
        if leap { 29 } else { 28 }
    } else if c.month == 4 || c.month == 6 || c.month == 9 || c.month == 11 {
        30
    } else {
        31
    };
    assert(dim == days_in_month(c.year as int, c.month as int));
    c.day <= dim && 0 <= c.hour && c.hour <= 23 && 0 <= c.minute && c.minute <= 59 && 0
        <= c.second && c.second <= 59
}

/// The `i`-th piece parsed as a number in `lo..=hi`; a missing or
/// malformed piece is an error carrying no text.
fn next_num(pieces: &Vec<Vec<char>>, i: usize, lo: i64, hi: i64) -> (r: Result<i64, ParseTimeError>)
    requires
        -1000000 <= lo <= 0 <= hi <= 1000000,
    ensures
        r.is_ok() == nth_num(views(pieces@), i as int, lo as int, hi as int).is_some(),
        r.is_ok() ==> r.unwrap() == nth_num(views(pieces@), i as int, lo as int, hi as int).unwrap(),
        r.is_err() ==> r->Err_0.0@ == Seq::<char>::empty(),
{
    if i < pieces.len() {
        match parse_signed_chars(&pieces[i], lo, hi) {
            Some(v) => Ok(v),
            None => Err(ParseTimeError(String::new())),
        }
    } else {
        Err(ParseTimeError(String::new()))
    }
}

/// Parse `YYYY-MM-DD HH:MM` and interpret it in `offset`, producing a
/// stamp. Seconds are set to zero (the editor is minute-precision); a
/// `T` may stand in for the space, and an optional `:SS` is accepted
/// but ignored.
pub fn parse_in_offset(text: &str, offset: i32) -> (r: Result<Stamp, ParseTimeError>)
    ensures
        parse_result_view(r) == parse_spec(text@, offset as int),
{
    let cs = chars_of(text);
    let trimmed = trim_chars(&cs);
    let split = match split_once_chars(&trimmed, ' ') {
        Some(p) => Some(p),
        None => split_once_chars(&trimmed, 'T'),
    };
    let (date, time) = match split {
        Some(p) => p,
        None => {
            return Err(ParseTimeError(string_of(&trimmed)));
        },
    };
    let ghost t = trim(text@);
    let d = split_chars(&date, '-');
    let year = match next_num(&d, 0, -32768, 32767) {
        Ok(v) => v,
        Err(e) => return Err(e),
    };
    let month = match next_num(&d, 1, -128, 127) {
        Ok(v) => v,
        Err(e) => return Err(e),
    };
    let day = match next_num(&d, 2, -128, 127) {
        Ok(v) => v,
        Err(e) => return Err(e),
    };
    if d.len() > 3 {
        return Err(ParseTimeError(string_of(&trimmed)));
    }
    let time_trimmed = trim_chars(&time);
    let tp = split_chars(&time_trimmed, ':');
    let hour = match next_num(&tp, 0, -128, 127) {
        Ok(v) => v,
        Err(e) => return Err(e),
    };
    let minute = match next_num(&tp, 1, -128, 127) {
        Ok(v) => v,
        Err(e) => return Err(e),
    };
    if tp.len() >= 3 {
        // An optional :SS field is tolerated but its value ignored.
        if parse_signed_chars(&tp[2], -128, 127).is_none() {
            return Err(ParseTimeError(string_of(&trimmed)));
        }
    }
    if tp.len() > 3 {
        return Err(ParseTimeError(string_of(&trimmed)));
    }
    let c = Civil {
        year: year as i16,
        month: month as i8,
        day: day as i8,
        hour: hour as i8,
        minute: minute as i8,
        second: 0,
    };
    if !civil_valid(c) {
        return Err(ParseTimeError(string_of(&trimmed)));
    }
    match seconds_at(c, offset) {
        Some(seconds) => Ok(Stamp { seconds, offset }),
        None => Err(ParseTimeError(string_of(&trimmed))),
    }
}

/// `v` saturated into the range of `i64`.
pub open spec fn saturate_i64(v: int) -> int {
    if v > i64::MAX {
        i64::MAX as int
    } else if v < i64::MIN {
        i64::MIN as int
    } else {
        v
    }
}

/// What [`add_delta`] returns.
pub open spec fn add_delta_spec(stamp: Stamp, delta: int) -> Stamp {
    Stamp { seconds: saturate_i64(stamp.seconds + delta) as i64, offset: stamp.offset }
}

/// Shift a stamp by `delta` seconds, keeping its offset (used by the
/// cascade "shift" edit mode). The wall clock moves with the instant.
pub fn add_delta(stamp: Stamp, delta: i64) -> (r: Stamp)
    ensures
        r.seconds == saturate_i64(stamp.seconds + delta),
        r.offset == stamp.offset,
        r == add_delta_spec(stamp, delta as int),
{
    let seconds = match stamp.seconds.checked_add(delta) {
        Some(s) => s,
        None => if delta > 0 {
            i64::MAX
        } else {
            i64::MIN
        },
    };
    Stamp { seconds, offset: stamp.offset }
}

/// `v` clamped to the offsets a bump produces, +/-18:00.
pub open spec fn clamp_offset_spec(v: int) -> int {
    if v < -64800 {
        -64800
    } else if v > 64800 {
        64800
    } else {
        v
    }
}

/// Valid git/jiff offsets run to +/-18:00; clamp there.
fn clamp_offset(secs: i64) -> (r: i32)
    ensures
        r == clamp_offset_spec(secs as int),
{
    if secs < -MAX_OFFSET_SECONDS {
        -64800
    } else if secs > MAX_OFFSET_SECONDS {
        64800
    } else {
        secs as i32
    }
}

/// The wall clock `secs` seconds after `c`, when jiff can represent it.
pub open spec fn shift_civil(c: Civil, secs: int) -> Option<Civil> {
    if in_civil_range(c.local_seconds() + secs) {
        Some(civil_at(c.local_seconds() + secs))
    } else {
        None
    }
}

/// Calendar arithmetic on one date/time field, as jiff does it: years
/// and months clamp the day to the month end, days, hours and minutes
/// move the wall clock.
pub open spec fn civil_add(c: Civil, component: Component, steps: int) -> Option<Civil> {
    match component {
        Component::Year => add_months(c, 12 * steps),
        Component::Month => add_months(c, steps),
        Component::Day => shift_civil(c, steps * 86400),
        Component::Hour => shift_civil(c, steps * 3600),
        Component::Minute => shift_civil(c, steps * 60),
        Component::Offset => None,
    }
}

/// What [`bump`] returns.
pub open spec fn bump_spec(stamp: Stamp, component: Component, steps: int) -> Stamp {
    let w = wall_clock(stamp);
    if component == Component::Offset {
        let o = clamp_offset_spec(stamp.offset + 900 * steps);
        match instant_of(w, o) {
            Some(s) => Stamp { seconds: s as i64, offset: o as i32 },
            None => Stamp { seconds: stamp.seconds, offset: o as i32 },
        }
    } else {
        match civil_add(w, component, steps) {
            Some(c) => match instant_of(c, stamp.offset as int) {
                Some(s) => Stamp { seconds: s as i64, offset: stamp.offset },
                None => stamp,
            },
            None => stamp,
        }
    }
}

/// The step counts a bump accepts: the offset arithmetic stays within
/// `i64`, and a date/time step within the bounds of jiff's spans.
pub open spec fn bump_steps_ok(stamp: Stamp, component: Component, steps: int) -> bool {
    match component {
        Component::Offset => i64::MIN <= 900 * steps <= i64::MAX && i64::MIN <= stamp.offset + 900
            * steps <= i64::MAX,
        Component::Year => span_in_bounds(steps, 0, 0, 0, 0),
        Component::Month => span_in_bounds(0, steps, 0, 0, 0),
        Component::Day => span_in_bounds(0, 0, steps, 0, 0),
        Component::Hour => span_in_bounds(0, 0, 0, steps, 0),
        Component::Minute => span_in_bounds(0, 0, 0, 0, steps),
    }
}

/// `dt` moved by `steps` calendar months, through jiff.
fn add_months_jiff(dt: Civil, steps: i64, years: bool) -> (r: Option<Civil>)
    requires
        dt.wf(),
        years ==> span_in_bounds(steps as int, 0, 0, 0, 0),
        !years ==> span_in_bounds(0, steps as int, 0, 0, 0),
    ensures
        r == add_months(dt, if years { 12 * steps } else { steps as int }),
        r.is_some() ==> r.unwrap().wf(),
{
    proof {
        lemma_add_months_wf(dt, if years { 12 * steps } else { steps as int });
        lemma_add_months_zero(dt);
    }
    if steps == 0 {
        let r = civil_checked_add(dt, 0, 0, 0, 0, 0);
        proof {
            lemma_civil_at(dt);
            lemma_civil_unique(r.unwrap(), dt);
        }
        return r;
    }
    if years {
        let r = civil_checked_add(dt, steps, 0, 0, 0, 0);
        assert(12 * steps + 0 == 12 * steps);
        r
    } else {
        let r = civil_checked_add(dt, 0, steps, 0, 0, 0);
        assert(12 * 0 + steps == steps as int);
        r
    }
}

/// `dt` moved by `steps` units of `unit` seconds (a day, an hour or a
/// minute), through jiff.
fn shift_jiff(dt: Civil, steps: i64, unit: i64) -> (r: Option<Civil>)
    requires
        dt.wf(),
        unit == 86400 ==> span_in_bounds(0, 0, steps as int, 0, 0),
        unit == 3600 ==> span_in_bounds(0, 0, 0, steps as int, 0),
        unit == 60 ==> span_in_bounds(0, 0, 0, 0, steps as int),
        unit == 86400 || unit == 3600 || unit == 60,
    ensures
        r == shift_civil(dt, steps * unit),
        r.is_some() ==> r.unwrap().wf(),
{
    let r = if unit == 86400 {
        civil_checked_add(dt, 0, 0, steps, 0, 0)
    } else if unit == 3600 {
        civil_checked_add(dt, 0, 0, 0, steps, 0)
    } else {
        civil_checked_add(dt, 0, 0, 0, 0, steps)
    };
    proof {
        if r.is_some() {
            lemma_civil_at(r.unwrap());
        }
    }
    r
}

/// One date/time field of `dt` moved by `steps`, through jiff.
fn add_field(dt: Civil, component: Component, steps: i64) -> (r: Option<Civil>)
    requires
        dt.wf(),
        component != Component::Offset,
        bump_steps_ok(Stamp { seconds: 0, offset: 0 }, component, steps as int),
    ensures
        r == civil_add(dt, component, steps as int),
        r.is_some() ==> r.unwrap().wf(),
{
    match component {
        Component::Year => add_months_jiff(dt, steps, true),
        Component::Month => add_months_jiff(dt, steps, false),
        Component::Day => shift_jiff(dt, steps, 86400),
        Component::Hour => shift_jiff(dt, steps, 3600),
        _ => shift_jiff(dt, steps, 60),
    }
}

/// Increment/decrement one field by `steps`, with calendar carry
/// (e.g. Jan 31 + 1 month clamps to the month end). The offset and the
/// sub-minute seconds are preserved for the date/time fields; the
/// `Offset` field changes the offset while holding the wall clock. A
/// result outside jiff's range leaves the stamp untouched.
pub fn bump(stamp: Stamp, component: Component, steps: i64) -> (r: Stamp)
    requires
        bump_steps_ok(stamp, component, steps as int),
    ensures
        r == bump_spec(stamp, component, steps as int),
{
    let dt = to_civil(stamp);
    if component == Component::Offset {
        let delta = (OFFSET_STEP_SECONDS as i64) * steps;
        let new_offset = clamp_offset(stamp.offset as i64 + delta);
        // Hold the displayed wall clock; recompute the instant.
        let seconds = match seconds_at(dt, new_offset) {
            Some(s) => s,
            None => stamp.seconds,
        };
        return Stamp { seconds, offset: new_offset };
    }
    let added = add_field(dt, component, steps);
    match added {
        // Out of jiff's representable range: leave the stamp untouched.
        None => stamp,
        Some(n) => match seconds_at(n, stamp.offset) {
            Some(seconds) => Stamp { seconds, offset: stamp.offset },
            None => stamp,
        },
    }
}

} // verus!

verus! {

/// The wall clock of a stamp in jiff's ranges is a valid datetime whose
/// local seconds are the stamp's instant plus its offset.
pub proof fn lemma_wall_clock(s: Stamp)
    requires
        timestamp_in_range(s.seconds as int),
        offset_in_range(s.offset as int),
    ensures
        wall_clock(s).wf(),
        wall_clock(s).local_seconds() == s.seconds + s.offset,
{
    lemma_instant_in_civil_range(s.seconds as int, s.offset as int);
    lemma_civil_exists(s.seconds + s.offset);
}

proof fn lemma_no_char(s: Seq<char>, c: char)
    requires
        all_digits(s),
        !('0' <= c <= '9'),
    ensures
        forall|j: int| 0 <= j < s.len() ==> s[j] != c,
{
    assert forall|j: int| 0 <= j < s.len() implies s[j] != c by {
        assert('0' <= s[j] <= '9');
    }
}

/// `a + [c] + b` holds no `x` when neither part does and `c != x`.
proof fn lemma_joined_lacks(a: Seq<char>, c: char, b: Seq<char>, x: char)
    requires
        forall|j: int| 0 <= j < a.len() ==> a[j] != x,
        forall|j: int| 0 <= j < b.len() ==> b[j] != x,
        c != x,
    ensures
        forall|j: int| 0 <= j < (a + seq![c] + b).len() ==> (a + seq![c] + b)[j] != x,
{
    let s = a + seq![c] + b;
    assert forall|j: int| 0 <= j < s.len() implies s[j] != x by {
        if j < a.len() {
            assert(s[j] == a[j]);
        } else if j > a.len() {
            assert(s[j] == b[j - a.len() - 1]);
        }
    }
}

/// `a-b-c` of digit strings splits at `-` into its three parts and holds
/// no space.
proof fn lemma_date_pieces(ys: Seq<char>, ms: Seq<char>, ds: Seq<char>)
    requires
        all_digits(ys),
        all_digits(ms),
        all_digits(ds),
    ensures
        split_all(ys + seq!['-'] + ms + seq!['-'] + ds, '-') == seq![ys, ms, ds],
        forall|j: int|
            0 <= j < (ys + seq!['-'] + ms + seq!['-'] + ds).len() ==> (ys + seq!['-'] + ms
                + seq!['-'] + ds)[j] != ' ',
{
    let md = ms + seq!['-'] + ds;
    let date = ys + seq!['-'] + md;
    assert(date =~= ys + seq!['-'] + ms + seq!['-'] + ds);
    lemma_no_char(ys, ' ');
    lemma_no_char(ms, ' ');
    lemma_no_char(ds, ' ');
    lemma_joined_lacks(ms, '-', ds, ' ');
    lemma_joined_lacks(ys, '-', md, ' ');
    lemma_no_char(ys, '-');
    lemma_no_char(ms, '-');
    lemma_no_char(ds, '-');
    lemma_split_once_at(ys, '-', md);
    lemma_split_once_at(ms, '-', ds);
    lemma_split_none(ds, '-');
    assert(split_all(date, '-') =~= seq![ys, ms, ds]);
}

/// `h:m` of non-empty digit strings is its own trim and splits at `:`.
proof fn lemma_time_pieces(hs: Seq<char>, mis: Seq<char>)
    requires
        all_digits(hs),
        all_digits(mis),
        hs.len() >= 1,
        mis.len() >= 1,
    ensures
        trim(hs + seq![':'] + mis) == hs + seq![':'] + mis,
        split_all(hs + seq![':'] + mis, ':') == seq![hs, mis],
{
    let time = hs + seq![':'] + mis;
    assert('0' <= hs[0] <= '9');
    assert('0' <= mis.last() <= '9');
    assert(time[0] == hs[0]);
    assert(time.last() == mis.last());
    lemma_trim_noop(time);
    lemma_no_char(hs, ':');
    lemma_no_char(mis, ':');
    lemma_split_once_at(hs, ':', mis);
    lemma_split_none(mis, ':');
    assert(split_all(time, ':') =~= seq![hs, mis]);
}

/// `date time` with digit ends is its own trim and splits at the space.
proof fn lemma_date_time_pieces(date: Seq<char>, time: Seq<char>)
    requires
        date.len() >= 1,
        time.len() >= 1,
        '0' <= date[0] <= '9',
        '0' <= time.last() <= '9',
        forall|j: int| 0 <= j < date.len() ==> date[j] != ' ',
    ensures
        trim(date + seq![' '] + time) == date + seq![' '] + time,
        date_time_split(date + seq![' '] + time) == Some((date, time)),
{
    let f = date + seq![' '] + time;
    assert(f[0] == date[0]);
    assert(f.last() == time.last());
    lemma_trim_noop(f);
    lemma_split_once_at(date, ' ', time);
}

/// Parsing what [`format`] prints, in the same offset, gives back the
/// stamp with its sub-minute seconds dropped: the wall clock survives the
/// round trip to the minute. (A year before 0 prints with a leading `-`
/// that the date split cannot read back, and the earliest instants lose
/// their seconds below jiff's range, so those are left out.)
#[verifier::rlimit(40)]
pub proof fn lemma_parse_format_round_trip(s: Stamp)
    requires
        timestamp_in_range(s.seconds as int),
        offset_in_range(s.offset as int),
        wall_clock(s).year >= 0,
        timestamp_in_range(s.seconds - wall_clock(s).second),
    ensures
        parse_spec(format_civil(wall_clock(s)), s.offset as int) == Ok::<Stamp, Seq<char>>(
            Stamp { seconds: (s.seconds - wall_clock(s).second) as i64, offset: s.offset },
        ),
{
    let w = wall_clock(s);
    lemma_wall_clock(s);
    let ys = zero_pad(decimal(w.year as nat), 4);
    let ms = zero_pad(decimal(w.month as nat), 2);
    let ds = zero_pad(decimal(w.day as nat), 2);
    let hs = zero_pad(decimal(w.hour as nat), 2);
    let mis = zero_pad(decimal(w.minute as nat), 2);
    lemma_padded(w.year as nat, 4);
    lemma_padded(w.month as nat, 2);
    lemma_padded(w.day as nat, 2);
    lemma_padded(w.hour as nat, 2);
    lemma_padded(w.minute as nat, 2);
    lemma_date_pieces(ys, ms, ds);
    lemma_time_pieces(hs, mis);
    let date = ys + seq!['-'] + ms + seq!['-'] + ds;
    let time = hs + seq![':'] + mis;
    assert(date[0] == ys[0]);
    assert(time.last() == mis.last());
    assert('0' <= ys[0] <= '9');
    assert('0' <= mis.last() <= '9');
    lemma_date_time_pieces(date, time);
    assert(format_civil(w) =~= date + seq![' '] + time);
    lemma_parse_digits(ys, -32768, 32767);
    lemma_parse_digits(ms, -128, 127);
    lemma_parse_digits(ds, -128, 127);
    lemma_parse_digits(hs, -128, 127);
    lemma_parse_digits(mis, -128, 127);
    let c = Civil {
        year: w.year,
        month: w.month,
        day: w.day,
        hour: w.hour,
        minute: w.minute,
        second: 0,
    };
    assert(c.local_seconds() == w.local_seconds() - w.second);
}

/// The seconds in one step of a day, hour or minute field.
pub open spec fn unit_seconds(component: Component) -> int {
    match component {
        Component::Day => 86400,
        Component::Hour => 3600,
        Component::Minute => 60,
        _ => 0,
    }
}

/// The wall clock `w` on the same time of day in year `y`, month `m`:
/// the day of the month kept, or clamped to that month's last day.
pub open spec fn on_month(w: Civil, y: int, m: int) -> Civil {
    Civil {
        year: y as i16,
        month: m as i8,
        day: (if w.day <= days_in_month(y, m) { w.day as int } else { days_in_month(y, m) }) as i8,
        hour: w.hour,
        minute: w.minute,
        second: w.second,
    }
}

/// A year step is twelve month steps.
pub proof fn lemma_year_is_twelve_months(s: Stamp, k: int)
    ensures
        bump_spec(s, Component::Year, k) == bump_spec(s, Component::Month, 12 * k),
{
}

/// Bumping the month by `k` moves the wall clock `k` calendar months
/// (across year ends): the day of the month is kept, or clamped to the
/// new month's last day, the time of day and the offset are kept, and
/// the instant follows the new wall clock, as long as the new date is in
/// jiff's range.
pub proof fn lemma_bump_month(s: Stamp, k: int)
    requires
        timestamp_in_range(s.seconds as int),
        offset_in_range(s.offset as int),
        ({
            let w = wall_clock(s);
            let total = w.year * 12 + (w.month - 1) + k;
            &&& -9999 <= total / 12 <= 9999
            &&& timestamp_in_range(on_month(w, total / 12, total % 12 + 1).local_seconds() - s.offset)
        }),
    ensures
        ({
            let w = wall_clock(s);
            let total = w.year * 12 + (w.month - 1) + k;
            let t = on_month(w, total / 12, total % 12 + 1);
            &&& bump_spec(s, Component::Month, k) == (Stamp {
                seconds: (t.local_seconds() - s.offset) as i64,
                offset: s.offset,
            })
            &&& wall_clock(bump_spec(s, Component::Month, k)) == t
            &&& t.wf()
        }),
{
    let w = wall_clock(s);
    lemma_wall_clock(s);
    let total = w.year * 12 + (w.month - 1) + k;
    let t = on_month(w, total / 12, total % 12 + 1);
    reveal(add_months);
    lemma_add_months_wf(w, k);
    assert(add_months(w, k) == Some(t));
    let r = bump_spec(s, Component::Month, k);
    assert(r == Stamp { seconds: (t.local_seconds() - s.offset) as i64, offset: s.offset });
    lemma_civil_at(t);
    assert(r.seconds + r.offset == t.local_seconds());
}

/// Bumping the year by `k` moves the wall clock `k` calendar years: the
/// same month, the day kept or clamped to the month's last day (February
/// 29 becomes February 28 in a common year), the time of day and the
/// offset kept, as long as the new date is in jiff's range.
pub proof fn lemma_bump_year(s: Stamp, k: int)
    requires
        timestamp_in_range(s.seconds as int),
        offset_in_range(s.offset as int),
        -9999 <= wall_clock(s).year + k <= 9999,
        timestamp_in_range(
            on_month(wall_clock(s), wall_clock(s).year + k, wall_clock(s).month as int).local_seconds()
                - s.offset,
        ),
    ensures
        bump_spec(s, Component::Year, k).offset == s.offset,
        wall_clock(bump_spec(s, Component::Year, k)) == on_month(
            wall_clock(s),
            wall_clock(s).year + k,
            wall_clock(s).month as int,
        ),
{
    let w = wall_clock(s);
    lemma_wall_clock(s);
    let total = w.year * 12 + (w.month - 1) + 12 * k;
    assert(total / 12 == w.year + k && total % 12 == w.month - 1) by (nonlinear_arith)
        requires
            total == (w.year + k) * 12 + (w.month - 1),
            0 <= w.month - 1 < 12,
    ;
    lemma_year_is_twelve_months(s, k);
    lemma_bump_month(s, 12 * k);
}

/// Bumping the day, hour or minute field by `steps` moves the instant by
/// exactly that many days, hours or minutes and keeps the offset, as long
/// as the result stays in jiff's range.
pub proof fn lemma_bump_moves_instant(s: Stamp, component: Component, steps: int)
    requires
        timestamp_in_range(s.seconds as int),
        offset_in_range(s.offset as int),
        component == Component::Day || component == Component::Hour || component
            == Component::Minute,
        in_civil_range(s.seconds + s.offset + steps * unit_seconds(component)),
        timestamp_in_range(s.seconds + steps * unit_seconds(component)),
    ensures
        bump_spec(s, component, steps) == (Stamp {
            seconds: (s.seconds + steps * unit_seconds(component)) as i64,
            offset: s.offset,
        }),
{
    let w = wall_clock(s);
    lemma_wall_clock(s);
    let l = w.local_seconds() + steps * unit_seconds(component);
    lemma_civil_exists(l);
    assert(civil_add(w, component, steps) == Some(civil_at(l)));
}

/// Bumping the offset holds the displayed wall clock: the offset moves by
/// `steps` quarter hours (clamped to +/-18:00) and the instant moves the
/// other way, as long as it stays in jiff's range.
pub proof fn lemma_bump_offset_holds_wall_clock(s: Stamp, steps: int)
    requires
        timestamp_in_range(s.seconds as int),
        offset_in_range(s.offset as int),
        timestamp_in_range(s.seconds + s.offset - clamp_offset_spec(s.offset + 900 * steps)),
    ensures
        bump_spec(s, Component::Offset, steps) == (Stamp {
            seconds: (s.seconds + s.offset - clamp_offset_spec(s.offset + 900 * steps)) as i64,
            offset: clamp_offset_spec(s.offset + 900 * steps) as i32,
        }),
        wall_clock(bump_spec(s, Component::Offset, steps)) == wall_clock(s),
{
    let w = wall_clock(s);
    lemma_wall_clock(s);
    lemma_civil_at(w);
}

} // verus!
