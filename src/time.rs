use vstd::prelude::*;
use vstd::string::*;

use chrono::Datelike;
use chrono::Timelike;

use crate::error::{Fault, ScheduleError};

verus! {

/// A calendar day of the week.
#[derive(Clone, Copy, PartialEq, Eq, Structural, Debug, Hash)]
pub enum Weekday {
    Mon,
    Tue,
    Wed,
    Thu,
    Fri,
    Sat,
    Sun,
}

impl Weekday {
    /// The day of the week of the local date, read now.
    pub fn today() -> Weekday {
        local_weekday()
    }
}

/// Morning or afternoon half of a twelve-hour clock.
#[derive(Clone, Copy, PartialEq, Eq, Structural, Debug)]
pub enum AMPM {
    AM,
    PM,
}

/// A twelve-hour clock time as written in a schedule.
#[derive(Clone, Copy, PartialEq, Eq, Structural, Debug)]
pub struct Time {
    pub hour: u32,
    pub minute: u32,
    pub ampm: AMPM,
}

/// Unicode `White_Space` characters, the ones `char::is_whitespace` accepts.
pub open spec fn is_space(c: char) -> bool {
    let n = c as u32;
    n == 0x20 || (0x09 <= n && n <= 0x0d) || n == 0x85 || n == 0xa0 || n == 0x1680 || (0x2000
        <= n && n <= 0x200a) || n == 0x2028 || n == 0x2029 || n == 0x202f || n == 0x205f || n
        == 0x3000
}

/// The characters of `s` with all whitespace removed, order kept.
pub open spec fn strip_spaces(s: Seq<char>) -> Seq<char>
    decreases s.len(),
{
    if s.len() == 0 {
        s
    } else {
        let rest = strip_spaces(s.drop_last());
        if is_space(s.last()) {
            rest
        } else {
            rest.push(s.last())
        }
    }
}

pub open spec fn is_digit_in(c: char, lo: u32, hi: u32) -> bool {
    48 + lo <= c as u32 && c as u32 <= 48 + hi
}

pub open spec fn digit_value(c: char) -> u32 {
    (c as u32 - 48) as u32
}

/// `AM` or `PM`, exactly as written.
pub open spec fn is_meridiem(a: char, b: char) -> bool {
    (a == 'A' || a == 'P') && b == 'M'
}

pub open spec fn meridiem_of(a: char) -> AMPM {
    if a == 'P' {
        AMPM::PM
    } else {
        AMPM::AM
    }
}

/// The hour-and-minute form `H:MM(AM|PM)` on a string without whitespace, where `H` is
/// `10`, `11`, `12` or a single digit and `MM` is `00` to `59`.
pub open spec fn hour_minute_form(t: Seq<char>) -> Option<Time> {
    if t.len() == 7 && t[0] == '1' && is_digit_in(t[1], 0, 2) && t[2] == ':' && is_digit_in(
        t[3],
        0,
        5,
    ) && is_digit_in(t[4], 0, 9) && is_meridiem(t[5], t[6]) {
        Some(
            Time {
                hour: (10 + digit_value(t[1])) as u32,
                minute: (10 * digit_value(t[3]) + digit_value(t[4])) as u32,
                ampm: meridiem_of(t[5]),
            },
        )
    } else if t.len() == 6 && is_digit_in(t[0], 0, 9) && t[1] == ':' && is_digit_in(t[2], 0, 5)
        && is_digit_in(t[3], 0, 9) && is_meridiem(t[4], t[5]) {
        Some(
            Time {
                hour: digit_value(t[0]),
                minute: (10 * digit_value(t[2]) + digit_value(t[3])) as u32,
                ampm: meridiem_of(t[4]),
            },
        )
    } else {
        None
    }
}

/// The hour-only form `H(AM|PM)` on a string without whitespace; the minute is zero.
pub open spec fn hour_only_form(t: Seq<char>) -> Option<Time> {
    if t.len() == 4 && t[0] == '1' && is_digit_in(t[1], 0, 2) && is_meridiem(t[2], t[3]) {
        Some(Time { hour: (10 + digit_value(t[1])) as u32, minute: 0, ampm: meridiem_of(t[2]) })
    } else if t.len() == 3 && is_digit_in(t[0], 0, 9) && is_meridiem(t[1], t[2]) {
        Some(Time { hour: digit_value(t[0]), minute: 0, ampm: meridiem_of(t[1]) })
    } else {
        None
    }
}

/// The clock time that `s` spells, if any: whitespace is ignored, and the
/// hour-and-minute form is tried before the hour-only form.
pub open spec fn parse_time(s: Seq<char>) -> Option<Time> {
    let t = strip_spaces(s);
    if hour_minute_form(t) is Some {
        hour_minute_form(t)
    } else {
        hour_only_form(t)
    }
}

/// Minutes since midnight of the clock time that `s` spells, zero when it spells none.
pub open spec fn minute_of_day_of(s: Seq<char>) -> int {
    match parse_time(s) {
        Some(t) => t.minute_of_day(),
        None => 0,
    }
}

impl Time {
    /// Hours run from 0 to 12 and minutes from 0 to 59.
    pub open spec fn wf(&self) -> bool {
        self.hour <= 12 && self.minute < 60
    }

    /// Minutes since midnight: the hour is taken modulo twelve, and twelve hours are
    /// added in the afternoon, so that 12 AM is midnight and 12 PM is noon.
    pub open spec fn minute_of_day(&self) -> int {
        let h = (self.hour % 12) as int + if self.ampm == AMPM::PM {
            12int
        } else {
            0int
        };
        h * 60 + self.minute as int
    }

    /// Converts the time to minutes since midnight.
    pub fn to_int(&self) -> (r: u32)
        requires
            self.wf(),
        ensures
            r as int == self.minute_of_day(),
            r < 1440,
    {
        let offset: u32 = match self.ampm {
            AMPM::AM => 0,
            AMPM::PM => 12,
        };
        (self.hour % 12 + offset) * 60 + self.minute
    }

    /// Minutes since midnight on the local clock, read now.
    pub fn now() -> (r: u32)
        ensures
            r < 1440,
    {
        let (h, m) = local_clock();
        h * 60 + m
    }

    /// Parses a clock time such as `9:30 AM`, `11:15PM` or `12 PM`.
    pub fn from(s: String) -> (r: Result<Time, ScheduleError>)
        ensures
            match parse_time(s@) {
                Some(t) => r == Ok::<Time, ScheduleError>(t),
                None => r matches Err(e) && e@ == Fault::UnparsableTime(s@),
            },
            r matches Ok(t) ==> t.wf(),
    {
        let t = strip_spaces_exec(s.as_str());
        match clock_of(&t) {
            Some(time) => Ok(time),
            None => Err(ScheduleError::UnparsableTime(s)),
        }
    }
}

/// Tests a character against the whitespace set of `is_space`.
pub fn is_space_exec(c: char) -> (r: bool)
    ensures
        r == is_space(c),
{
    let n = c as u32;
    n == 0x20 || (0x09 <= n && n <= 0x0d) || n == 0x85 || n == 0xa0 || n == 0x1680 || (0x2000
        <= n && n <= 0x200a) || n == 0x2028 || n == 0x2029 || n == 0x202f || n == 0x205f || n
        == 0x3000
}

fn strip_spaces_exec(s: &str) -> (r: Vec<char>)
    ensures
        r@ == strip_spaces(s@),
{
    let n = s.unicode_len();
    let mut out: Vec<char> = Vec::new();
    let mut i: usize = 0;
    while i < n
        invariant
            i <= n,
            n == s@.len(),
            out@ == strip_spaces(s@.take(i as int)),
        decreases n - i,
    {
        let c = s.get_char(i);
        proof {
            assert(s@.take(i + 1).drop_last() =~= s@.take(i as int));
        }
        if !is_space_exec(c) {
            out.push(c);
        }
        i += 1;
    }
    proof {
        assert(s@.take(n as int) =~= s@);
    }
    out
}

fn digit_in(c: char, lo: u32, hi: u32) -> (r: bool)
    requires
        lo <= 9,
        hi <= 9,
    ensures
        r == is_digit_in(c, lo, hi),
{
    let n = c as u32;
    48 + lo <= n && n <= 48 + hi
}

fn meridiem(a: char, b: char) -> (r: Option<AMPM>)
    ensures
        r is Some <==> is_meridiem(a, b),
        r is Some ==> r == Some(meridiem_of(a)),
{
    if b != 'M' {
        None
    } else if a == 'A' {
        Some(AMPM::AM)
    } else if a == 'P' {
        Some(AMPM::PM)
    } else {
        None
    }
}

/// Reads a clock time from a string that holds no whitespace.
fn clock_of(t: &Vec<char>) -> (r: Option<Time>)
    ensures
        r == (if hour_minute_form(t@) is Some {
            hour_minute_form(t@)
        } else {
            hour_only_form(t@)
        }),
        r matches Some(x) ==> x.wf(),
{
    let n = t.len();
    if n == 7 && t[0] == '1' && digit_in(t[1], 0, 2) && t[2] == ':' && digit_in(t[3], 0, 5)
        && digit_in(t[4], 0, 9) {
        if let Some(ap) = meridiem(t[5], t[6]) {
            let hour = 10 + (t[1] as u32 - 48);
            let minute = 10 * (t[3] as u32 - 48) + (t[4] as u32 - 48);
            return Some(Time { hour, minute, ampm: ap });
        }
    }
    if n == 6 && digit_in(t[0], 0, 9) && t[1] == ':' && digit_in(t[2], 0, 5) && digit_in(
        t[3],
        0,
        9,
    ) {
        if let Some(ap) = meridiem(t[4], t[5]) {
            let hour = t[0] as u32 - 48;
            let minute = 10 * (t[2] as u32 - 48) + (t[3] as u32 - 48);
            return Some(Time { hour, minute, ampm: ap });
        }
    }
    if n == 4 && t[0] == '1' && digit_in(t[1], 0, 2) {
        if let Some(ap) = meridiem(t[2], t[3]) {
            return Some(Time { hour: 10 + (t[1] as u32 - 48), minute: 0, ampm: ap });
        }
    }
    if n == 3 && digit_in(t[0], 0, 9) {
        if let Some(ap) = meridiem(t[1], t[2]) {
            return Some(Time { hour: t[0] as u32 - 48, minute: 0, ampm: ap });
        }
    }
    None
}

/// Relies on `chrono::Local::now` with `Timelike::hour` and `Timelike::minute`: the
/// hour of the local time is below 24 and its minute below 60.
#[verifier::external_body]
fn local_clock() -> (r: (u32, u32))
    ensures
        r.0 < 24,
        r.1 < 60,
{
    let now = chrono::Local::now();
    (now.hour(), now.minute())
}

/// Relies on `chrono::Local::now` with `Datelike::weekday`: the day of the week of the
/// local date, one variant for each of chrono's.
#[verifier::external_body]
fn local_weekday() -> (r: Weekday) {
    match chrono::Local::now().weekday() {
        chrono::Weekday::Mon => Weekday::Mon,
        chrono::Weekday::Tue => Weekday::Tue,
        chrono::Weekday::Wed => Weekday::Wed,
        chrono::Weekday::Thu => Weekday::Thu,
        chrono::Weekday::Fri => Weekday::Fri,
        chrono::Weekday::Sat => Weekday::Sat,
        chrono::Weekday::Sun => Weekday::Sun,
    }
}


/// Two well-formed clock times fall on the same minute of the day exactly when they
/// agree on minute and half-day and their hours agree modulo twelve, so 12 and 0 are
/// the only two hour spellings that meet.
pub proof fn lemma_minute_of_day_injective(t1: Time, t2: Time)
    requires
        t1.wf(),
        t2.wf(),
    ensures
        t1.minute_of_day() == t2.minute_of_day() <==> (t1.hour % 12 == t2.hour % 12 && t1.minute
            == t2.minute && t1.ampm == t2.ampm),
        0 <= t1.minute_of_day() < 1440,
{
    let h1 = (t1.hour % 12) as int + if t1.ampm == AMPM::PM {
        12int
    } else {
        0int
    };
    let h2 = (t2.hour % 12) as int + if t2.ampm == AMPM::PM {
        12int
    } else {
        0int
    };
    let m1 = t1.minute as int;
    let m2 = t2.minute as int;
    assert(0 <= h1 < 24 && 0 <= h2 < 24);
    assert(h1 * 60 + m1 == h2 * 60 + m2 ==> h1 == h2 && m1 == m2) by (nonlinear_arith)
        requires
            0 <= m1 < 60,
            0 <= m2 < 60,
    ;
    assert(h1 * 60 + m1 < 1440) by (nonlinear_arith)
        requires
            0 <= h1 < 24,
            0 <= m1 < 60,
    ;
}

/// Removing whitespace twice removes no more than removing it once.
pub proof fn lemma_strip_idempotent(s: Seq<char>)
    ensures
        strip_spaces(strip_spaces(s)) == strip_spaces(s),
    decreases s.len(),
{
    if s.len() > 0 {
        let d = s.drop_last();
        lemma_strip_idempotent(d);
        let r = strip_spaces(d);
        if !is_space(s.last()) {
            assert(r.push(s.last()).drop_last() =~= r);
        }
    }
}

/// Parsing ignores whitespace: a string parses as its characters without whitespace
/// do, so two strings with the same non-whitespace characters parse alike.
pub proof fn lemma_whitespace_ignored(s1: Seq<char>, s2: Seq<char>)
    ensures
        parse_time(s1) == parse_time(strip_spaces(s1)),
        strip_spaces(s1) == strip_spaces(s2) ==> parse_time(s1) == parse_time(s2),
{
    lemma_strip_idempotent(s1);
}

/// A string in the hour-only form is read as an hour with minute zero; the
/// hour-and-minute form never captures it.
pub proof fn lemma_hour_only_priority(s: Seq<char>)
    requires
        hour_only_form(strip_spaces(s)) is Some,
    ensures
        hour_minute_form(strip_spaces(s)) is None,
        parse_time(s) == hour_only_form(strip_spaces(s)),
        parse_time(s) matches Some(t) && t.minute == 0,
{
}

} // verus!
