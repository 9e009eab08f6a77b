//! Calendar dates, times of day and UTC instants at whole-second precision.

use chrono::TimeZone;
use vstd::prelude::*;
use crate::text::{
    all_digits, digit_value, digits_value, is_digit, parse_u32, parse_u32_spec, push_char, split_spec,
    split_text, unsigned_part, views, lemma_split_append_plain, lemma_split_push_sep,
};

verus! {

/// Gregorian leap years, counted proleptically (Euclidean remainders).
pub open spec fn is_leap(y: int) -> bool {
    y % 4 == 0 && (y % 100 != 0 || y % 400 == 0)
}

pub open spec fn days_in_month(y: int, m: int) -> int {
    if m == 2 {
        if is_leap(y) {
            29
        } else {
            28
        }
    } else if m == 4 || m == 6 || m == 9 || m == 11 {
        30
    } else {
        31
    }
}

/// A day that exists in the calendar, within the years that chrono represents.
pub open spec fn valid_date(y: int, m: int, d: int) -> bool {
    -262143 <= y <= 262142 && 1 <= m <= 12 && 1 <= d <= days_in_month(y, m)
}

/// A valid day together with a valid 24-hour time of day.
pub open spec fn valid_datetime(y: int, mo: int, d: int, h: int, mi: int, s: int) -> bool {
    valid_date(y, mo, d) && 0 <= h < 24 && 0 <= mi < 60 && 0 <= s < 60
}

/// Tells whether a UTC instant with these components exists.
///
/// Relies on chrono's `TimeZone::with_ymd_and_hms` on `Utc`: it gives a
/// single instant exactly when the date exists (years -262143 to 262142) and
/// the time of day has hour < 24, minute < 60 and second < 60.
#[verifier::external_body]
fn utc_instant_exists(year: i32, month: u32, day: u32, hour: u32, minute: u32, second: u32) -> (r:
    bool)
    ensures
        r == valid_datetime(
            year as int,
            month as int,
            day as int,
            hour as int,
            minute as int,
            second as int,
        ),
{
    chrono::Utc.with_ymd_and_hms(year, month, day, hour, minute, second).single().is_some()
}

/// A calendar date as a date picker hands it over.
#[derive(Clone, Copy, Debug, PartialEq, Eq, Structural)]
pub struct CalendarDate {
    pub year: i32,
    pub month: u32,
    pub day: u32,
}

/// A UTC instant, whole seconds.
#[derive(Clone, Copy, Debug, PartialEq, Eq, Structural)]
pub struct Timestamp {
    pub year: i32,
    pub month: u32,
    pub day: u32,
    pub hour: u32,
    pub minute: u32,
    pub second: u32,
}

impl Timestamp {
    pub open spec fn wf(self) -> bool {
        valid_datetime(
            self.year as int,
            self.month as int,
            self.day as int,
            self.hour as int,
            self.minute as int,
            self.second as int,
        )
    }

    /// The instant with these components, or `None` where no such instant
    /// exists (a day beyond the month's end, an hour of 24, ...).
    pub fn from_parts(year: i32, month: u32, day: u32, hour: u32, minute: u32, second: u32) -> (r:
        Option<Timestamp>)
        ensures
            r is Some <==> valid_datetime(
                year as int,
                month as int,
                day as int,
                hour as int,
                minute as int,
                second as int,
            ),
            r matches Some(t) ==> t.wf() && t == (Timestamp { year, month, day, hour, minute, second }),
    {
        if utc_instant_exists(year, month, day, hour, minute, second) {
            Some(Timestamp { year, month, day, hour, minute, second })
        } else {
            None
        }
    }

    /// The calendar date of this instant.
    pub fn date(&self) -> (r: CalendarDate)
        ensures
            r == (CalendarDate { year: self.year, month: self.month, day: self.day }),
    {
        CalendarDate { year: self.year, month: self.month, day: self.day }
    }
}

pub open spec fn digit_char(d: nat) -> char {
    if d == 0 {
        '0'
    } else if d == 1 {
        '1'
    } else if d == 2 {
        '2'
    } else if d == 3 {
        '3'
    } else if d == 4 {
        '4'
    } else if d == 5 {
        '5'
    } else if d == 6 {
        '6'
    } else if d == 7 {
        '7'
    } else if d == 8 {
        '8'
    } else {
        '9'
    }
}

/// `n` written with two decimal digits (`n` below 100).
pub open spec fn two_digits_spec(n: nat) -> Seq<char> {
    seq![digit_char(n / 10), digit_char(n % 10)]
}

/// A time of day as text, `hh:mm:ss`.
pub open spec fn clock_text_spec(h: nat, m: nat, s: nat) -> Seq<char> {
    two_digits_spec(h).push(':') + two_digits_spec(m).push(':') + two_digits_spec(s)
}

/// The number in piece `i`, or 0 where there is no such piece or it is no number.
pub open spec fn field_or_zero(p: Seq<Seq<char>>, i: int) -> u32 {
    if 0 <= i < p.len() {
        match parse_u32_spec(p[i]) {
            Some(v) => v,
            None => 0,
        }
    } else {
        0
    }
}

/// Hour, minute and second read from a time of day written `h:m:s`; each
/// part that is missing or is no number counts as 0.
pub open spec fn clock_fields_spec(t: Seq<char>) -> (u32, u32, u32) {
    let p = split_spec(t, ':');
    (field_or_zero(p, 0), field_or_zero(p, 1), field_or_zero(p, 2))
}

fn digit_char_of(d: u32) -> (c: char)
    requires
        d < 10,
    ensures
        c == digit_char(d as nat),
{
    if d == 0 {
        '0'
    } else if d == 1 {
        '1'
    } else if d == 2 {
        '2'
    } else if d == 3 {
        '3'
    } else if d == 4 {
        '4'
    } else if d == 5 {
        '5'
    } else if d == 6 {
        '6'
    } else if d == 7 {
        '7'
    } else if d == 8 {
        '8'
    } else {
        '9'
    }
}

/// Writes a time of day as `hh:mm:ss`.
pub fn clock_text(hour: u32, minute: u32, second: u32) -> (r: String)
    requires
        hour < 100,
        minute < 100,
        second < 100,
    ensures
        r@ == clock_text_spec(hour as nat, minute as nat, second as nat),
{
    let mut r = String::new();
    push_char(&mut r, digit_char_of(hour / 10));
    push_char(&mut r, digit_char_of(hour % 10));
    push_char(&mut r, ':');
    push_char(&mut r, digit_char_of(minute / 10));
    push_char(&mut r, digit_char_of(minute % 10));
    push_char(&mut r, ':');
    push_char(&mut r, digit_char_of(second / 10));
    push_char(&mut r, digit_char_of(second % 10));
    proof {
        assert(r@ =~= clock_text_spec(hour as nat, minute as nat, second as nat));
    }
    r
}

/// Reads hour, minute and second from a time of day written `h:m:s`; a part
/// that is missing or that is no number gives 0.
pub fn clock_fields(t: &str) -> (r: (u32, u32, u32))
    ensures
        r == clock_fields_spec(t@),
{
    let pieces = split_text(t, ':');
    let mut out: [u32; 3] = [0, 0, 0];
    let mut i: usize = 0;
    while i < 3
        invariant
            views(pieces@) == split_spec(t@, ':'),
            i <= 3,
            forall|k: int| 0 <= k < i ==> out[k] == field_or_zero(views(pieces@), k),
        decreases 3 - i,
    {
        if i < pieces.len() {
            match parse_u32(pieces[i].as_str()) {
                Some(v) => {
                    out[i] = v;
                },
                None => {
                    out[i] = 0;
                },
            }
        } else {
            out[i] = 0;
        }
        i = i + 1;
    }
    (out[0], out[1], out[2])
}

proof fn lemma_digit_char(d: nat)
    requires
        d < 10,
    ensures
        is_digit(digit_char(d)),
        digit_value(digit_char(d)) == d,
{
}

proof fn lemma_two_digits_value(n: nat)
    requires
        n < 100,
    ensures
        parse_u32_spec(two_digits_spec(n)) == Some(n as u32),
        split_spec(two_digits_spec(n), ':') == seq![two_digits_spec(n)],
{
    let t = two_digits_spec(n);
    lemma_digit_char(n / 10);
    lemma_digit_char(n % 10);
    assert(is_digit(t[0]) && is_digit(t[1]));
    assert(unsigned_part(t) == t);
    assert(all_digits(t));
    assert(t.drop_last() =~= seq![t[0]]);
    assert(seq![t[0]].drop_last() =~= Seq::<char>::empty());
    assert(digits_value(Seq::<char>::empty()) == 0);
    assert(digits_value(seq![t[0]]) == digits_value(seq![t[0]].drop_last()) * 10 + digit_value(
        seq![t[0]].last(),
    ));
    assert(digits_value(seq![t[0]]) == digit_value(t[0]));
    assert(t.last() == t[1]);
    assert(digits_value(t) == digits_value(t.drop_last()) * 10 + digit_value(t.last()));
    assert(digits_value(t.drop_last()) == n / 10);
    assert(digits_value(t) == n);
    lemma_split_append_plain(Seq::empty(), t, ':');
    assert(Seq::<char>::empty() + t =~= t);
    assert(split_spec(Seq::<char>::empty(), ':') =~= seq![Seq::<char>::empty()]);
    assert(seq![Seq::<char>::empty()].update(0, Seq::<char>::empty() + t) =~= seq![t]);
}

/// Reading back a time of day written as `hh:mm:ss` gives its three parts.
pub proof fn lemma_clock_text_round_trip(h: nat, m: nat, s: nat)
    requires
        h < 100,
        m < 100,
        s < 100,
    ensures
        clock_fields_spec(clock_text_spec(h, m, s)) == (h as u32, m as u32, s as u32),
{
    let a = two_digits_spec(h);
    let b = two_digits_spec(m);
    let c = two_digits_spec(s);
    lemma_two_digits_value(h);
    lemma_two_digits_value(m);
    lemma_two_digits_value(s);
    lemma_split_push_sep(a, ':');
    lemma_split_append_plain(a.push(':'), b, ':');
    let ab = a.push(':') + b;
    assert(split_spec(ab, ':') =~= seq![a, b]);
    lemma_split_push_sep(ab, ':');
    lemma_split_append_plain(ab.push(':'), c, ':');
    assert(clock_text_spec(h, m, s) =~= ab.push(':') + c);
    assert(split_spec(clock_text_spec(h, m, s), ':') =~= seq![a, b, c]);
}

/// A time of day without a colon has only an hour part: minute and second
/// are 0.
pub proof fn lemma_clock_fields_single(t: Seq<char>)
    requires
        !t.contains(':'),
    ensures
        clock_fields_spec(t) == (
            match parse_u32_spec(t) {
                Some(v) => v,
                None => 0,
            },
            0u32,
            0u32,
        ),
{
    lemma_split_append_plain(Seq::empty(), t, ':');
    assert(Seq::<char>::empty() + t =~= t);
    assert(split_spec(Seq::<char>::empty(), ':') =~= seq![Seq::<char>::empty()]);
    assert(seq![Seq::<char>::empty()].update(0, Seq::<char>::empty() + t) =~= seq![t]);
}

} // verus!
