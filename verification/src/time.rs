//! Wall-clock values and the time-derived file name keys.
//!
//! The clock itself is read through `chrono`; everything computed from a
//! clock reading — the 14-digit `YYYYMMDDHHMMSS` timestamp key and the
//! 8-digit `YYYYMMDD` day key that journal file names are built from — is
//! verified here.

use vstd::prelude::*;

use chrono::{Datelike, Timelike};

verus! {

/// A broken-down wall-clock time, as plain values.
#[derive(Clone, Copy, PartialEq, Eq, Structural)]
pub struct StampTime {
    pub year: u16,
    pub month: u8,
    pub day: u8,
    pub hour: u8,
    pub minute: u8,
    pub second: u8,
}

impl StampTime {
    /// A calendar-plausible reading whose year fits in four digits.
    pub open spec fn wf(self) -> bool {
        self.year <= 9999 && 1 <= self.month <= 12 && 1 <= self.day <= 31 && self.hour <= 23
            && self.minute <= 59 && self.second <= 59
    }
}

/// A clock reading: seconds since the epoch beside its broken-down form.
#[derive(Clone, Copy, PartialEq, Eq, Structural)]
pub struct Clock {
    pub epoch: u64,
    pub stamp: StampTime,
}

/// What the system clock hands back, before validation.
#[derive(Clone, Copy, PartialEq, Eq, Structural)]
pub struct RawClock {
    pub epoch: i64,
    pub year: i32,
    pub month: u32,
    pub day: u32,
    pub hour: u32,
    pub minute: u32,
    pub second: u32,
}

/// Relies on `chrono::Local::now` and its accessors: `month` ranges over
/// 1..=12, `day` over 1..=31, `hour` over 0..=23, `minute` and `second`
/// over 0..=59; nothing is promised of the year or of the epoch count.
#[verifier::external_body]
fn read_local_clock() -> (r: RawClock)
    ensures
        1 <= r.month <= 12,
        1 <= r.day <= 31,
        r.hour <= 23,
        r.minute <= 59,
        r.second <= 59,
{
    let now = chrono::Local::now();
    RawClock {
        epoch: now.timestamp(),
        year: now.year(),
        month: now.month(),
        day: now.day(),
        hour: now.hour(),
        minute: now.minute(),
        second: now.second(),
    }
}

/// Validate and convert one raw clock reading: it is accepted exactly
/// when the epoch count is not before the epoch and the year fits in four
/// digits, and every accepted field is carried over unchanged.
pub fn validate_clock(raw: RawClock) -> (r: Option<Clock>)
    ensures
        r is Some <==> (0 <= raw.epoch && 0 <= raw.year <= 9999),
        match r {
            Some(c) => c.epoch == raw.epoch as u64 && c.stamp.year == raw.year as u16
                && c.stamp.month == raw.month as u8 && c.stamp.day == raw.day as u8
                && c.stamp.hour == raw.hour as u8 && c.stamp.minute == raw.minute as u8
                && c.stamp.second == raw.second as u8,
            None => true,
        },
{
    if raw.epoch < 0 || raw.year < 0 || raw.year > 9999 {
        return None;
    }
    Some(
        Clock {
            epoch: raw.epoch as u64,
            stamp: StampTime {
                year: raw.year as u16,
                month: raw.month as u8,
                day: raw.day as u8,
                hour: raw.hour as u8,
                minute: raw.minute as u8,
                second: raw.second as u8,
            },
        },
    )
}

/// The current wall-clock time, validated by `validate_clock`: `None`
/// only when the machine clock stands outside the years 0..=9999 or
/// before the epoch.
pub fn current_clock() -> (r: Option<Clock>)
    ensures
        match r {
            Some(c) => c.stamp.wf(),
            None => true,
        },
{
    let raw = read_local_clock();
    validate_clock(raw)
}

/// The decimal digit character for `d`.
pub open spec fn spec_digit(d: int) -> char {
    if d == 0 {
        '0'
    } else if d == 1 {
        '1'
    } else if d == 2 {
        '2'
    } else if d == 3 {
        '3'
    } else if d == 4 {
        '4'
    } else if d == 5 {
        '5'
    } else if d == 6 {
        '6'
    } else if d == 7 {
        '7'
    } else if d == 8 {
        '8'
    } else {
        '9'
    }
}

pub open spec fn is_digit_char(c: char) -> bool {
    c == '0' || c == '1' || c == '2' || c == '3' || c == '4' || c == '5' || c == '6' || c == '7'
        || c == '8' || c == '9'
}

pub fn is_digit(c: char) -> (r: bool)
    ensures
        r == is_digit_char(c),
{
    c == '0' || c == '1' || c == '2' || c == '3' || c == '4' || c == '5' || c == '6' || c == '7'
        || c == '8' || c == '9'
}

fn digit_str(d: u16) -> (r: &'static str)
    requires
        d <= 9,
    ensures
        r@ == seq![spec_digit(d as int)],
{
    proof {
        reveal_strlit("0");
        reveal_strlit("1");
        reveal_strlit("2");
        reveal_strlit("3");
        reveal_strlit("4");
        reveal_strlit("5");
        reveal_strlit("6");
        reveal_strlit("7");
        reveal_strlit("8");
        reveal_strlit("9");
    }
    let r = if d == 0 {
        "0"
    } else if d == 1 {
        "1"
    } else if d == 2 {
        "2"
    } else if d == 3 {
        "3"
    } else if d == 4 {
        "4"
    } else if d == 5 {
        "5"
    } else if d == 6 {
        "6"
    } else if d == 7 {
        "7"
    } else if d == 8 {
        "8"
    } else {
        "9"
    };
    proof {
        assert(r@ =~= seq![spec_digit(d as int)]);
    }
    r
}

/// `n` zero-padded to two decimal digits.
pub open spec fn spec_pad2(n: int) -> Seq<char> {
    seq![spec_digit(n / 10), spec_digit(n % 10)]
}

/// `n` zero-padded to four decimal digits.
pub open spec fn spec_pad4(n: int) -> Seq<char> {
    seq![
        spec_digit(n / 1000),
        spec_digit((n / 100) % 10),
        spec_digit((n / 10) % 10),
        spec_digit(n % 10),
    ]
}

fn pad2(n: u8) -> (r: String)
    requires
        n <= 99,
    ensures
        r@ == spec_pad2(n as int),
{
    let r = String::from_str(digit_str((n / 10) as u16)).concat(digit_str((n % 10) as u16));
    proof {
        assert(r@ =~= spec_pad2(n as int));
    }
    r
}

fn pad4(n: u16) -> (r: String)
    requires
        n <= 9999,
    ensures
        r@ == spec_pad4(n as int),
{
    let r = String::from_str(digit_str(n / 1000)).concat(digit_str((n / 100) % 10)).concat(
        digit_str((n / 10) % 10),
    ).concat(digit_str(n % 10));
    proof {
        assert(r@ =~= spec_pad4(n as int));
    }
    r
}

/// The 14-digit timestamp key, `YYYYMMDDHHMMSS`.
pub open spec fn spec_timestamp_key(t: StampTime) -> Seq<char> {
    spec_pad4(t.year as int) + spec_pad2(t.month as int) + spec_pad2(t.day as int) + spec_pad2(
        t.hour as int,
    ) + spec_pad2(t.minute as int) + spec_pad2(t.second as int)
}

/// The 8-digit day key, `YYYYMMDD`.
pub open spec fn spec_day_key(t: StampTime) -> Seq<char> {
    spec_pad4(t.year as int) + spec_pad2(t.month as int) + spec_pad2(t.day as int)
}

pub fn timestamp_key(t: &StampTime) -> (r: String)
    requires
        t.wf(),
    ensures
        r@ == spec_timestamp_key(*t),
{
    pad4(t.year).concat(pad2(t.month).as_str()).concat(pad2(t.day).as_str()).concat(
        pad2(t.hour).as_str(),
    ).concat(pad2(t.minute).as_str()).concat(pad2(t.second).as_str())
}

pub fn day_key(t: &StampTime) -> (r: String)
    requires
        t.wf(),
    ensures
        r@ == spec_day_key(*t),
{
    pad4(t.year).concat(pad2(t.month).as_str()).concat(pad2(t.day).as_str())
}

/// Every character of a padded field is a decimal digit, so the keys match
/// the all-digit part of the file name grammar.
pub proof fn lemma_pad_digits(n: int)
    ensures
        forall|i: int| 0 <= i < 2 ==> is_digit_char(spec_pad2(n)[i]),
        forall|i: int| 0 <= i < 4 ==> is_digit_char(spec_pad4(n)[i]),
{
}

/// The timestamp key is 14 digits; the day key is 8 digits.
pub proof fn lemma_key_shape(t: StampTime)
    ensures
        spec_timestamp_key(t).len() == 14,
        spec_day_key(t).len() == 8,
        forall|i: int| 0 <= i < 14 ==> is_digit_char(spec_timestamp_key(t)[i]),
        forall|i: int| 0 <= i < 8 ==> is_digit_char(spec_day_key(t)[i]),
{
    assert forall|i: int| 0 <= i < 14 implies is_digit_char(spec_timestamp_key(t)[i]) by {
        lemma_pad_digits(t.year as int);
        lemma_pad_digits(t.month as int);
        lemma_pad_digits(t.day as int);
        lemma_pad_digits(t.hour as int);
        lemma_pad_digits(t.minute as int);
        lemma_pad_digits(t.second as int);
    }
    assert forall|i: int| 0 <= i < 8 implies is_digit_char(spec_day_key(t)[i]) by {
        lemma_pad_digits(t.year as int);
        lemma_pad_digits(t.month as int);
        lemma_pad_digits(t.day as int);
    }
}

} // verus!
