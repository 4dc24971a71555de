//! A calendar date and time of day in seven bytes, always UTC.

use crate::endian::{
    le_bytes, le_value, lemma_le_bytes_len, lemma_le_value_of_bytes, lemma_pow256_values,
    read_u16_le, write_u16_le,
};
use crate::error::DecodeError;
use std::cmp::Ordering;
use vstd::prelude::*;
use vstd::slice::slice_subrange;
use vstd::std_specs::cmp::PartialOrdSpecImpl;

verus! {

/// The number of bytes of an encoded timestamp.
pub const TIMESTAMP_SIZE: usize = 7;

/// A date and a time of day, to the second. There is no time zone: every
/// value is read as UTC.
#[derive(Debug, Copy, Clone, PartialEq, Eq, Structural, Ord)]
pub struct Timestamp {
    pub year: u16,
    pub month: u8,
    pub day: u8,
    pub hour: u8,
    pub minute: u8,
    pub second: u8,
}

/// Whether February has twenty-nine days in `year`.
pub open spec fn is_leap_year(year: int) -> bool {
    year % 4 == 0 && (year % 100 != 0 || year % 400 == 0)
}

/// The number of days of `month` in `year`, for a month from 1 to 12.
pub open spec fn days_in_month(year: int, month: int) -> int {
    if month == 2 {
        if is_leap_year(year) {
            29
        } else {
            28
        }
    } else if month == 4 || month == 6 || month == 9 || month == 11 {
        30
    } else {
        31
    }
}

/// The number of seconds from the start of 1970 (UTC) to the given date and
/// time, negative before it, as the calendar library counts them.
pub uninterp spec fn civil_seconds(
    year: int,
    month: int,
    day: int,
    hour: int,
    minute: int,
    second: int,
) -> int;

/// Calls `chrono::NaiveDate::from_ymd_opt`, `NaiveDate::and_hms_opt`,
/// `NaiveDateTime::and_utc` and `DateTime::timestamp` in turn: the number of
/// seconds since the start of 1970 of a date that exists. The first two return
/// `None` for a date or time that does not exist, which `requires` leaves out.
#[verifier::external_body]
fn seconds_since_epoch(t: &Timestamp) -> (secs: i64)
    requires
        t.spec_is_valid(),
    ensures
        secs as int == civil_seconds(
            t.year as int,
            t.month as int,
            t.day as int,
            t.hour as int,
            t.minute as int,
            t.second as int,
        ),
{
    chrono::NaiveDate::from_ymd_opt(t.year.into(), t.month.into(), t.day.into())
        .unwrap()
        .and_hms_opt(t.hour.into(), t.minute.into(), t.second.into())
        .unwrap()
        .and_utc()
        .timestamp()
}

/// Whether the six numbers name a day of the calendar and a time of that
/// day, to the second.
pub open spec fn is_calendar_time(
    year: int,
    month: int,
    day: int,
    hour: int,
    minute: int,
    second: int,
) -> bool {
    &&& 1 <= month <= 12
    &&& 1 <= day <= days_in_month(year, month)
    &&& 0 <= hour < 24
    &&& 0 <= minute < 60
    &&& 0 <= second < 60
}

/// Calls `chrono::Utc::now` and hands back the calendar fields of what it
/// returns: year, month, day, hour, minute and second. Which time that is
/// depends on the clock; whatever it is, it is a time of chrono, whose date
/// is a day of the calendar and whose fields of the time of day are below 24,
/// 60 and 60. `Utc::now` panics where the clock stands before 1970 or beyond
/// the dates that chrono holds.
#[verifier::external_body]
fn utc_now_fields() -> (fields: (i32, u32, u32, u32, u32, u32))
    ensures
        is_calendar_time(
            fields.0 as int,
            fields.1 as int,
            fields.2 as int,
            fields.3 as int,
            fields.4 as int,
            fields.5 as int,
        ),
{
    let t = chrono::Utc::now();
    (
        chrono::Datelike::year(&t),
        chrono::Datelike::month(&t),
        chrono::Datelike::day(&t),
        chrono::Timelike::hour(&t),
        chrono::Timelike::minute(&t),
        chrono::Timelike::second(&t),
    )
}

impl Timestamp {
    /// Whether the fields name a date of the calendar and a time of day.
    pub open spec fn spec_is_valid(&self) -> bool {
        &&& 1 <= self.month <= 12
        &&& 1 <= self.day <= days_in_month(self.year as int, self.month as int)
        &&& self.hour < 24
        &&& self.minute < 60
        &&& self.second < 60
    }

    /// The seven bytes of a timestamp: the year in two, then a byte for each
    /// other field.
    pub open spec fn spec_bytes(&self) -> Seq<u8> {
        le_bytes(self.year as nat, 2) + seq![
            self.month,
            self.day,
            self.hour,
            self.minute,
            self.second,
        ]
    }

    /// The timestamp that the first seven bytes of `s` stand for.
    pub open spec fn spec_from_bytes(s: Seq<u8>) -> Timestamp {
        Timestamp {
            year: le_value(s.subrange(0, 2)) as u16,
            month: s[2],
            day: s[3],
            hour: s[4],
            minute: s[5],
            second: s[6],
        }
    }

    /// The seconds from `self` to `date`, cut to thirty-two bits: the true
    /// count where `date` is not before `self` and less than about 136 years
    /// after it.
    pub open spec fn spec_offset(&self, date: &Timestamp) -> int {
        (self.seconds_to(date)) % 0x1_0000_0000
    }

    /// The seconds from `self` to `date`, negative where `date` is earlier.
    pub open spec fn seconds_to(&self, date: &Timestamp) -> int {
        date.epoch_seconds() - self.epoch_seconds()
    }

    /// The seconds from the start of 1970 to `self`.
    pub open spec fn epoch_seconds(&self) -> int {
        civil_seconds(
            self.year as int,
            self.month as int,
            self.day as int,
            self.hour as int,
            self.minute as int,
            self.second as int,
        )
    }

    /// Whether `self` comes before `other`: the fields are compared in the
    /// order year, month, day, hour, minute, second.
    pub open spec fn is_before(&self, other: &Timestamp) -> bool {
        ||| self.year < other.year
        ||| self.year == other.year && self.month < other.month
        ||| self.year == other.year && self.month == other.month && self.day < other.day
        ||| self.year == other.year && self.month == other.month && self.day == other.day
            && self.hour < other.hour
        ||| self.year == other.year && self.month == other.month && self.day == other.day
            && self.hour == other.hour && self.minute < other.minute
        ||| self.year == other.year && self.month == other.month && self.day == other.day
            && self.hour == other.hour && self.minute == other.minute && self.second
            < other.second
    }

    /// Checks that the fields name a date of the calendar and a time of day.
    #[verifier::when_used_as_spec(spec_is_valid)]
    pub fn is_valid(&self) -> (valid: bool)
        ensures
            valid == self.spec_is_valid(),
    {
        if self.month < 1 || self.month > 12 || self.day < 1 {
            return false;
        }
        if self.hour >= 24 || self.minute >= 60 || self.second >= 60 {
            return false;
        }
        let last: u8 = if self.month == 2 {
            let leap = self.year % 4 == 0 && (self.year % 100 != 0 || self.year % 400 == 0);
            if leap {
                29
            } else {
                28
            }
        } else if self.month == 4 || self.month == 6 || self.month == 9 || self.month == 11 {
            30
        } else {
            31
        };
        self.day <= last
    }

    /// Encodes the timestamp in seven bytes.
    pub fn as_bytes(&self) -> (bytes: Vec<u8>)
        ensures
            bytes@ == self.spec_bytes(),
            bytes@.len() == TIMESTAMP_SIZE,
    {
        let mut store: Vec<u8> = Vec::with_capacity(7);
        write_u16_le(&mut store, self.year);
        store.push(self.month);
        store.push(self.day);
        store.push(self.hour);
        store.push(self.minute);
        store.push(self.second);
        proof {
            lemma_le_bytes_len(self.year as nat, 2);
            assert(store@ =~= self.spec_bytes());
        }
        store
    }

    /// Decodes a timestamp from the first seven bytes of `d`, and fails where
    /// `d` is shorter. Any seven bytes decode: the fields are not checked.
    pub fn from_bytes(d: &[u8]) -> (r: Result<Timestamp, DecodeError>)
        ensures
            d@.len() >= TIMESTAMP_SIZE ==> r == Ok::<Timestamp, DecodeError>(
                Timestamp::spec_from_bytes(d@),
            ),
            d@.len() < TIMESTAMP_SIZE ==> r == Err::<Timestamp, DecodeError>(
                (DecodeError { needed: TIMESTAMP_SIZE, found: d@.len() as usize }),
            ),
    {
        if d.len() < 7 {
            return Err(DecodeError { needed: 7, found: d.len() });
        }
        let year = read_u16_le(slice_subrange(d, 0, 2));
        assert(d@.subrange(0, 2).subrange(0, 2) =~= d@.subrange(0, 2));
        Ok(Timestamp { year, month: d[2], day: d[3], hour: d[4], minute: d[5], second: d[6] })
    }

    /// Builds a timestamp from calendar fields as wide as a calendar library
    /// hands them out, if each fits its field here. The fields are not checked
    /// against the calendar.
    pub fn from_calendar(
        year: i32,
        month: u32,
        day: u32,
        hour: u32,
        minute: u32,
        second: u32,
    ) -> (r: Option<Timestamp>)
        ensures
            r is Some <==> 0 <= year <= 0xffff && month <= 0xff && day <= 0xff && hour <= 0xff
                && minute <= 0xff && second <= 0xff,
            r matches Some(t) ==> t.year == year && t.month == month && t.day == day && t.hour
                == hour && t.minute == minute && t.second == second,
    {
        if year < 0 || year > 0xffff || month > 0xff || day > 0xff || hour > 0xff || minute > 0xff
            || second > 0xff {
            return None;
        }
        Some(
            Timestamp {
                year: year as u16,
                month: month as u8,
                day: day as u8,
                hour: hour as u8,
                minute: minute as u8,
                second: second as u8,
            },
        )
    }

    /// Reads the clock: the current UTC date and time, to the second, if the
    /// clock's year fits. Which time the clock gives is not known beforehand;
    /// whichever it gives is a valid date.
    pub fn now() -> (r: Option<Timestamp>)
        ensures
            r matches Some(t) ==> t.spec_is_valid(),
    {
        let f = utc_now_fields();
        Timestamp::from_calendar(f.0, f.1, f.2, f.3, f.4, f.5)
    }

    /// Computes the number of seconds from `self` to `date`, negative where
    /// `date` is earlier. Both must be valid dates.
    fn seconds_until(&self, date: &Timestamp) -> (diff: i128)
        requires
            self.spec_is_valid(),
            date.spec_is_valid(),
        ensures
            diff as int == self.seconds_to(date),
            -0x1_0000_0000_0000_0000 <= diff <= 0x1_0000_0000_0000_0000,
    {
        let me: i64 = seconds_since_epoch(self);
        let other: i64 = seconds_since_epoch(date);
        other as i128 - me as i128
    }

    /// Computes the number of seconds from `self` to `date`, cut to thirty-two
    /// bits: where `date` is before `self`, or more than about 136 years
    /// after it, the result is not the distance. Both must be valid dates.
    pub fn offset(&self, date: &Timestamp) -> (secs: u32)
        requires
            self.spec_is_valid(),
            date.spec_is_valid(),
        ensures
            secs as int == self.spec_offset(date),
            0 <= self.seconds_to(date) < 0x1_0000_0000 ==> secs as int == self.seconds_to(date),
    {
        wrap_to_u32(self.seconds_until(date))
    }

    /// Computes the number of seconds from `self` to `date`, and refuses
    /// where `date` is before `self` or the number does not fit in
    /// thirty-two bits. Both must be valid dates.
    pub fn checked_offset(&self, date: &Timestamp) -> (secs: Option<u32>)
        requires
            self.spec_is_valid(),
            date.spec_is_valid(),
        ensures
            0 <= self.seconds_to(date) < 0x1_0000_0000 ==> secs == Some(
                self.seconds_to(date) as u32,
            ),
            !(0 <= self.seconds_to(date) < 0x1_0000_0000) ==> secs.is_none(),
            secs matches Some(n) ==> n as int == self.spec_offset(date),
    {
        let diff: i128 = self.seconds_until(date);
        if 0 <= diff && diff <= 0xffff_ffff {
            Some(diff as u32)
        } else {
            None
        }
    }
}

impl PartialOrd for Timestamp {
    /// Compares two timestamps field by field: year, month, day, hour, minute,
    /// second.
    fn partial_cmp(&self, other: &Timestamp) -> (r: Option<Ordering>) {
        if self.year != other.year {
            Some(order_of(self.year < other.year))
        } else if self.month != other.month {
            Some(order_of(self.month < other.month))
        } else if self.day != other.day {
            Some(order_of(self.day < other.day))
        } else if self.hour != other.hour {
            Some(order_of(self.hour < other.hour))
        } else if self.minute != other.minute {
            Some(order_of(self.minute < other.minute))
        } else if self.second != other.second {
            Some(order_of(self.second < other.second))
        } else {
            Some(Ordering::Equal)
        }
    }
}

impl PartialOrdSpecImpl for Timestamp {
    open spec fn obeys_partial_cmp_spec() -> bool {
        true
    }

    open spec fn partial_cmp_spec(&self, other: &Timestamp) -> Option<Ordering> {
        if self.is_before(other) {
            Some(Ordering::Less)
        } else if *self == *other {
            Some(Ordering::Equal)
        } else {
            Some(Ordering::Greater)
        }
    }
}

/// The order of two different values, the first of which is smaller or not.
fn order_of(smaller: bool) -> (r: Ordering)
    ensures
        smaller ==> r == Ordering::Less,
        !smaller ==> r == Ordering::Greater,
{
    if smaller {
        Ordering::Less
    } else {
        Ordering::Greater
    }
}

/// Cuts a number to its low thirty-two bits.
fn wrap_to_u32(diff: i128) -> (low: u32)
    requires
        -0x1_0000_0000_0000_0000 <= diff <= 0x1_0000_0000_0000_0000,
    ensures
        low as int == (diff as int) % 0x1_0000_0000,
{
    let modulus: i128 = 0x1_0000_0000;
    if diff >= 0 {
        let m: i128 = diff % modulus;
        m as u32
    } else {
        let back: i128 = (-diff) % modulus;
        assert((diff as int) % 0x1_0000_0000 == if back == 0 {
            0
        } else {
            0x1_0000_0000 - back
        }) by (nonlinear_arith)
            requires
                diff < 0,
                back == (-diff) % 0x1_0000_0000,
        ;
        if back == 0 {
            0
        } else {
            (modulus - back) as u32
        }
    }
}

/// Encoding and decoding give the timestamp back.
pub proof fn lemma_timestamp_roundtrip(t: Timestamp)
    ensures
        t.spec_bytes().len() == TIMESTAMP_SIZE,
        Timestamp::spec_from_bytes(t.spec_bytes()) == t,
{
    let b = t.spec_bytes();
    lemma_le_bytes_len(t.year as nat, 2);
    lemma_pow256_values();
    lemma_le_value_of_bytes(t.year as nat, 2);
    assert(b.subrange(0, 2) =~= le_bytes(t.year as nat, 2));
}

} // verus!
