//! Wire codecs of the temporal types.
//!
//! Every temporal value travels as a signed integer counted from the protocol
//! epoch, 2000-01-01 00:00:00 UTC: a time of day as microseconds since
//! midnight, a date as days since the epoch, a timestamp as microseconds
//! since the epoch.

use vstd::prelude::*;
use vstd::arithmetic::div_mod::lemma_fundamental_div_mod_converse;
use crate::calendar::{
    date_days_since, date_plus_days, date_text, day_number_of_ymd, format_date, format_instant,
    format_time, instant_micros_since, instant_nanos_between, instant_plus_micros, instant_text,
    time_micros_since, time_plus_micros, time_text, toward_zero, valid_day, valid_time,
    ymd_day_number, MAX_DAY, MIN_DAY, NANOS_PER_SEC,
};
use crate::catalog::{HasSqlType, PgTypeInfo, Postgres, TypeId};
use crate::codec::{Decode, Encode};
use crate::error::{DecodeError, EncodeError};
use crate::wire::{
    be_bytes, be_value, lemma_be_digits_len, lemma_bytes_of_value, lemma_radix_values,
    lemma_value_of_bytes, residue,
};

verus! {

/// The day number of the protocol epoch, 2000-01-01.
pub const EPOCH_DAY: i32 = 730_120;

/// The microseconds of a second.
pub const MICROS_PER_SEC: i64 = 1_000_000;

/// The microseconds of a day without a leap second.
pub const MICROS_PER_DAY: i64 = 86_400_000_000;

/// What a time of day is: the seconds since midnight and the nanoseconds
/// within that second.
pub struct Clock {
    pub secs: int,
    pub frac: int,
}

/// What a timestamp is: the day number of its date and the time of that day.
pub struct Instant {
    pub day: int,
    pub secs: int,
    pub frac: int,
}

/// Counting in nanoseconds in place of microseconds changes neither the day,
/// nor the second of the day, nor the part of the second that a count falls on.
pub proof fn lemma_micros_as_nanos(micros: int)
    ensures
        (micros * 1000) / 86_400_000_000_000 == micros / 86_400_000_000,
        ((micros * 1000) % 86_400_000_000_000) / 1_000_000_000 == (micros % 86_400_000_000)
            / 1_000_000,
        (micros * 1000) % 1_000_000_000 == (micros % 1_000_000) * 1000,
{
    let in_day = micros % 86_400_000_000;
    lemma_fundamental_div_mod_converse(
        micros * 1000,
        1_000_000_000,
        micros / 1_000_000,
        (micros % 1_000_000) * 1000,
    );
    lemma_fundamental_div_mod_converse(
        micros * 1000,
        86_400_000_000_000,
        micros / 86_400_000_000,
        in_day * 1000,
    );
    lemma_fundamental_div_mod_converse(
        in_day * 1000,
        1_000_000_000,
        in_day / 1_000_000,
        (in_day % 1_000_000) * 1000,
    );
}

/// A time of day without a time zone, to the nanosecond.
#[derive(Clone, Copy, Debug, PartialEq, Eq, Structural)]
pub struct Time {
    secs: u32,
    frac: u32,
}

impl View for Time {
    type V = Clock;

    closed spec fn view(&self) -> Clock {
        Clock { secs: self.secs as int, frac: self.frac as int }
    }
}

impl Time {
    #[verifier::type_invariant]
    closed spec fn inv(self) -> bool {
        valid_time(self.secs as int, self.frac as int)
    }

    /// Whether the value is a time of day. Every value that a program holds is.
    pub open spec fn wf(&self) -> bool {
        valid_time(self@.secs, self@.frac)
    }

    /// The time of day `frac` nanoseconds into second `secs` of the day.
    pub closed spec fn at(secs: int, frac: int) -> Time {
        Time { secs: secs as u32, frac: frac as u32 }
    }

    /// The time of day that lies `micros` microseconds after midnight, whole
    /// days dropped.
    pub open spec fn of_micros(micros: int) -> Time {
        Time::at(
            (micros % (MICROS_PER_DAY as int)) / (MICROS_PER_SEC as int),
            (micros % (MICROS_PER_SEC as int)) * 1000,
        )
    }

    /// The whole microseconds from midnight to this time.
    pub open spec fn micros_of_day(&self) -> int {
        self@.secs * MICROS_PER_SEC + self@.frac / 1000
    }

    /// The time made of the seconds and nanoseconds of a time of day has
    /// just these.
    pub proof fn lemma_at(secs: int, frac: int)
        requires
            valid_time(secs, frac),
        ensures
            Time::at(secs, frac)@ == (Clock { secs, frac }),
            Time::at(secs, frac).wf(),
    {
    }

    /// A time of day is known by its seconds and nanoseconds.
    pub proof fn lemma_same_view(a: Time, b: Time)
        requires
            a@ == b@,
        ensures
            a == b,
    {
    }

    /// The time of day `frac` nanoseconds into second `secs` of the day, or
    /// `None` where the two numbers are no time of day.
    pub fn from_seconds(secs: u32, frac: u32) -> (r: Option<Time>)
        ensures
            r == if valid_time(secs as int, frac as int) {
                Some(Time::at(secs as int, frac as int))
            } else {
                None
            },
    {
        if secs < 86_400 && frac < 2_000_000_000 && (frac < 1_000_000_000 || secs % 60 == 59) {
            Some(Time { secs, frac })
        } else {
            None
        }
    }

    /// The time `hour`:`min`:`sec`, or `None` where one of them is out of range.
    pub fn from_hms(hour: u32, min: u32, sec: u32) -> (r: Option<Time>)
        ensures
            r == if hour < 24 && min < 60 && sec < 60 {
                Some(Time::at(hour * 3600 + min * 60 + sec, 0))
            } else {
                None
            },
    {
        if hour < 24 && min < 60 && sec < 60 {
            Some(Time { secs: hour * 3600 + min * 60 + sec, frac: 0 })
        } else {
            None
        }
    }

    /// Midnight, the start of the day.
    pub fn midnight() -> (r: Time)
        ensures
            r == Time::at(0, 0),
            r@ == (Clock { secs: 0, frac: 0 }),
    {
        Time { secs: 0, frac: 0 }
    }

    /// The seconds since midnight.
    pub fn seconds_from_midnight(&self) -> (secs: u32)
        ensures
            secs == self@.secs,
            self.wf(),
    {
        proof {
            use_type_invariant(self);
        }
        self.secs
    }

    /// The nanoseconds since the last whole second; a thousand million or
    /// more within a leap second.
    pub fn nanosecond(&self) -> (frac: u32)
        ensures
            frac == self@.frac,
            self.wf(),
    {
        proof {
            use_type_invariant(self);
        }
        self.frac
    }

    /// The time as text, `hh:mm:ss` and the fraction of the second if any.
    pub fn to_string(&self) -> (text: String)
        ensures
            text@ == time_text(self@.secs, self@.frac),
    {
        proof {
            use_type_invariant(self);
        }
        format_time(self.secs, self.frac)
    }
}

impl HasSqlType<Time> for Postgres {
    open spec fn backend_id() -> u32 {
        TypeId::TIME
    }

    open spec fn display_name() -> Seq<char> {
        "time"@
    }

    fn type_info() -> (info: PgTypeInfo) {
        PgTypeInfo::new(TypeId::TIME, "time")
    }
}

impl HasSqlType<[Time]> for Postgres {
    open spec fn backend_id() -> u32 {
        TypeId::ARRAY_TIME
    }

    open spec fn display_name() -> Seq<char> {
        "time[]"@
    }

    fn type_info() -> (info: PgTypeInfo) {
        PgTypeInfo::new(TypeId::ARRAY_TIME, "time[]")
    }
}

impl Encode<Postgres> for Time {
    open spec fn wire(&self) -> Option<Seq<u8>> {
        Some(be_bytes(self.micros_of_day(), 8))
    }

    open spec fn width() -> nat {
        8
    }

    fn encode(&self, buf: &mut Vec<u8>) -> (r: Result<(), EncodeError>) {
        proof {
            use_type_invariant(self);
        }
        match time_micros_since(self.secs, self.frac, 0, 0) {
            Some(micros) => <i64 as Encode<Postgres>>::encode(&micros, buf),
            None => Err(EncodeError::OutOfRange),
        }
    }

    fn size_hint(&self) -> (n: usize) {
        8
    }

    proof fn lemma_wire_width(&self) {
        lemma_be_digits_len(residue(self.micros_of_day(), 8), 8);
    }
}

impl Decode<Postgres> for Time {
    open spec fn parse(raw: Seq<u8>) -> Result<Self, DecodeError> {
        if raw.len() == 8 {
            Ok(Time::of_micros(be_value(raw)))
        } else {
            Err(DecodeError::Malformed)
        }
    }

    fn decode(raw: &[u8]) -> (r: Result<Self, DecodeError>) {
        let micros = match <i64 as Decode<Postgres>>::decode(raw) {
            Ok(micros) => micros,
            Err(e) => { return Err(e); },
        };
        proof {
            lemma_radix_values();
            lemma_bytes_of_value(raw@);
            lemma_micros_as_nanos(micros as int);
        }
        match time_plus_micros(0, 0, micros) {
            Some((secs, frac)) => Ok(Time { secs, frac }),
            None => Err(DecodeError::OutOfRange),
        }
    }
}

/// A calendar date without a time zone.
#[derive(Clone, Copy, Debug, PartialEq, Eq, Structural)]
pub struct Date {
    days: i32,
}

impl View for Date {
    type V = int;

    /// The day number of the date: January 1 of the year 1 is day 1.
    closed spec fn view(&self) -> int {
        self.days as int
    }
}

impl Date {
    #[verifier::type_invariant]
    closed spec fn inv(self) -> bool {
        valid_day(self.days as int)
    }

    /// Whether the value is a date of the calendar. Every value that a
    /// program holds is.
    pub open spec fn wf(&self) -> bool {
        valid_day(self@)
    }

    /// The date with the day number `day`.
    pub closed spec fn at(day: int) -> Date {
        Date { days: day as i32 }
    }

    /// The days from the protocol epoch to this date.
    pub open spec fn days_since_epoch(&self) -> int {
        self@ - EPOCH_DAY
    }

    /// The date made of the day number of a date of the calendar has just
    /// that day number.
    pub proof fn lemma_at(day: int)
        requires
            valid_day(day),
        ensures
            Date::at(day)@ == day,
            Date::at(day).wf(),
    {
    }

    /// A date is known by its day number.
    pub proof fn lemma_same_view(a: Date, b: Date)
        requires
            a@ == b@,
        ensures
            a == b,
    {
    }

    /// The date with the day number `day`, or `None` where the calendar does
    /// not reach that far.
    pub fn from_day_number(day: i32) -> (r: Option<Date>)
        ensures
            r == if valid_day(day as int) {
                Some(Date::at(day as int))
            } else {
                None
            },
    {
        if MIN_DAY <= day && day <= MAX_DAY {
            Some(Date { days: day })
        } else {
            None
        }
    }

    /// The date `year`-`month`-`day`, or `None` where the calendar has no
    /// such date.
    pub fn from_ymd(year: i32, month: u32, day: u32) -> (r: Option<Date>)
        ensures
            r == match ymd_day_number(year as int, month as int, day as int) {
                Some(number) if valid_day(number as int) => Some(Date::at(number as int)),
                _ => None,
            },
    {
        match day_number_of_ymd(year, month, day) {
            Some(number) => Date::from_day_number(number),
            None => None,
        }
    }

    /// The day number of the date.
    pub fn day_number(&self) -> (day: i32)
        ensures
            day == self@,
            self.wf(),
    {
        proof {
            use_type_invariant(self);
        }
        self.days
    }

    /// The date as text, `yyyy-mm-dd`.
    pub fn to_string(&self) -> (text: String)
        ensures
            text@ == date_text(self@),
    {
        proof {
            use_type_invariant(self);
        }
        format_date(self.days)
    }
}

/// Appends a count of days since the protocol epoch as a date on the wire.
/// A count that does not fit 32 bits is refused, and `buf` left as it was.
pub fn encode_day_offset(days: i64, buf: &mut Vec<u8>) -> (r: Result<(), EncodeError>)
    ensures
        i32::MIN <= days <= i32::MAX ==> r is Ok && final(buf)@ == old(buf)@ + be_bytes(
            days as int,
            4,
        ),
        !(i32::MIN <= days <= i32::MAX) ==> r == Err::<(), EncodeError>(EncodeError::OutOfRange)
            && final(buf)@ == old(buf)@,
{
    if days < -2_147_483_648 || days > 2_147_483_647 {
        return Err(EncodeError::OutOfRange);
    }
    let days = days as i32;
    <i32 as Encode<Postgres>>::encode(&days, buf)
}

impl HasSqlType<Date> for Postgres {
    open spec fn backend_id() -> u32 {
        TypeId::DATE
    }

    open spec fn display_name() -> Seq<char> {
        "date"@
    }

    fn type_info() -> (info: PgTypeInfo) {
        PgTypeInfo::new(TypeId::DATE, "date")
    }
}

impl HasSqlType<[Date]> for Postgres {
    open spec fn backend_id() -> u32 {
        TypeId::ARRAY_DATE
    }

    open spec fn display_name() -> Seq<char> {
        "date[]"@
    }

    fn type_info() -> (info: PgTypeInfo) {
        PgTypeInfo::new(TypeId::ARRAY_DATE, "date[]")
    }
}

impl Encode<Postgres> for Date {
    open spec fn wire(&self) -> Option<Seq<u8>> {
        if i32::MIN <= self.days_since_epoch() <= i32::MAX {
            Some(be_bytes(self.days_since_epoch(), 4))
        } else {
            None
        }
    }

    open spec fn width() -> nat {
        4
    }

    fn encode(&self, buf: &mut Vec<u8>) -> (r: Result<(), EncodeError>) {
        proof {
            use_type_invariant(self);
        }
        match date_days_since(self.days, EPOCH_DAY) {
            Some(days) => encode_day_offset(days, buf),
            None => Err(EncodeError::OutOfRange),
        }
    }

    fn size_hint(&self) -> (n: usize) {
        4
    }

    proof fn lemma_wire_width(&self) {
        lemma_be_digits_len(residue(self.days_since_epoch(), 4), 4);
    }
}

impl Decode<Postgres> for Date {
    open spec fn parse(raw: Seq<u8>) -> Result<Self, DecodeError> {
        if raw.len() != 4 {
            Err(DecodeError::Malformed)
        } else if valid_day(EPOCH_DAY + be_value(raw)) {
            Ok(Date::at(EPOCH_DAY + be_value(raw)))
        } else {
            Err(DecodeError::OutOfRange)
        }
    }

    fn decode(raw: &[u8]) -> (r: Result<Self, DecodeError>) {
        let days = match <i32 as Decode<Postgres>>::decode(raw) {
            Ok(days) => days,
            Err(e) => { return Err(e); },
        };
        proof {
            lemma_radix_values();
            lemma_bytes_of_value(raw@);
        }
        match date_plus_days(EPOCH_DAY, days as i64) {
            Some(number) => Ok(Date { days: number }),
            None => Err(DecodeError::OutOfRange),
        }
    }
}

/// A date and a time of day without a time zone.
#[derive(Clone, Copy, Debug, PartialEq, Eq, Structural)]
pub struct Timestamp {
    date: Date,
    time: Time,
}

impl View for Timestamp {
    type V = Instant;

    closed spec fn view(&self) -> Instant {
        Instant { day: self.date@, secs: self.time@.secs, frac: self.time@.frac }
    }
}

impl Timestamp {
    /// Whether the value is a time of day on a date of the calendar. Every
    /// value that a program holds is.
    pub open spec fn wf(&self) -> bool {
        valid_day(self@.day) && valid_time(self@.secs, self@.frac)
    }

    /// The instant `frac` nanoseconds into second `secs` of day `day`.
    pub closed spec fn at(day: int, secs: int, frac: int) -> Timestamp {
        Timestamp { date: Date::at(day), time: Time::at(secs, frac) }
    }

    /// The whole microseconds from the protocol epoch to this instant,
    /// rounded toward zero.
    pub open spec fn micros_since_epoch(&self) -> int {
        toward_zero(
            instant_nanos_between(self@.day, self@.secs, self@.frac, EPOCH_DAY as int, 0, 0),
            1000,
        )
    }

    /// The instant that lies `micros` microseconds after the protocol epoch.
    pub open spec fn of_micros(micros: int) -> Timestamp {
        Timestamp::at(
            EPOCH_DAY + micros / (MICROS_PER_DAY as int),
            (micros % (MICROS_PER_DAY as int)) / (MICROS_PER_SEC as int),
            (micros % (MICROS_PER_SEC as int)) * 1000,
        )
    }

    /// The timestamp made of the day number, seconds and nanoseconds of an
    /// instant of the calendar has just these.
    pub proof fn lemma_at(day: int, secs: int, frac: int)
        requires
            valid_day(day),
            valid_time(secs, frac),
        ensures
            Timestamp::at(day, secs, frac)@ == (Instant { day, secs, frac }),
            Timestamp::at(day, secs, frac).wf(),
    {
    }

    /// A timestamp is known by its day number, seconds and nanoseconds.
    pub proof fn lemma_same_view(a: Timestamp, b: Timestamp)
        requires
            a@ == b@,
        ensures
            a == b,
    {
    }

    /// The time `time` on the date `date`.
    pub fn new(date: Date, time: Time) -> (r: Timestamp)
        ensures
            r@ == (Instant { day: date@, secs: time@.secs, frac: time@.frac }),
    {
        Timestamp { date, time }
    }

    /// The instant `hour`:`min`:`sec` on `year`-`month`-`day`, or `None`
    /// where the calendar has no such date or the day no such time.
    pub fn from_ymd_hms(year: i32, month: u32, day: u32, hour: u32, min: u32, sec: u32) -> (r:
        Option<Timestamp>)
        ensures
            r == match (
                ymd_day_number(year as int, month as int, day as int),
                hour < 24 && min < 60 && sec < 60,
            ) {
                (Some(number), true) if valid_day(number as int) => Some(
                    Timestamp::at(number as int, hour * 3600 + min * 60 + sec, 0),
                ),
                _ => None,
            },
    {
        match (Date::from_ymd(year, month, day), Time::from_hms(hour, min, sec)) {
            (Some(date), Some(time)) => Some(Timestamp { date, time }),
            _ => None,
        }
    }

    /// The date of the instant.
    pub fn date(&self) -> (date: Date)
        ensures
            date@ == self@.day,
            self.wf(),
    {
        proof {
            use_type_invariant(self.date);
            use_type_invariant(self.time);
        }
        self.date
    }

    /// The time of day of the instant.
    pub fn time(&self) -> (time: Time)
        ensures
            time@ == (Clock { secs: self@.secs, frac: self@.frac }),
            self.wf(),
    {
        proof {
            use_type_invariant(self.date);
            use_type_invariant(self.time);
        }
        self.time
    }

    /// The instant as text, `yyyy-mm-dd hh:mm:ss` and the fraction of the
    /// second if any.
    pub fn to_string(&self) -> (text: String)
        ensures
            text@ == instant_text(self@.day, self@.secs, self@.frac),
    {
        proof {
            use_type_invariant(self.date);
            use_type_invariant(self.time);
        }
        format_instant(self.date.days, self.time.secs, self.time.frac)
    }
}

impl HasSqlType<Timestamp> for Postgres {
    open spec fn backend_id() -> u32 {
        TypeId::TIMESTAMP
    }

    open spec fn display_name() -> Seq<char> {
        "timestamp"@
    }

    fn type_info() -> (info: PgTypeInfo) {
        PgTypeInfo::new(TypeId::TIMESTAMP, "timestamp")
    }
}

impl HasSqlType<[Timestamp]> for Postgres {
    open spec fn backend_id() -> u32 {
        TypeId::ARRAY_TIMESTAMP
    }

    open spec fn display_name() -> Seq<char> {
        "timestamp[]"@
    }

    fn type_info() -> (info: PgTypeInfo) {
        PgTypeInfo::new(TypeId::ARRAY_TIMESTAMP, "timestamp[]")
    }
}

impl Encode<Postgres> for Timestamp {
    open spec fn wire(&self) -> Option<Seq<u8>> {
        if i64::MIN <= self.micros_since_epoch() <= i64::MAX {
            Some(be_bytes(self.micros_since_epoch(), 8))
        } else {
            None
        }
    }

    open spec fn width() -> nat {
        8
    }

    fn encode(&self, buf: &mut Vec<u8>) -> (r: Result<(), EncodeError>) {
        proof {
            use_type_invariant(self.date);
            use_type_invariant(self.time);
        }
        match instant_micros_since(
            self.date.days,
            self.time.secs,
            self.time.frac,
            EPOCH_DAY,
            0,
            0,
        ) {
            Some(micros) => <i64 as Encode<Postgres>>::encode(&micros, buf),
            None => Err(EncodeError::OutOfRange),
        }
    }

    fn size_hint(&self) -> (n: usize) {
        8
    }

    proof fn lemma_wire_width(&self) {
        lemma_be_digits_len(residue(self.micros_since_epoch(), 8), 8);
    }
}

impl Decode<Postgres> for Timestamp {
    open spec fn parse(raw: Seq<u8>) -> Result<Self, DecodeError> {
        if raw.len() != 8 {
            Err(DecodeError::Malformed)
        } else if valid_day(EPOCH_DAY + be_value(raw) / (MICROS_PER_DAY as int)) {
            Ok(Timestamp::of_micros(be_value(raw)))
        } else {
            Err(DecodeError::OutOfRange)
        }
    }

    fn decode(raw: &[u8]) -> (r: Result<Self, DecodeError>) {
        let micros = match <i64 as Decode<Postgres>>::decode(raw) {
            Ok(micros) => micros,
            Err(e) => { return Err(e); },
        };
        proof {
            lemma_radix_values();
            lemma_bytes_of_value(raw@);
            lemma_micros_as_nanos(micros as int);
        }
        match instant_plus_micros(EPOCH_DAY, 0, 0, micros) {
            Some((day, secs, frac)) => Ok(
                Timestamp { date: Date { days: day }, time: Time { secs, frac } },
            ),
            None => Err(DecodeError::OutOfRange),
        }
    }
}

/// What a zoned timestamp is: its instant in UTC, and how many seconds east
/// of UTC its zone lies.
pub struct Zoned {
    pub utc: Instant,
    pub offset: int,
}

/// A date and a time of day in a time zone. The instant is held in UTC,
/// beside the offset of the zone.
#[derive(Clone, Copy, Debug, PartialEq, Eq, Structural)]
pub struct TimestampTz {
    utc: Timestamp,
    offset: i32,
}

impl View for TimestampTz {
    type V = Zoned;

    closed spec fn view(&self) -> Zoned {
        Zoned { utc: self.utc@, offset: self.offset as int }
    }
}

/// Whether a zone may lie `offset` seconds east of UTC: less than a day
/// either way.
pub open spec fn valid_offset(offset: int) -> bool {
    -86_400 < offset < 86_400
}

impl TimestampTz {
    #[verifier::type_invariant]
    closed spec fn inv(self) -> bool {
        valid_offset(self.offset as int)
    }

    /// Whether the value is an instant of the calendar in a time zone. Every
    /// value that a program holds is.
    pub open spec fn wf(&self) -> bool {
        &&& valid_day(self@.utc.day)
        &&& valid_time(self@.utc.secs, self@.utc.frac)
        &&& valid_offset(self@.offset)
    }

    /// The instant in UTC, without the zone.
    pub closed spec fn instant(&self) -> Timestamp {
        self.utc
    }

    /// The instant `utc` in a zone `offset` seconds east of UTC.
    pub closed spec fn at(utc: Timestamp, offset: int) -> TimestampTz {
        TimestampTz { utc, offset: offset as i32 }
    }

    /// The zoned timestamp made of an instant and the offset of a zone has
    /// just these.
    pub proof fn lemma_at(utc: Timestamp, offset: int)
        requires
            valid_offset(offset),
        ensures
            TimestampTz::at(utc, offset).instant() == utc,
            TimestampTz::at(utc, offset)@ == (Zoned { utc: utc@, offset }),
    {
    }

    /// A zoned timestamp is its instant in UTC and the offset of its zone.
    pub proof fn lemma_parts(&self)
        ensures
            self.instant()@ == self@.utc,
            valid_offset(self@.offset) ==> *self == TimestampTz::at(self.instant(), self@.offset),
    {
    }

    /// The instant `utc`, in the zone UTC.
    pub fn from_utc(utc: Timestamp) -> (r: TimestampTz)
        ensures
            r == TimestampTz::at(utc, 0),
    {
        TimestampTz { utc, offset: 0 }
    }

    /// The instant `utc`, in a zone `offset` seconds east of UTC, or `None`
    /// where the offset reaches a day.
    pub fn with_offset(utc: Timestamp, offset: i32) -> (r: Option<TimestampTz>)
        ensures
            r == if valid_offset(offset as int) {
                Some(TimestampTz::at(utc, offset as int))
            } else {
                None
            },
    {
        if -86_400 < offset && offset < 86_400 {
            Some(TimestampTz { utc, offset })
        } else {
            None
        }
    }

    /// The instant in UTC, without the zone.
    pub fn naive_utc(&self) -> (utc: Timestamp)
        ensures
            utc == self.instant(),
            utc@ == self@.utc,
            self.wf(),
    {
        proof {
            use_type_invariant(self);
            use_type_invariant(self.utc.date);
            use_type_invariant(self.utc.time);
        }
        self.utc
    }

    /// How many seconds east of UTC the zone lies.
    pub fn offset_seconds(&self) -> (offset: i32)
        ensures
            offset == self@.offset,
            valid_offset(offset as int),
    {
        proof {
            use_type_invariant(self);
        }
        self.offset
    }
}

impl HasSqlType<TimestampTz> for Postgres {
    open spec fn backend_id() -> u32 {
        TypeId::TIMESTAMPTZ
    }

    open spec fn display_name() -> Seq<char> {
        "timestamptz"@
    }

    fn type_info() -> (info: PgTypeInfo) {
        PgTypeInfo::new(TypeId::TIMESTAMPTZ, "timestamptz")
    }
}

/// The array of zoned timestamps goes by the display name of the array of
/// plain timestamps, whatever the zone.
impl HasSqlType<[TimestampTz]> for Postgres {
    open spec fn backend_id() -> u32 {
        TypeId::ARRAY_TIMESTAMPTZ
    }

    open spec fn display_name() -> Seq<char> {
        "timestamp[]"@
    }

    fn type_info() -> (info: PgTypeInfo) {
        PgTypeInfo::new(TypeId::ARRAY_TIMESTAMPTZ, "timestamp[]")
    }
}

impl Encode<Postgres> for TimestampTz {
    /// A zoned timestamp travels as its instant in UTC.
    open spec fn wire(&self) -> Option<Seq<u8>> {
        <Timestamp as Encode<Postgres>>::wire(&self.instant())
    }

    open spec fn width() -> nat {
        8
    }

    fn encode(&self, buf: &mut Vec<u8>) -> (r: Result<(), EncodeError>) {
        <Timestamp as Encode<Postgres>>::encode(&self.utc, buf)
    }

    fn size_hint(&self) -> (n: usize) {
        8
    }

    proof fn lemma_wire_width(&self) {
        self.instant().lemma_wire_width();
    }
}

impl Decode<Postgres> for TimestampTz {
    /// What arrives is an instant in UTC.
    open spec fn parse(raw: Seq<u8>) -> Result<Self, DecodeError> {
        match <Timestamp as Decode<Postgres>>::parse(raw) {
            Ok(utc) => Ok(TimestampTz::at(utc, 0)),
            Err(e) => Err(e),
        }
    }

    fn decode(raw: &[u8]) -> (r: Result<Self, DecodeError>) {
        match <Timestamp as Decode<Postgres>>::decode(raw) {
            Ok(utc) => Ok(TimestampTz::from_utc(utc)),
            Err(e) => Err(e),
        }
    }
}

/// The protocol epoch: midnight at the start of the year 2000, in UTC.
pub fn postgres_epoch() -> (epoch: TimestampTz)
    ensures
        epoch == TimestampTz::at(Timestamp::at(EPOCH_DAY as int, 0, 0), 0),
        epoch.wf(),
{
    TimestampTz::from_utc(
        Timestamp { date: Date { days: EPOCH_DAY }, time: Time { secs: 0, frac: 0 } },
    )
}

/// A time of day of whole microseconds, outside a leap second, comes back
/// from its wire bytes unchanged.
pub proof fn lemma_time_round_trip(time: Time)
    requires
        time.wf(),
        time@.frac < NANOS_PER_SEC,
        time@.frac % 1000 == 0,
    ensures
        time.wire() == Some(be_bytes(time.micros_of_day(), 8)),
        <Time as Decode<Postgres>>::parse(be_bytes(time.micros_of_day(), 8)) == Ok::<
            Time,
            DecodeError,
        >(time),
{
    let micros = time.micros_of_day();
    lemma_radix_values();
    lemma_value_of_bytes(micros, 8);
    lemma_fundamental_div_mod_converse(micros, 1_000_000, time@.secs, time@.frac / 1000);
}

/// A date comes back from its wire bytes unchanged, and every date has wire
/// bytes: no date of the calendar lies further from the epoch than 32 bits
/// count.
pub proof fn lemma_date_round_trip(date: Date)
    requires
        date.wf(),
    ensures
        date.wire() == Some(be_bytes(date.days_since_epoch(), 4)),
        <Date as Decode<Postgres>>::parse(be_bytes(date.days_since_epoch(), 4)) == Ok::<
            Date,
            DecodeError,
        >(date),
{
    lemma_radix_values();
    lemma_value_of_bytes(date.days_since_epoch(), 4);
}

/// Every timestamp has wire bytes: no instant of the calendar lies further
/// from the epoch than 64 bits count in microseconds.
pub proof fn lemma_timestamp_has_wire(stamp: Timestamp)
    requires
        stamp.wf(),
    ensures
        i64::MIN <= stamp.micros_since_epoch() <= i64::MAX,
        stamp.wire() == Some(be_bytes(stamp.micros_since_epoch(), 8)),
{
}

/// A timestamp of whole microseconds, outside a leap second, comes back from
/// its wire bytes unchanged.
pub proof fn lemma_timestamp_round_trip(stamp: Timestamp)
    requires
        stamp.wf(),
        stamp@.frac < NANOS_PER_SEC,
        stamp@.frac % 1000 == 0,
    ensures
        stamp.wire() == Some(be_bytes(stamp.micros_since_epoch(), 8)),
        <Timestamp as Decode<Postgres>>::parse(be_bytes(stamp.micros_since_epoch(), 8)) == Ok::<
            Timestamp,
            DecodeError,
        >(stamp),
{
    let micros = stamp.micros_since_epoch();
    let in_day = stamp@.secs * 1_000_000 + stamp@.frac / 1000;
    lemma_timestamp_has_wire(stamp);
    assert(micros == (stamp@.day - EPOCH_DAY) * 86_400_000_000 + in_day);
    lemma_radix_values();
    lemma_value_of_bytes(micros, 8);
    lemma_fundamental_div_mod_converse(micros, 86_400_000_000, stamp@.day - EPOCH_DAY, in_day);
    lemma_fundamental_div_mod_converse(in_day, 1_000_000, stamp@.secs, stamp@.frac / 1000);
    lemma_fundamental_div_mod_converse(
        micros,
        1_000_000,
        (stamp@.day - EPOCH_DAY) * 86_400 + stamp@.secs,
        stamp@.frac / 1000,
    );
}

/// A zoned timestamp of whole microseconds, outside a leap second, comes
/// back from its wire bytes as the same instant, in UTC.
pub proof fn lemma_timestamptz_round_trip(stamp: TimestampTz)
    requires
        stamp.wf(),
        stamp@.utc.frac < NANOS_PER_SEC,
        stamp@.utc.frac % 1000 == 0,
    ensures
        stamp.wire() == Some(be_bytes(stamp.instant().micros_since_epoch(), 8)),
        <TimestampTz as Decode<Postgres>>::parse(
            be_bytes(stamp.instant().micros_since_epoch(), 8),
        ) == Ok::<TimestampTz, DecodeError>(TimestampTz::at(stamp.instant(), 0)),
        stamp@.offset == 0 ==> TimestampTz::at(stamp.instant(), 0) == stamp,
{
    lemma_timestamp_round_trip(stamp.instant());
}

/// The bytes from which a date is read are the wire bytes of that date.
pub proof fn lemma_date_wire_is_canonical(raw: Seq<u8>)
    requires
        <Date as Decode<Postgres>>::parse(raw) is Ok,
    ensures
        <Date as Decode<Postgres>>::parse(raw)->Ok_0.wire() == Some(raw),
{
    lemma_radix_values();
    lemma_bytes_of_value(raw);
}

/// The bytes from which a timestamp is read are the wire bytes of that
/// timestamp.
pub proof fn lemma_timestamp_wire_is_canonical(raw: Seq<u8>)
    requires
        <Timestamp as Decode<Postgres>>::parse(raw) is Ok,
    ensures
        <Timestamp as Decode<Postgres>>::parse(raw)->Ok_0.wire() == Some(raw),
{
    let micros = be_value(raw);
    lemma_radix_values();
    lemma_bytes_of_value(raw);
    lemma_micros_as_nanos(micros);
    let stamp = Timestamp::of_micros(micros);
    assert(instant_nanos_between(stamp@.day, stamp@.secs, stamp@.frac, EPOCH_DAY as int, 0, 0)
        == micros * 1000);
}

/// What is read from the wire is a value of its type: a time of day, a date
/// of the calendar, an instant of the calendar.
pub proof fn lemma_decoded_values_are_valid(raw: Seq<u8>)
    ensures
        <Time as Decode<Postgres>>::parse(raw) matches Ok(time) ==> time.wf(),
        <Date as Decode<Postgres>>::parse(raw) matches Ok(date) ==> date.wf() && date@ == EPOCH_DAY
            + be_value(raw),
        <Timestamp as Decode<Postgres>>::parse(raw) matches Ok(stamp) ==> stamp.wf(),
        <TimestampTz as Decode<Postgres>>::parse(raw) matches Ok(stamp) ==> stamp.wf()
            && stamp@.offset == 0,
{
}

} // verus!
